use movie_rust::filters::parse_id_list;
use uuid::Uuid;

#[test]
fn parse_id_list_accepts_emby_guid_and_uuid_format() {
    let u = Uuid::nil();
    let emby = u.simple().to_string();
    let mixed = format!("{emby}, {u}");
    let parsed = parse_id_list(Some(&mixed));
    assert_eq!(parsed.len(), 2);
    assert!(parsed.iter().all(|id| *id == u.as_u128()));
}

#[test]
fn tmdb_collection_id_is_the_url_namespace_id_of_its_name() {
    let expected = uuid::Uuid::new_v5(&uuid::Uuid::NAMESPACE_URL, b"tmdb_collection:10").as_u128();
    assert_eq!(movie_rust::filters::tmdb_collection_id(10), expected);
    let negative = uuid::Uuid::new_v5(&uuid::Uuid::NAMESPACE_URL, b"tmdb_collection:-3").as_u128();
    assert_eq!(movie_rust::filters::tmdb_collection_id(-3), negative);
    assert_ne!(movie_rust::filters::tmdb_collection_id(10), movie_rust::filters::tmdb_collection_id(11));
}
