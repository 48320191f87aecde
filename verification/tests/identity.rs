use movie_rust::identity::{
    deduplicate_media_items, display_preferences_id, external_urls_from_provider_map,
    fallback_item_identity_base, genre_items_from_names, identity_name_candidate, item_identity_key,
    long_id_from_hash, merge_provider_ids, name_long_id_items_from_names, normalized_identity_text,
    presentation_key_text, presentation_unique_key, provider_ids_to_map, provider_value, same_item_identity,
    sort_name_for_item, stable_long_id_from_name, IdentityItem, ProviderIds,
};
use movie_rust::json::{JsonFields, JsonScalar};
use uuid::Uuid;

fn providers(pairs: &[(&str, &str)]) -> ProviderIds {
    ProviderIds { entries: pairs.iter().map(|(k, v)| (k.to_string(), v.to_string())).collect() }
}

fn item(item_type: &str, name: &str, path: &str) -> IdentityItem {
    IdentityItem {
        id: 0x0123_4567_89ab_cdef_0123_4567_89ab_cdef,
        item_type: item_type.to_string(),
        name: name.to_string(),
        series_name: None,
        path: path.to_string(),
        production_year: Some(2010),
        index_number: None,
        index_number_end: None,
        parent_index_number: None,
        premiere_date: None,
    }
}

#[test]
fn provider_value_takes_first_listed_key() {
    let p = providers(&[("tmdb", "3"), ("TMDb", "2")]);
    assert_eq!(provider_value(&p, &["Tmdb", "TMDb", "tmdb"]), Some("2".to_string()));
    assert_eq!(provider_value(&p, &["Imdb"]), None);
}

#[test]
fn merge_provider_ids_keeps_existing_values() {
    let base = providers(&[("Tmdb", "1")]);
    let extra = providers(&[("Tmdb", "9"), ("Imdb", "tt5")]);
    let merged = merge_provider_ids(base, &extra);
    assert_eq!(merged.get("Tmdb"), Some("1".to_string()));
    assert_eq!(merged.get("Imdb"), Some("tt5".to_string()));
    assert_eq!(merged.entries.len(), 2);
}

#[test]
fn provider_ids_to_map_reads_strings_and_integers() {
    let fields = JsonFields {
        entries: vec![
            ("Tmdb".to_string(), JsonScalar::Int(603)),
            ("Imdb".to_string(), JsonScalar::Str("tt0133093".to_string())),
            ("Flag".to_string(), JsonScalar::Bool(true)),
            ("Other".to_string(), JsonScalar::Other),
        ],
    };
    let p = provider_ids_to_map(&fields);
    assert_eq!(p.entries, vec![
        ("Tmdb".to_string(), "603".to_string()),
        ("Imdb".to_string(), "tt0133093".to_string()),
    ]);
}

#[test]
fn normalized_identity_text_trims_and_lowercases() {
    assert_eq!(normalized_identity_text(Some("  The Matrix ")), Some("the matrix".to_string()));
    assert_eq!(normalized_identity_text(Some("   ")), None);
    assert_eq!(normalized_identity_text(None), None);
}

#[test]
fn identity_name_candidate_prefers_series_name() {
    let mut i = item("Episode", "Pilot", "/tv/Show/Season 1/e1.mkv");
    i.series_name = Some("Show".to_string());
    assert_eq!(identity_name_candidate(&i), Some("Show".to_string()));
    i.series_name = Some("  ".to_string());
    assert_eq!(identity_name_candidate(&i), Some("Season 1".to_string()));
    let s = item("Series", "My Show", "/tv/My Show");
    assert_eq!(identity_name_candidate(&s), Some("My Show".to_string()));
}

#[test]
fn fallback_identity_uses_name_and_year() {
    let s = item("Series", " My Show ", "/tv/My Show");
    assert_eq!(fallback_item_identity_base(&s), Some("series:name:my show:year:2010".to_string()));
    let mut m = item("Movie", "x", "/a.mkv");
    m.production_year = None;
    m.path = "/".to_string();
    assert_eq!(fallback_item_identity_base(&m), None);
}

#[test]
fn item_identity_key_prefers_tmdb_then_imdb_then_tvdb() {
    let m = item("Movie", "Matrix", "/movies/Matrix/matrix.mkv");
    assert_eq!(
        item_identity_key(&m, &providers(&[("Imdb", "tt1"), ("tmdb", "603")])),
        Some("movie:tmdb:603".to_string())
    );
    assert_eq!(item_identity_key(&m, &providers(&[("IMDb", "tt1")])), Some("movie:imdb:tt1".to_string()));
    assert_eq!(item_identity_key(&m, &providers(&[("tvdb", "77")])), Some("movie:tvdb:77".to_string()));
    assert_eq!(item_identity_key(&m, &providers(&[])), Some("movie:name:matrix:year:2010".to_string()));
}

#[test]
fn item_identity_key_refines_seasons_and_episodes() {
    let mut season = item("Season", "Season 2", "/tv/Show/Season 2");
    season.index_number = Some(2);
    assert_eq!(
        item_identity_key(&season, &providers(&[("Tmdb", "10")])),
        Some("series:tmdb:10:season:2".to_string())
    );
    let mut ep = item("Episode", "Pilot", "/tv/Show/Season 1/e1.mkv");
    ep.parent_index_number = Some(1);
    ep.index_number = Some(3);
    assert_eq!(
        item_identity_key(&ep, &providers(&[("Tmdb", "10")])),
        Some("series:tmdb:10:season:1:episode:3:0".to_string())
    );
    let mut aired = item("Episode", "Daily", "/tv/Show/d.mkv");
    aired.premiere_date = Some("2024-01-02".to_string());
    assert_eq!(
        item_identity_key(&aired, &providers(&[("Tmdb", "10")])),
        Some("series:tmdb:10:aired:2024-01-02".to_string())
    );
}

#[test]
fn presentation_unique_key_hashes_identity_source() {
    let m = item("Movie", "Matrix", "/movies/Matrix/matrix.mkv");
    let p = providers(&[("Tmdb", "603")]);
    let expected = Uuid::new_v5(&Uuid::NAMESPACE_URL, b"movie:tmdb:603").simple().to_string();
    assert_eq!(presentation_unique_key(&m, &p), format!("{expected}_"));
    assert_eq!(display_preferences_id(&m, &p), expected);
}

#[test]
fn presentation_key_falls_back_to_own_id() {
    let mut m = item("Folder", "x", "/");
    m.production_year = None;
    let own = format!("item:{}", Uuid::from_u128(m.id));
    let expected = Uuid::new_v5(&Uuid::NAMESPACE_URL, own.as_bytes()).simple().to_string();
    assert_eq!(display_preferences_id(&m, &providers(&[])), expected);
    assert_eq!(presentation_key_text(1), "00000000000000000000000000000001_");
}

#[test]
fn deduplicate_keeps_first_of_each_identity() {
    let a = item("Movie", "A", "/m/A/a.mkv");
    let mut b = item("Movie", "B", "/m/B/b.mkv");
    b.id = 2;
    let mut c = item("Movie", "C", "/m/C/c.mkv");
    c.id = 3;
    let kept = deduplicate_media_items(vec![
        (a, providers(&[("Tmdb", "1")])),
        (b, providers(&[("Tmdb", "1")])),
        (c, providers(&[("Tmdb", "2")])),
    ]);
    let names: Vec<&str> = kept.iter().map(|i| i.name.as_str()).collect();
    assert_eq!(names, vec!["A", "C"]);
}

#[test]
fn dedup_law_on_concrete_values_keeps_distinct_items() {
    let mut x = item("Folder", "x", "/");
    x.production_year = None;
    let mut y = item("Folder", "y", "/");
    y.production_year = None;
    y.id = 7;
    let kept = deduplicate_media_items(vec![(x, providers(&[])), (y, providers(&[]))]);
    assert_eq!(kept.len(), 2);
}

#[test]
fn same_item_identity_compares_keys() {
    let m = item("Movie", "Matrix", "/movies/Matrix/matrix.mkv");
    let p = providers(&[("Tmdb", "603")]);
    assert!(same_item_identity(Some("movie:tmdb:603"), &m, &p));
    assert!(!same_item_identity(Some("movie:tmdb:604"), &m, &p));
    assert!(!same_item_identity(None, &m, &p));
}

#[test]
fn external_urls_for_series_and_movies() {
    let p = providers(&[("Imdb", "tt1"), ("Tmdb", "5"), ("Tvdb", "9"), ("Trakt", "t")]);
    let urls = external_urls_from_provider_map(&p, "Series");
    let got: Vec<(String, String)> = urls.into_iter().map(|u| (u.name, u.url)).collect();
    assert_eq!(got, vec![
        ("IMDb".to_string(), "https://www.imdb.com/title/tt1".to_string()),
        ("TheMovieDb".to_string(), "https://www.themoviedb.org/tv/5".to_string()),
        ("Trakt".to_string(), "https://trakt.tv/search/tmdb/5?id_type=show".to_string()),
        ("TheTVDB".to_string(), "https://thetvdb.com/dereferrer/series/9".to_string()),
        ("Trakt".to_string(), "https://trakt.tv/search/trakt/t".to_string()),
    ]);
    let movie = external_urls_from_provider_map(&providers(&[("tmdb", "5")]), "Movie");
    assert_eq!(movie[0].url, "https://www.themoviedb.org/movie/5");
    assert_eq!(movie[1].url, "https://trakt.tv/search/tmdb/5?id_type=movie");
}

#[test]
fn long_ids_are_low_63_bits() {
    assert_eq!(long_id_from_hash(u64::MAX), i64::MAX);
    assert_eq!(long_id_from_hash(0x8000_0000_0000_0005), 5);
    assert!(stable_long_id_from_name("Drama") >= 0);
    assert_eq!(stable_long_id_from_name("Drama"), stable_long_id_from_name("Drama"));
}

#[test]
fn name_items_skip_blank_names() {
    let names = vec!["Drama".to_string(), "  ".to_string(), "Comedy".to_string()];
    let items = name_long_id_items_from_names(&names);
    let got: Vec<&str> = items.iter().map(|i| i.name.as_str()).collect();
    assert_eq!(got, vec!["Drama", "Comedy"]);
    assert!(items.iter().all(|i| i.id >= 0));
    assert_eq!(genre_items_from_names(&names).len(), 2);
}

#[test]
fn sort_names_carry_padded_numbers() {
    assert_eq!(sort_name_for_item("Pilot", "Episode", Some(1), Some(2)), "0001-0002-pilot");
    assert_eq!(sort_name_for_item("Pilot", "episode", Some(1), Some(12)), "0001-0012-pilot");
    assert_eq!(sort_name_for_item("Track", "Audio", Some(1), Some(7)), "0007-track");
    assert_eq!(sort_name_for_item("ÉCOLE", "Movie", None, None), "école");
    assert_eq!(sort_name_for_item("X", "Movie", None, Some(-3)), "-003-x");
}

#[test]
fn long_id_is_the_low_bits_of_the_default_hash() {
    let mut hasher = std::collections::hash_map::DefaultHasher::new();
    std::hash::Hash::hash("Science Fiction", &mut hasher);
    let expected = (std::hash::Hasher::finish(&hasher) & 0x7FFF_FFFF_FFFF_FFFF) as i64;
    assert_eq!(stable_long_id_from_name("Science Fiction"), expected);
    let items = name_long_id_items_from_names(&vec!["Science Fiction".to_string()]);
    assert_eq!(items[0].id, expected);
}

#[test]
fn provider_maps_name_each_provider_once() {
    let ids = ProviderIds {
        entries: vec![
            ("Tmdb".to_string(), "1".to_string()),
            ("Imdb".to_string(), "tt1".to_string()),
            ("Tmdb".to_string(), "2".to_string()),
        ],
    };
    let normal = ProviderIds { entries: ids.entries.clone() }.normalized();
    assert_eq!(normal.entries, vec![("Imdb".to_string(), "tt1".to_string()), ("Tmdb".to_string(), "1".to_string())]);
    let set = movie_rust::identity::set_provider(&ids, "Tvdb", "9".to_string());
    let keys: Vec<&str> = set.entries.iter().map(|(k, _)| k.as_str()).collect();
    assert_eq!(keys, vec!["Imdb", "Tmdb", "Tvdb"]);
    assert_eq!(set.get("Tmdb").as_deref(), Some("1"));
}
