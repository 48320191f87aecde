use movie_rust::identity::ProviderIds;
use movie_rust::versions::{merge_version_group, version_lookup, VersionCandidate};

fn providers(pairs: &[(&str, &str)]) -> ProviderIds {
    ProviderIds { entries: pairs.iter().map(|(k, v)| (k.to_string(), v.to_string())).collect() }
}

fn cand(id: u128, date_created: i64) -> VersionCandidate {
    VersionCandidate { id, date_created }
}

fn ids(group: &[VersionCandidate]) -> Vec<u128> {
    group.iter().map(|c| c.id).collect()
}

#[test]
fn movie_with_tmdb_id_is_looked_up_by_it_and_its_path_token() {
    let keys = version_lookup("Movie", &providers(&[("TMDb", "603"), ("tmdb", "999")])).unwrap();
    assert_eq!(keys.tmdb.as_deref(), Some("603"));
    assert_eq!(keys.imdb, None);
    assert_eq!(keys.tmdb_path_token.as_deref(), Some("%{tmdbid=603}%"));
    assert_eq!(keys.imdb_path_token, None);
}

#[test]
fn imdb_id_gives_an_imdb_path_token() {
    let keys = version_lookup("Series", &providers(&[("imdb", "tt0133093")])).unwrap();
    assert_eq!(keys.imdb.as_deref(), Some("tt0133093"));
    assert_eq!(keys.imdb_path_token.as_deref(), Some("%{imdbid=tt0133093}%"));
}

#[test]
fn movie_without_provider_ids_stands_alone() {
    assert!(version_lookup("Movie", &providers(&[("Tvdb", "1")])).is_none());
}

#[test]
fn episode_without_provider_ids_is_still_looked_up() {
    let keys = version_lookup("Episode", &providers(&[])).unwrap();
    assert!(keys.tmdb.is_none() && keys.imdb.is_none());
}

#[test]
fn other_item_types_stand_alone() {
    assert!(version_lookup("Season", &providers(&[("Tmdb", "1")])).is_none());
    assert!(version_lookup("Audio", &providers(&[("Tmdb", "1")])).is_none());
}

#[test]
fn missing_item_is_added_and_the_group_is_oldest_first() {
    let found = vec![cand(2, 50), cand(1, 10)];
    let group = merge_version_group(cand(3, 30), &found);
    assert_eq!(ids(&group), vec![1, 3, 2]);
}

#[test]
fn item_already_found_is_not_added_twice() {
    let found = vec![cand(7, 20), cand(8, 10)];
    let group = merge_version_group(cand(7, 20), &found);
    assert_eq!(ids(&group), vec![8, 7]);
}

#[test]
fn same_time_keeps_found_order_and_adjacent_repeats_drop() {
    let found = vec![cand(5, 10), cand(4, 10), cand(4, 10), cand(6, 1)];
    let group = merge_version_group(cand(4, 10), &found);
    assert_eq!(ids(&group), vec![6, 5, 4]);
}

#[test]
fn nothing_found_gives_the_item_alone() {
    let group = merge_version_group(cand(9, 0), &Vec::new());
    assert_eq!(ids(&group), vec![9]);
}
