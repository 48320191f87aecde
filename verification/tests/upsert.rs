use movie_rust::upsert::{episode_season_id, media_item_id, merge_image_path, retries_upsert};
use uuid::Uuid;

fn s(v: &str) -> Option<String> {
    Some(v.to_string())
}

#[test]
fn item_ids_derive_from_library_and_path() {
    let lib = Uuid::from_u128(0xabcdef);
    let expected = Uuid::new_v5(&lib, "/m/Heat.mkv".as_bytes());
    assert_eq!(media_item_id(None, lib.as_u128(), "/m/Heat.mkv"), expected.as_u128());
    assert_eq!(media_item_id(Some(42), lib.as_u128(), "/m/Heat.mkv"), 42);
}

#[test]
fn local_images_outrank_web_addresses() {
    assert_eq!(merge_image_path(s("/m/poster.jpg"), s("https://img/x.jpg"), false), s("/m/poster.jpg"));
    assert_eq!(merge_image_path(s("/m/poster.jpg"), s("https://img/x.jpg"), true), s("https://img/x.jpg"));
    assert_eq!(merge_image_path(s("http://a/old.jpg"), s("https://img/x.jpg"), false), s("https://img/x.jpg"));
    assert_eq!(merge_image_path(s("/m/poster.jpg"), s("/m/new.jpg"), false), s("/m/new.jpg"));
    assert_eq!(merge_image_path(s("/m/poster.jpg"), None, false), s("/m/poster.jpg"));
    assert_eq!(merge_image_path(s("/m/poster.jpg"), None, true), None);
    assert_eq!(merge_image_path(None, s("https://img/x.jpg"), false), s("https://img/x.jpg"));
}

#[test]
fn episodes_hang_under_their_season() {
    assert_eq!(episode_season_id("Episode", Some(7)), Some(7));
    assert_eq!(episode_season_id("Season", Some(7)), None);
    assert_eq!(episode_season_id("Episode", None), None);
}

#[test]
fn path_conflicts_are_retried_twice() {
    assert!(retries_upsert(0, true));
    assert!(retries_upsert(1, true));
    assert!(!retries_upsert(2, true));
    assert!(!retries_upsert(0, false));
}

#[test]
fn writing_a_scan_twice_is_writing_it_once() {
    for (stored, scanned, force) in [
        (s("/m/p.jpg"), s("https://x/p.jpg"), false),
        (None, s("https://x/p.jpg"), false),
        (s("https://y/p.jpg"), None, true),
        (s("/m/p.jpg"), s("/m/q.jpg"), false),
    ] {
        let once = merge_image_path(stored, scanned.clone(), force);
        let twice = merge_image_path(once.clone(), scanned, force);
        assert_eq!(once, twice);
    }
}
