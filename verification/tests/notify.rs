use movie_rust::notify::{
    libraries_for_media_updates, library_ids_by_collection_type, library_notify_targets, physical_paths, text_less,
    ScanTarget,
};
use movie_rust::paths::{Library, LibraryOptions};

fn library(id: u128, collection_type: &str, path: &str, extra: &[&str]) -> Library {
    Library {
        id,
        name: format!("L{id}"),
        collection_type: collection_type.to_string(),
        path: path.to_string(),
        options: Some(LibraryOptions {
            path_infos: extra.iter().map(|s| s.to_string()).collect(),
            season_zero_display_name: String::new(),
            preferred_image_language: None,
            preferred_metadata_language: None,
            min_collection_items: 0,
        }),
    }
}

fn libs() -> Vec<Library> {
    vec![
        library(9, "movies", "/m/films", &[]),
        library(3, "tvshows", "/m/tv", &["/m/tv", "/n/series"]),
        library(5, "Movies", "/m/docs", &[]),
    ]
}

#[test]
fn updates_map_to_sorted_libraries() {
    let updates = vec!["  /m/films/Heat (1995)/heat.mkv ".to_string(), "/n/series/X".to_string(), " ".to_string()];
    assert_eq!(libraries_for_media_updates(&updates, &libs()), vec![3, 9]);
    assert_eq!(libraries_for_media_updates(&vec!["/elsewhere".to_string()], &libs()), Vec::<u128>::new());
    assert_eq!(library_ids_by_collection_type(&libs(), "MOVIES"), vec![5, 9]);
}

#[test]
fn notices_choose_what_to_rescan() {
    match library_notify_targets("/emby/Library/Movies/Added", &Vec::new(), &libs()) {
        ScanTarget::Libraries(ids) => assert_eq!(ids, vec![5, 9]),
        ScanTarget::All => panic!("expected libraries"),
    }
    match library_notify_targets("/Library/Series/Updated", &Vec::new(), &libs()) {
        ScanTarget::Libraries(ids) => assert_eq!(ids, vec![3]),
        ScanTarget::All => panic!("expected libraries"),
    }
    match library_notify_targets("/Library/Media/Updated", &vec!["/m/tv/show".to_string()], &libs()) {
        ScanTarget::Libraries(ids) => assert_eq!(ids, vec![3]),
        ScanTarget::All => panic!("expected libraries"),
    }
    assert!(matches!(library_notify_targets("/Library/Media/Updated", &Vec::new(), &libs()), ScanTarget::All));
}

#[test]
fn physical_paths_are_sorted_and_distinct() {
    assert_eq!(
        physical_paths(&libs()),
        vec!["/m/docs".to_string(), "/m/films".to_string(), "/m/tv".to_string(), "/n/series".to_string()]
    );
    assert!(text_less("abc", "abd"));
    assert!(text_less("ab", "abc"));
    assert!(!text_less("abc", "abc"));
    assert!(!text_less("b", "abc"));
    assert!(text_less("Z", "a"));
    assert!(text_less("a", "é"));
}
