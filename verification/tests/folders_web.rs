use movie_rust::filters::parse_id_list;
use movie_rust::folders::{library_to_item_dto, root_item_dto, split_folder_ids_by_type};
use movie_rust::paths::{Library, LibraryOptions};
use movie_rust::scan::{after_local_scan, after_remote_sync, ScanSummary, SyncOutcome};
use movie_rust::web::{configuration_page_message, display_preferences_value, environment_parent_path, ParentPathError};
use uuid::Uuid;

fn summary(l: usize, s: usize, i: usize) -> ScanSummary {
    ScanSummary { libraries: l, scanned_files: s, imported_items: i }
}

#[test]
fn root_folder() {
    let r = root_item_dto(0xff);
    assert_eq!(r.name, "Root");
    assert_eq!(r.id, "00000000000000000000000000000000");
    assert_eq!(r.server_id, "000000000000000000000000000000ff");
    assert_eq!(r.presentation_unique_key, "root_");
    assert_eq!(r.location_type, "Virtual");
    assert_eq!(r.user_data.server_id.as_deref(), Some("000000000000000000000000000000ff"));
    assert_eq!(r.user_data.play_count, None);
    assert_eq!(r.guid.as_deref(), Some("00000000000000000000000000000000"));
    assert_eq!(r.item_type, "Folder");
    assert!(r.is_folder);
}

#[test]
fn library_folder_items() {
    let lib = Library {
        id: 3,
        name: "Films".to_string(),
        collection_type: "movies".to_string(),
        path: "/media/films".to_string(),
        options: Some(LibraryOptions {
            path_infos: vec!["/a".to_string(), "/b".to_string()],
            season_zero_display_name: String::new(),
            preferred_image_language: None,
            preferred_metadata_language: None,
            min_collection_items: 0,
        }),
    };
    let item = library_to_item_dto(&lib, &Some("/img.jpg".to_string()), &None, 123, Some(9), 1, -4, 10, 0, 2);
    assert_eq!(item.id, "00000000000000000000000000000003");
    assert_eq!(item.guid.as_deref(), Some("00000000000000000000000000000003"));
    assert_eq!(item.item_type, "CollectionFolder");
    assert!(item.is_folder);
    assert_eq!(item.locations, vec!["/a".to_string(), "/b".to_string()]);
    assert_eq!(item.primary_image_tag.as_deref(), Some("123"));
    assert_eq!(item.child_count, 0);
    assert_eq!(item.recursive_item_count, Some(10));
    assert_eq!(item.movie_count, None);
    assert_eq!(item.series_count, Some(2));
    let stored = library_to_item_dto(&lib, &Some("/img.jpg".to_string()), &Some("tag".to_string()), 123, None, 1, 5, 0, 1, 0);
    assert_eq!(stored.primary_image_tag.as_deref(), Some("tag"));
    let child = library_to_item_dto(&lib, &Some(" ".to_string()), &Some("tag".to_string()), 123, Some(9), 1, 5, 0, 1, 0);
    assert_eq!(child.primary_image_tag.as_deref(), Some("9"));
    let none = library_to_item_dto(&lib, &None, &None, 123, None, 1, 5, 0, 1, 0);
    assert_eq!(none.primary_image_tag, None);
}

#[test]
fn library_update_totals() {
    let s = after_remote_sync(summary(0, 0, 0), &SyncOutcome::Synced(summary(1, 10, 2))).unwrap();
    assert_eq!((s.libraries, s.scanned_files, s.imported_items), (1, 10, 2));
    let busy = after_remote_sync(s, &SyncOutcome::Busy).unwrap();
    assert_eq!(busy, s);
    assert!(after_remote_sync(s, &SyncOutcome::Failed).is_none());
    let done = after_local_scan(s, summary(7, 5, 1));
    assert_eq!((done.libraries, done.scanned_files, done.imported_items), (1, 15, 3));
}

#[test]
fn configuration_pages_and_parent_paths() {
    assert_eq!(configuration_page_message(None), "Configuration page name is required");
    assert_eq!(configuration_page_message(Some("  ")), "Configuration page name is required");
    assert_eq!(configuration_page_message(Some("plugin")), "Configuration page is not implemented yet");
    assert_eq!(environment_parent_path(Some(" /media/movies ")), Ok("/media".to_string()));
    assert_eq!(environment_parent_path(Some("/")), Ok(String::new()));
    assert_eq!(environment_parent_path(Some(" ")), Err(ParentPathError::MissingPath));
    assert_eq!(environment_parent_path(None), Err(ParentPathError::MissingPath));
}

#[test]
fn default_display_preferences() {
    let user = Uuid::from_u128(0xabcdef);
    let d = display_preferences_value("view1".to_string(), user.as_u128(), None);
    assert_eq!(d.user_id, user.to_string().to_uppercase());
    assert_eq!(d.client, "emby");
    assert_eq!((d.primary_image_height, d.primary_image_width), (250, 166));
    assert_eq!(display_preferences_value("v".to_string(), 0, Some("web")).client, "web");
}

#[test]
fn listed_ids_parse_back_in_either_form() {
    let a = Uuid::from_u128(0x1234_5678_9abc_def0_0fed_cba9_8765_4321);
    let b = Uuid::from_u128(7);
    let text = format!("{}, {}, {}", a.simple(), b, a);
    let ids = parse_id_list(Some(&text));
    assert_eq!(ids, vec![a.as_u128(), b.as_u128(), a.as_u128()]);
    assert_eq!(parse_id_list(Some("")), Vec::<u128>::new());
    assert_eq!(parse_id_list(Some("nope, , 00000000000000000000000000000009")), vec![9]);
    assert_eq!(parse_id_list(None), Vec::<u128>::new());
}

#[test]
fn folder_ids_are_split_by_type() {
    let rows = vec![
        (1u128, "Series".to_string()),
        (2u128, "Season".to_string()),
        (3u128, "BoxSet".to_string()),
        (4u128, "Series".to_string()),
    ];
    let b = split_folder_ids_by_type(&vec![4, 9, 1, 8], &rows);
    assert_eq!(b.series_ids, vec![1, 4]);
    assert_eq!(b.season_ids, vec![2]);
    assert_eq!(b.other_ids, vec![3, 9, 8]);
}
