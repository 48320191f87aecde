use movie_rust::access::{effective_library_filter_for_user, user_can_access_item, visible_library_ids_for_user};
use movie_rust::paths::{
    add_path_to_options, library_media_folder, remove_path_from_options, set_first_path, Library, LibraryOptions,
    LibraryPathError,
};

#[test]
fn visible_libraries_follow_the_policy() {
    let libs = vec![1u128, 2, 3, 4];
    assert_eq!(visible_library_ids_for_user(true, false, &vec![2], &vec![], &libs), vec![1, 3, 4]);
    assert_eq!(visible_library_ids_for_user(false, true, &vec![], &vec![], &libs), vec![1, 2, 3, 4]);
    assert_eq!(visible_library_ids_for_user(false, false, &vec![3], &vec![3, 4, 9], &libs), vec![4]);
    assert_eq!(visible_library_ids_for_user(false, false, &vec![], &vec![], &libs), Vec::<u128>::new());
    let filter = effective_library_filter_for_user(true, false, false, &vec![3], &vec![3, 4, 9], &libs);
    assert_eq!(filter, Some(visible_library_ids_for_user(false, false, &vec![3], &vec![3, 4, 9], &libs)));
    assert_eq!(effective_library_filter_for_user(true, true, false, &vec![], &vec![], &libs), None);
}

#[test]
fn items_are_open_in_visible_libraries_only() {
    let visible = vec![1u128, 4];
    assert!(user_can_access_item(Some(4), &visible));
    assert!(!user_can_access_item(Some(2), &visible));
    assert!(!user_can_access_item(None, &visible));
}

#[test]
fn media_folders_number_their_paths() {
    let lib = Library {
        id: 0x0123_4567_89ab_cdef_0123_4567_89ab_cdef,
        name: "Films".to_string(),
        collection_type: "movies".to_string(),
        path: "/media/films".to_string(),
        options: Some(LibraryOptions {
            path_infos: vec!["/media/films".to_string(), "/media/more".to_string()],
            season_zero_display_name: String::new(),
            preferred_image_language: None,
            preferred_metadata_language: None,
            min_collection_items: 0,
        }),
    };
    let f = library_media_folder(&lib);
    assert_eq!(f.name, "Films");
    assert_eq!(f.id, "01234567-89ab-cdef-0123-456789abcdef");
    assert_eq!(f.guid, f.id);
    assert_eq!(f.sub_folders.len(), 2);
    assert_eq!(f.sub_folders[0].name, "Films-1");
    assert_eq!(f.sub_folders[0].id, "01234567-89ab-cdef-0123-456789abcdef:0");
    assert_eq!(f.sub_folders[0].path, "/media/films");
    assert_eq!(f.sub_folders[1].name, "Films-2");
    assert_eq!(f.sub_folders[1].path, "/media/more");
}

fn options(paths: &[&str]) -> LibraryOptions {
    LibraryOptions {
        path_infos: paths.iter().map(|s| s.to_string()).collect(),
        season_zero_display_name: "Specials".to_string(),
        preferred_image_language: None,
        preferred_metadata_language: Some("en".to_string()),
        min_collection_items: 2,
    }
}

#[test]
fn library_paths_are_added_set_and_removed() {
    let o = add_path_to_options(options(&["/m/a"]), "  /m/b ").ok().unwrap();
    assert_eq!(o.path_infos, vec!["/m/a".to_string(), "/m/b".to_string()]);
    let o = add_path_to_options(o, "/M/A").ok().unwrap();
    assert_eq!(o.path_infos.len(), 2);
    assert_eq!(add_path_to_options(options(&[]), "  ").err(), Some(LibraryPathError::EmptyPath));
    let o = set_first_path(options(&["/m/a", "/m/b"]), " /x ").ok().unwrap();
    assert_eq!(o.path_infos, vec!["/x".to_string(), "/m/b".to_string()]);
    let o = set_first_path(options(&[]), "/x").ok().unwrap();
    assert_eq!(o.path_infos, vec!["/x".to_string()]);
    let o = remove_path_from_options(options(&["/m/a", "/M/A", "/m/b"]), " /m/a ").ok().unwrap();
    assert_eq!(o.path_infos, vec!["/m/b".to_string()]);
    assert_eq!(o.min_collection_items, 2);
    assert_eq!(remove_path_from_options(options(&["/m/a"]), "/m/a").err(), Some(LibraryPathError::LastPath));
    assert_eq!(LibraryPathError::LastPath.message(), "媒体库至少需要保留一个路径");
}

#[test]
fn item_lists_admit_only_allowed_libraries() {
    use_admits();
}

fn use_admits() {
    let allowed = Some(vec![1u128, 4]);
    assert!(movie_rust::access::item_admitted(&allowed, None, Some(4)));
    assert!(!movie_rust::access::item_admitted(&allowed, None, Some(2)));
    assert!(!movie_rust::access::item_admitted(&allowed, None, None));
    assert!(!movie_rust::access::item_admitted(&allowed, Some(2), Some(4)));
    assert!(!movie_rust::access::item_admitted(&Some(vec![]), None, Some(1)));
    assert!(movie_rust::access::item_admitted(&None, Some(9), Some(2)));
}
