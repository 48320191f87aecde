use movie_rust::connect::{
    connect_exchange_access_key_allowed, connect_link_payload_matches_target, find_connect_link,
    normalize_connect_guid_str,
};
use movie_rust::filters::{
    add_collection_ids, collection_key, lowercase_list, parse_option_filters, remove_collection_ids, split_query_paths,
};
use movie_rust::json::{JsonDoc, JsonFields, JsonScalar};
use movie_rust::paths::{
    find_path_conflict, is_parent_path, library_options, library_paths, library_paths_from_options_or_path,
    library_to_virtual_folder_dto, merge_scan_paths, normalize_collection_type, normalize_library_options,
    normalize_library_paths, normalize_match_path, normalize_path_for_compare, path_matches_library, paths_conflict,
    Library, LibraryOptions,
};

fn strings(v: &[&str]) -> Vec<String> {
    v.iter().map(|s| s.to_string()).collect()
}

fn library(id: u128, path: &str, option_paths: Option<&[&str]>) -> Library {
    Library {
        id,
        name: format!("Lib{id}"),
        collection_type: "movies".to_string(),
        path: path.to_string(),
        options: option_paths.map(|p| LibraryOptions {
            path_infos: strings(p),
            season_zero_display_name: String::new(),
            preferred_image_language: None,
            preferred_metadata_language: Some("en".to_string()),
            min_collection_items: 0,
        }),
    }
}

#[test]
fn compare_forms_and_conflicts() {
    assert_eq!(normalize_path_for_compare(" D:\\Media\\Movies\\ "), "d:/media/movies");
    assert!(is_parent_path("/media", "/media/movies"));
    assert!(!is_parent_path("/media", "/mediax"));
    assert!(!is_parent_path("/media", "/media"));
    assert!(paths_conflict("/media/movies", "/media"));
    assert!(paths_conflict("/a", "/a"));
    assert!(!paths_conflict("/a", "/b"));
}

#[test]
fn library_paths_are_normalised() {
    assert_eq!(normalize_library_paths(&strings(&[" /a ", "/A", "", "/b"])), strings(&["/a", "/b"]));
    assert_eq!(library_paths_from_options_or_path(None, "/fallback"), strings(&["/fallback"]));
    assert_eq!(library_paths_from_options_or_path(Some(&Vec::new()), " /fb "), strings(&["/fb"]));
    assert_eq!(library_paths(&library(1, "/x", Some(&["/y", "/z"]))), strings(&["/y", "/z"]));
}

#[test]
fn collection_types_are_canonical() {
    assert_eq!(normalize_collection_type(" Series "), "tvshows");
    assert_eq!(normalize_collection_type("AUDIO"), "music");
    assert_eq!(normalize_collection_type("homevideo"), "homevideos");
    assert_eq!(normalize_collection_type("books"), "movies");
}

#[test]
fn library_options_get_defaults() {
    let o = LibraryOptions {
        path_infos: Vec::new(),
        season_zero_display_name: "  ".to_string(),
        preferred_image_language: None,
        preferred_metadata_language: Some("de".to_string()),
        min_collection_items: 1,
    };
    let n = normalize_library_options(o, &strings(&["/m"]));
    assert_eq!(n.path_infos, strings(&["/m"]));
    assert_eq!(n.season_zero_display_name, "Specials");
    assert_eq!(n.preferred_image_language.as_deref(), Some("de"));
    assert_eq!(n.min_collection_items, 2);
    let opts = library_options(&library(1, "/own", None));
    assert_eq!(opts.path_infos, strings(&["/own"]));
    assert_eq!(opts.preferred_image_language, None);
}

#[test]
fn virtual_folders_show_library_paths() {
    let v = library_to_virtual_folder_dto(&library(0xab, "/own", Some(&["/p1", "/p1 "])));
    assert_eq!(v.item_id, "000000000000000000000000000000ab");
    assert_eq!(v.guid, v.item_id);
    assert_eq!(v.locations, strings(&["/p1"]));
    assert_eq!(v.library_options.preferred_image_language.as_deref(), Some("en"));
}

#[test]
fn path_conflicts_between_libraries() {
    let libs = vec![library(1, "/media/a", None), library(2, "/media/b", Some(&["/media/b", "/media/c"]))];
    let c = find_path_conflict(None, &libs, &strings(&["/MEDIA/C/sub"])).expect("conflict");
    assert_eq!((c.library_index, c.path_index), (1, 1));
    assert_eq!(c.existing_path, "/media/c");
    assert!(find_path_conflict(Some(2), &libs, &strings(&["/media/c"])).is_none());
    assert!(find_path_conflict(None, &libs, &strings(&["/other"])).is_none());
}

#[test]
fn scan_paths_merge_extra_folders() {
    let merged = merge_scan_paths(&library(1, "/a", None), &strings(&[" /A ", "/b", " ", "/b"]));
    assert_eq!(merged, strings(&["/a", "/b"]));
}

#[test]
fn update_paths_match_libraries() {
    assert_eq!(normalize_match_path(" C:\\x\\y\\\\ "), "C:/x/y");
    assert!(path_matches_library("/media/movies/film.mkv", "/media/movies/"));
    assert!(path_matches_library("/media", "/media/movies"));
    assert!(!path_matches_library("/media/moviesx", "/media/movies"));
    assert!(!path_matches_library("  ", "/media"));
}

#[test]
fn query_lists() {
    assert_eq!(lowercase_list(&strings(&[" Movie ", "", "SERIES"])), strings(&["movie", "series"]));
    assert_eq!(parse_option_filters(Some("IsFavorite| isPlayed ;;,")), strings(&["isfavorite", "isplayed"]));
    assert!(parse_option_filters(None).is_empty());
    assert_eq!(split_query_paths(Some(" /a , ,/B ")), strings(&["/a", "/B"]));
}

#[test]
fn collection_membership() {
    assert_eq!(collection_key(1), "collection:00000000-0000-0000-0000-000000000001");
    let one = "00000000-0000-0000-0000-000000000001".to_string();
    let two = "00000000-0000-0000-0000-000000000002".to_string();
    let added = add_collection_ids(vec![Some(one.clone()), None], &vec![1, 2, 2]);
    assert_eq!(added, vec![Some(one.clone()), None, Some(two.clone())]);
    let removed = remove_collection_ids(added, &vec![1]);
    assert_eq!(removed, vec![None, Some(two)]);
}

#[test]
fn connect_links() {
    assert_eq!(normalize_connect_guid_str(" {ab-cd} "), "ABCD");
    let link = JsonDoc::Object(JsonFields {
        entries: vec![
            ("ConnectUserId".to_string(), JsonScalar::Int(5)),
            ("UserId".to_string(), JsonScalar::Str("{ab-cd}".to_string())),
        ],
    });
    assert!(connect_link_payload_matches_target(&link, "ABCD"));
    assert!(!connect_link_payload_matches_target(&link, ""));
    assert!(connect_link_payload_matches_target(&JsonDoc::Str("ab-cd".to_string()), "ABCD"));
    assert!(!connect_link_payload_matches_target(&JsonDoc::Other, "ABCD"));
    let rows = vec![
        ("user_connect_link:not-a-uuid".to_string(), JsonDoc::Str("abcd".to_string())),
        (
            "user_connect_link:00000000-0000-0000-0000-000000000007".to_string(),
            JsonDoc::Str("abcd".to_string()),
        ),
    ];
    assert_eq!(find_connect_link(" {AB-CD} ", &rows), Some((7, 1)));
    assert_eq!(find_connect_link("  ", &rows), None);
}

#[test]
fn connect_access_keys() {
    let with_key = JsonDoc::Object(JsonFields {
        entries: vec![("AccessKey".to_string(), JsonScalar::Str("k1".to_string()))],
    });
    assert!(connect_exchange_access_key_allowed(&with_key, "k1"));
    assert!(!connect_exchange_access_key_allowed(&with_key, "k2"));
    assert!(connect_exchange_access_key_allowed(&JsonDoc::Other, "anything"));
    let blank_token = JsonDoc::Object(JsonFields {
        entries: vec![
            ("ExchangeToken".to_string(), JsonScalar::Str("".to_string())),
            ("ConnectAccessKey".to_string(), JsonScalar::Str("abc".to_string())),
        ],
    });
    assert!(!connect_exchange_access_key_allowed(&blank_token, "xyz"));
    assert!(connect_exchange_access_key_allowed(&blank_token, " abc "));
    let nothing_stored = JsonDoc::Object(JsonFields {
        entries: vec![("ExchangeToken".to_string(), JsonScalar::Str("  ".to_string()))],
    });
    assert!(connect_exchange_access_key_allowed(&nothing_stored, "any"));
    assert!(!connect_exchange_access_key_allowed(&nothing_stored, "  "));
}

#[test]
fn connect_exchange_query_and_user() {
    use_exchange();
}

fn use_exchange() {
    let q = movie_rust::connect::ConnectExchangeQuery { connect_user_id: Some("  abc ".to_string()) };
    assert_eq!(q.given_user_id().as_deref(), Some("abc"));
    let blank = movie_rust::connect::ConnectExchangeQuery { connect_user_id: Some("   ".to_string()) };
    assert_eq!(blank.given_user_id(), None);
    assert_eq!(movie_rust::connect::ConnectExchangeQuery { connect_user_id: None }.given_user_id(), None);
    let payload = JsonDoc::Object(JsonFields {
        entries: vec![("ConnectAccessKey".to_string(), JsonScalar::Str("k".to_string()))],
    });
    assert_eq!(movie_rust::connect::exchange_user(Some((7, &payload)), "k"), Some(7));
    assert_eq!(movie_rust::connect::exchange_user(Some((7, &payload)), "x"), None);
    assert_eq!(movie_rust::connect::exchange_user(None, "k"), None);
}
