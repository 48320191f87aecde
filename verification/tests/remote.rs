use movie_rust::json::{JsonFields, JsonScalar};
use movie_rust::remote::{
    normalized_server_url, prepare_new_remote_source, prepare_remote_source_update, sanitize_remote_view_ids,
    sanitize_remote_views, view_collection_type, view_library_names, RemoteSourceError, RemoteSourceInput,
};

fn strings(v: &[&str]) -> Vec<String> {
    v.iter().map(|s| s.to_string()).collect()
}

fn view(fields: &[(&str, &str)]) -> JsonFields {
    JsonFields {
        entries: fields.iter().map(|(k, v)| (k.to_string(), JsonScalar::Str(v.to_string()))).collect(),
    }
}

fn input() -> RemoteSourceInput {
    RemoteSourceInput {
        name: " Remote ".to_string(),
        server_url: " https://emby.example.com/// ".to_string(),
        username: " alice ".to_string(),
        password: Some(" secret ".to_string()),
        spoofed_user_agent: " UA ".to_string(),
        display_mode: " MERGE ".to_string(),
        remote_view_ids: strings(&["a1", " A1 ", "", "b2"]),
        remote_views: vec![
            view(&[("Id", "b2"), ("Name", " Films "), ("CollectionType", "movies")]),
            view(&[("id", "zz"), ("name", "Other")]),
        ],
        strm_output_path: Some("  ".to_string()),
        token_refresh_interval_secs: 10,
        proxy_mode: "Redirect_Direct".to_string(),
        auto_sync_interval_minutes: 999_999,
        page_size: 0,
        request_interval_ms: -5,
        spoofed_client: None,
        spoofed_device_name: Some(" Living Room ".to_string()),
        spoofed_device_id: Some("".to_string()),
        spoofed_app_version: None,
    }
}

#[test]
fn server_url_loses_trailing_slashes() {
    assert_eq!(normalized_server_url(" http://h:8096/emby// "), "http://h:8096/emby");
    assert_eq!(normalized_server_url("///"), "");
}

#[test]
fn view_ids_are_deduplicated_ignoring_case() {
    assert_eq!(sanitize_remote_view_ids(&strings(&[" x ", "X", "", "y", "x"])), strings(&["x", "y"]));
}

#[test]
fn views_keep_selected_and_add_bare_ones() {
    let selected = strings(&["a1", "b2"]);
    let views = sanitize_remote_views(
        &vec![
            view(&[("Id", " B2 "), ("Name", "  ")]),
            view(&[("Id", "b2"), ("Name", "dup")]),
            view(&[("Id", "c3")]),
            JsonFields { entries: vec![("Id".to_string(), JsonScalar::Int(5))] },
        ],
        &selected,
    );
    assert_eq!(views.len(), 2);
    assert_eq!(views[0].id, "B2");
    assert_eq!(views[0].name, "B2");
    assert_eq!(views[0].collection_type, None);
    assert_eq!(views[1].id, "a1");
    assert_eq!(views[1].name, "a1");
    let all = sanitize_remote_views(&vec![view(&[("id", "k"), ("collectionType", " tvshows ")])], &Vec::new());
    assert_eq!(all.len(), 1);
    assert_eq!(all[0].collection_type.as_deref(), Some("tvshows"));
}

#[test]
fn new_source_is_cleaned() {
    let s = prepare_new_remote_source(&input(), true, "fresh".to_string()).ok().unwrap();
    assert_eq!(s.name, "Remote");
    assert_eq!(s.server_url, "https://emby.example.com");
    assert_eq!(s.username, "alice");
    assert_eq!(s.password.as_deref(), Some(" secret "));
    assert_eq!(s.spoofed_user_agent, "UA");
    assert_eq!(s.display_mode, "merge");
    assert_eq!(s.remote_view_ids, strings(&["a1", "b2"]));
    assert_eq!(s.remote_views.len(), 2);
    assert_eq!(s.remote_views[0].id, "b2");
    assert_eq!(s.remote_views[0].name, "Films");
    assert_eq!(s.remote_views[1].id, "a1");
    assert_eq!(s.strm_output_path, None);
    assert_eq!(s.token_refresh_interval_secs, 300);
    assert_eq!(s.proxy_mode, "redirect_direct");
    assert_eq!(s.auto_sync_interval_minutes, 10080);
    assert_eq!(s.page_size, 200);
    assert_eq!(s.request_interval_ms, 0);
    assert_eq!(s.spoofed_client.as_deref(), Some("Infuse-Direct"));
    assert_eq!(s.spoofed_device_name.as_deref(), Some("Living Room"));
    assert_eq!(s.spoofed_device_id.as_deref(), Some("fresh"));
    assert_eq!(s.spoofed_app_version.as_deref(), Some("8.2.4"));
}

#[test]
fn update_keeps_what_is_not_sent() {
    let mut i = input();
    i.password = Some("   ".to_string());
    i.display_mode = "other".to_string();
    i.proxy_mode = "REDIRECT".to_string();
    i.page_size = 5000;
    i.auto_sync_interval_minutes = -1;
    let s = prepare_remote_source_update(&i, true, true).ok().unwrap();
    assert_eq!(s.password, None);
    assert_eq!(s.display_mode, "separate");
    assert_eq!(s.proxy_mode, "redirect");
    assert_eq!(s.page_size, 1000);
    assert_eq!(s.auto_sync_interval_minutes, 0);
    assert_eq!(s.spoofed_client, None);
    assert_eq!(s.spoofed_device_id, None);
    assert_eq!(s.spoofed_device_name.as_deref(), Some("Living Room"));
    let mut i = input();
    i.password = Some(" new ".to_string());
    assert_eq!(prepare_remote_source_update(&i, true, true).ok().unwrap().password.as_deref(), Some("new"));
}

#[test]
fn refusals_come_in_order() {
    let mut i = input();
    i.name = "  ".to_string();
    i.server_url = "/".to_string();
    assert_eq!(prepare_new_remote_source(&i, false, String::new()).err(), Some(RemoteSourceError::MissingName));
    let mut i = input();
    i.server_url = " // ".to_string();
    assert_eq!(prepare_new_remote_source(&i, true, String::new()).err(), Some(RemoteSourceError::MissingServerUrl));
    let mut i = input();
    i.username = String::new();
    assert_eq!(prepare_remote_source_update(&i, false, true).err(), Some(RemoteSourceError::MissingUsername));
    let mut i = input();
    i.password = None;
    assert_eq!(prepare_new_remote_source(&i, true, String::new()).err(), Some(RemoteSourceError::MissingPassword));
    assert!(prepare_remote_source_update(&i, true, true).is_ok());
    let mut i = input();
    i.spoofed_user_agent = " ".to_string();
    assert_eq!(prepare_remote_source_update(&i, false, true).err(), Some(RemoteSourceError::SourceNotFound));
    assert_eq!(prepare_remote_source_update(&i, true, false).err(), Some(RemoteSourceError::MissingUserAgent));
    assert_eq!(prepare_new_remote_source(&input(), false, String::new()).err(), Some(RemoteSourceError::LibraryNotFound));
    assert!(RemoteSourceError::SourceNotFound.is_not_found());
    assert!(!RemoteSourceError::LibraryNotFound.is_not_found());
    assert_eq!(RemoteSourceError::MissingName.message(), "远端源名称不能为空");
}

#[test]
fn view_libraries_get_types_and_names() {
    assert_eq!(view_collection_type(Some("TVShows")), "tvshows");
    assert_eq!(view_collection_type(Some("HomeVideos")), "homevideos");
    assert_eq!(view_collection_type(Some("music")), "movies");
    assert_eq!(view_collection_type(None), "movies");
    let (preferred, fallback) = view_library_names(" Home ", " Films ");
    assert_eq!(preferred, "Films");
    assert_eq!(fallback, "Home - Films");
}

#[test]
fn an_update_keeps_the_stored_password_and_spoofed_values_not_sent() {
    let stored_row = || {
        let mut s = prepare_remote_source_update(&input(), true, true).ok().unwrap();
        s.password = Some("old-secret".to_string());
        s.spoofed_device_id = Some("dev-old".to_string());
        s.spoofed_client = Some("OldClient".to_string());
        s
    };
    let mut i = input();
    i.password = Some("   ".to_string());
    i.spoofed_device_id = None;
    i.spoofed_client = Some("NewClient".to_string());
    i.name = "  Renamed ".to_string();
    let s = movie_rust::remote::update_remote_source(stored_row(), &i, true, true).ok().unwrap();
    assert_eq!(s.password.as_deref(), Some("old-secret"));
    assert_eq!(s.spoofed_device_id.as_deref(), Some("dev-old"));
    assert_eq!(s.spoofed_client.as_deref(), Some("NewClient"));
    assert_eq!(s.name, "Renamed");
    assert_eq!(
        movie_rust::remote::update_remote_source(stored_row(), &i, false, true).err(),
        Some(RemoteSourceError::SourceNotFound)
    );
}
