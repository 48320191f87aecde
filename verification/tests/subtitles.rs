use movie_rust::subtitles::{sidecar_index_for_path, sidecar_position_for_index, sidecar_streams, SidecarSubtitle};

#[test]
fn sidecar_indices_follow_stored_streams() {
    let paths = vec!["/m/a.en.srt".to_string(), "/m/a.ass".to_string(), "/m/a.en.srt".to_string()];
    assert_eq!(sidecar_index_for_path(4, &paths, "/m/a.en.srt"), Some(5));
    assert_eq!(sidecar_index_for_path(4, &paths, "/m/a.ass"), Some(6));
    assert_eq!(sidecar_index_for_path(4, &paths, "/m/b.srt"), None);
    assert_eq!(sidecar_position_for_index(4, 3, 5), Some(0));
    assert_eq!(sidecar_position_for_index(4, 3, 7), Some(2));
    assert_eq!(sidecar_position_for_index(4, 3, 8), None);
    assert_eq!(sidecar_position_for_index(4, 3, 4), None);
    assert_eq!(sidecar_position_for_index(0, 0, 1), None);
}

#[test]
fn sidecar_streams_are_external_subtitles() {
    let subs = vec![
        SidecarSubtitle { format: "srt".to_string(), language: Some("eng".to_string()), title: "English".to_string() },
        SidecarSubtitle { format: "sup".to_string(), language: None, title: "Forced".to_string() },
    ];
    let streams = sidecar_streams(subs, 2, "abc", "srv");
    assert_eq!(streams.len(), 2);
    assert_eq!(streams[0].index, 3);
    assert_eq!(streams[0].delivery_url, "/Videos/abc/mediasource_abc/Subtitles/3/Stream.srt");
    assert!(streams[0].is_text_subtitle_stream);
    assert_eq!(streams[0].mime_type, "application/x-subrip");
    assert_eq!(streams[0].language.as_deref(), Some("eng"));
    assert_eq!(streams[1].index, 4);
    assert!(!streams[1].is_text_subtitle_stream);
    assert_eq!(streams[1].display_title, "Forced");
    assert_eq!(streams[1].server_id, "srv");
}
