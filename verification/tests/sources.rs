use movie_rust::playable::{media_source_with_streams, ChapterRow};
use movie_rust::subtitles::SidecarSubtitle;
use movie_rust::json::{JsonFields, JsonScalar};
use movie_rust::media::StreamInfo;
use movie_rust::source::{
    decode_percent_encoded_component, effective_container, effective_container_from_target, is_legacy_remote_path,
    is_provider_remote, is_remote_media_item, item_file_name, item_size, media_source_for_item,
    media_source_for_item_with_db_streams, media_source_name, media_source_size, sanitize_item_path,
    sanitize_media_sources_for_item_detail, source_name_from_url, SourceItem,
};
use movie_rust::streams::{convert_db_streams_to_dto, stream_to_view, StreamRow};

fn no_fields() -> JsonFields {
    JsonFields { entries: Vec::new() }
}

fn remote_fields() -> JsonFields {
    JsonFields { entries: vec![("RemoteEmbySourceId".to_string(), JsonScalar::Str("abc".to_string()))] }
}

fn source_item(path: &str) -> SourceItem {
    SourceItem {
        id: 1,
        name: "Movie Name".to_string(),
        path: path.to_string(),
        container: Some("mkv".to_string()),
        size: None,
        bit_rate: Some(1000),
        runtime_ticks: Some(50),
        provider_ids: no_fields(),
        date_modified: 1700000000,
    }
}

fn stream(index: i32, kind: &str, codec: Option<&str>, is_default: bool, is_external: bool) -> StreamRow {
    StreamRow {
        index,
        stream_type: kind.to_string(),
        info: StreamInfo {
            codec: codec.map(str::to_string),
            language: Some("eng".to_string()),
            channel_layout: None,
            channels: None,
            is_default,
            is_forced: false,
            width: None,
            height: None,
        },
        is_external,
        is_text_subtitle_stream: None,
    }
}

#[test]
fn percent_decoding_of_names() {
    assert_eq!(decode_percent_encoded_component("  My%20Movie  "), "My Movie");
    assert_eq!(decode_percent_encoded_component("plain name "), "plain name");
    assert_eq!(decode_percent_encoded_component("100%"), "100%");
    assert_eq!(decode_percent_encoded_component("%E4%B8%AD%e6%96%87"), "中文");
    assert_eq!(decode_percent_encoded_component("%zz%41"), "%zzA");
    assert_eq!(decode_percent_encoded_component("%FF"), "\u{FFFD}");
}

#[test]
fn source_names_from_urls() {
    assert_eq!(source_name_from_url("http://host/media/The%20Film.mkv?x=1"), Some("The Film".to_string()));
    assert_eq!(source_name_from_url("not a url"), None);
    assert_eq!(source_name_from_url("http://host/"), None);
}

#[test]
fn item_file_name_is_last_component() {
    assert_eq!(item_file_name("/movies/A/a.mkv"), Some("a.mkv".to_string()));
    assert_eq!(item_file_name("/"), None);
}

#[test]
fn media_source_names_prefer_quality_label() {
    assert_eq!(media_source_name("/m/Film - 1080p.mkv", "Film", None), "1080p");
    assert_eq!(media_source_name("/m/Film - a - 4K.mkv", "Film", None), "4K");
    assert_eq!(media_source_name("/m/Film.mkv", "Film", None), "Film");
    assert_eq!(media_source_name("/", " Name%21 ", Some("http://h/x/Remote%20Cut.mp4")), "Remote Cut");
    assert_eq!(media_source_name("/", " Name%21 ", None), "Name!");
}

#[test]
fn effective_containers() {
    assert_eq!(effective_container_from_target(Some("mkv"), "/a/b.avi", Some("mp4")), "mp4");
    assert_eq!(effective_container_from_target(Some("MKV,mp4"), "/a/b.avi", None), "MKV");
    assert_eq!(effective_container_from_target(Some("STRM"), "/a/b.avi", None), "avi");
    assert_eq!(effective_container_from_target(None, "/a/b", None), "mp4");
    assert_eq!(effective_container(Some("strm"), "/a/b.strm", Some("m3u8")), Some("m3u8".to_string()));
    assert_eq!(effective_container(None, "/a/b.mkv", None), Some("mkv".to_string()));
    assert_eq!(effective_container_from_target(Some(".ts"), "/a/b", None), "ts");
}

#[test]
fn remote_detection() {
    assert!(is_legacy_remote_path("remote_emby\\source\\file.mkv"));
    assert!(!is_legacy_remote_path("/media/file.mkv"));
    assert!(is_provider_remote(&remote_fields()));
    assert!(!is_provider_remote(&JsonFields {
        entries: vec![("RemoteEmbySourceId".to_string(), JsonScalar::Str("  ".to_string()))]
    }));
    assert!(!is_provider_remote(&JsonFields {
        entries: vec![("RemoteEmbySourceId".to_string(), JsonScalar::Int(4))]
    }));
    assert!(is_remote_media_item("/a.mkv", &no_fields(), true));
    assert!(!is_remote_media_item("/a.mkv", &no_fields(), false));
}

#[test]
fn sanitized_paths_hide_remote_files() {
    assert_eq!(
        sanitize_item_path("Film", Some(1999), "/srv/x.strm", &no_fields(), true, "mkv"),
        Some("/Film (1999)/Film (1999).mkv".to_string())
    );
    assert_eq!(
        sanitize_item_path("Film", None, "/srv/x.mkv", &remote_fields(), false, "mp4"),
        Some("/Film/Film.mp4".to_string())
    );
    assert_eq!(
        sanitize_item_path("Film", None, "/srv/x.mkv", &no_fields(), false, "mkv"),
        Some("/srv/x.mkv".to_string())
    );
}

#[test]
fn source_sizes() {
    assert_eq!(media_source_size(Some(10), true, Some(5), Some(7)), Some(10));
    assert_eq!(media_source_size(Some(0), true, Some(5), Some(7)), Some(5));
    assert_eq!(media_source_size(None, false, Some(5), Some(7)), Some(7));
    assert_eq!(item_size(Some(10), true, false, None, None), 0);
    assert_eq!(item_size(None, false, true, None, Some(3)), 0);
    assert_eq!(item_size(None, false, false, None, Some(3)), 3);
}

#[test]
fn local_media_source() {
    let item = source_item("/movies/Film - Director's Cut.mkv");
    let m = media_source_for_item(&item, None, None, None, Some(1234));
    assert_eq!(m.id, "mediasource_00000000000000000000000000000001");
    assert_eq!(m.path, "/movies/Film - Director's Cut.mkv");
    assert_eq!(m.protocol, "File");
    assert_eq!(m.container, "mkv");
    assert_eq!(m.name, "Director's Cut");
    assert!(!m.is_remote);
    assert_eq!(m.size, Some(1234));
    assert_eq!(m.e_tag.as_deref(), Some("1700000000"));
    assert_eq!(
        m.direct_stream_url.as_deref(),
        Some("/Videos/00000000000000000000000000000001/stream.mkv?Static=true&MediaSourceId=mediasource_00000000000000000000000000000001&mediaSourceId=mediasource_00000000000000000000000000000001")
    );
    assert_eq!(m.formats, vec!["mkv".to_string()]);
    assert_eq!(m.timestamp, None);
}

#[test]
fn remote_media_source_streams_through_server() {
    let item = source_item("/strm/film.strm");
    let m = media_source_for_item(&item, Some("http://h/film.ts"), Some("ts"), Some(99), None);
    assert!(m.is_remote);
    assert_eq!(m.protocol, "Http");
    assert_eq!(
        m.path,
        "/Videos/00000000000000000000000000000001/stream.ts?Static=true&MediaSourceId=mediasource_00000000000000000000000000000001"
    );
    assert_eq!(m.size, Some(99));
    assert_eq!(m.timestamp.as_deref(), Some("None"));
    let cleaned = sanitize_media_sources_for_item_detail(vec![m]);
    assert_eq!(cleaned[0].direct_stream_url, None);
    assert_eq!(cleaned[0].add_api_key_to_direct_stream_url, Some(false));
    assert_eq!(cleaned[0].container, "ts");
}

#[test]
fn media_source_with_streams_picks_defaults() {
    let item = source_item("/movies/film.mkv");
    let streams = vec![
        stream(0, "video", Some("h264"), false, false),
        stream(1, "audio", Some("aac"), false, false),
        stream(2, "audio", Some("ac3"), true, false),
        stream(3, "subtitle", Some("srt"), false, true),
    ];
    let m = media_source_for_item_with_db_streams(&item, 2, &streams, None, None, None, Some(5));
    assert_eq!(m.default_audio_stream_index, Some(2));
    assert_eq!(m.default_subtitle_stream_index, None);
    assert_eq!(m.required_http_headers, vec![("Accept-Ranges".to_string(), "bytes".to_string())]);
    assert_eq!(m.server_id.as_deref(), Some("00000000000000000000000000000002"));
    assert_eq!(m.media_streams.len(), 4);
    let empty = media_source_for_item_with_db_streams(&item, 2, &Vec::new(), None, None, None, Some(5));
    assert!(empty.media_streams.is_empty());
    assert!(empty.required_http_headers.is_empty());
    assert_eq!(empty.server_id.as_deref(), Some("00000000000000000000000000000002"));
}

#[test]
fn stream_views_decide_delivery() {
    let ext = stream_to_view(&stream(3, "subtitle", Some("srt"), true, true), 1, 2, false);
    assert_eq!(ext.stream_type, "Subtitle");
    assert_eq!(ext.delivery_method.as_deref(), Some("External"));
    assert_eq!(
        ext.delivery_url.as_deref(),
        Some("/Videos/00000000000000000000000000000001/mediasource_00000000000000000000000000000001/Subtitles/3/Stream.srt")
    );
    assert_eq!(ext.subtitle_location_type.as_deref(), Some("External"));
    assert_eq!(ext.is_text_subtitle_stream, Some(true));
    assert_eq!(ext.mime_type.as_deref(), Some("application/x-subrip"));
    assert_eq!(ext.protocol.as_deref(), Some("File"));
    let emb = stream_to_view(&stream(4, "subtitle", None, false, false), 1, 2, true);
    assert_eq!(emb.delivery_method.as_deref(), Some("Embed"));
    assert_eq!(emb.delivery_url, None);
    assert_eq!(emb.subtitle_location_type.as_deref(), Some("InternalStream"));
    assert!(!emb.supports_external_stream);
    assert_eq!(emb.is_text_subtitle_stream, Some(false));
    assert_eq!(emb.protocol.as_deref(), Some("Http"));
    let video = stream_to_view(&stream(0, "video", Some("hevc"), false, false), 1, 2, false);
    assert_eq!(video.stream_type, "Video");
    assert_eq!(video.delivery_method, None);
    assert_eq!(video.is_text_subtitle_stream, None);
    assert_eq!(video.display_title.as_deref(), Some("HEVC"));
    let all = convert_db_streams_to_dto(1, &vec![stream(0, "data", None, false, false)], 2, false);
    assert_eq!(all[0].stream_type, "data");
    assert_eq!(all[0].display_title, None);
}

#[test]
fn playable_source_lists_sidecars_after_stored_streams_and_chapters() {
    let item = source_item("/media/film.mkv");
    let rows = vec![stream(0, "video", Some("h264"), false, false), stream(3, "audio", Some("aac"), true, false)];
    let subs = || {
        vec![
            SidecarSubtitle { format: "srt".to_string(), language: Some("eng".to_string()), title: "English".to_string() },
            SidecarSubtitle { format: "ass".to_string(), language: None, title: "Signs".to_string() },
        ]
    };
    let chapters = vec![
        ChapterRow { start_position_ticks: 0, name: None, chapter_index: 0, has_image: false, updated_seconds: 5, marker_type: None },
        ChapterRow {
            start_position_ticks: 600,
            name: Some("Finale".to_string()),
            chapter_index: 1,
            has_image: true,
            updated_seconds: 77,
            marker_type: Some("Credits".to_string()),
        },
    ];
    let p = media_source_with_streams(&item, 2, &rows, None, None, None, None, subs(), &chapters);
    assert_eq!(p.source.media_streams.len(), 4);
    let indices: Vec<i32> = p.source.media_streams.iter().map(|s| s.index).collect();
    assert_eq!(indices, vec![0, 3, 4, 5]);
    let side = &p.source.media_streams[2];
    assert_eq!(side.stream_type, "Subtitle");
    assert!(side.is_external);
    assert_eq!(
        side.delivery_url.as_deref(),
        Some("/Videos/00000000000000000000000000000001/mediasource_00000000000000000000000000000001/Subtitles/4/Stream.srt")
    );
    assert_eq!(p.source.media_streams[3].codec.as_deref(), Some("ass"));
    assert_eq!(p.source.default_audio_stream_index, Some(3));
    assert_eq!(p.source.default_subtitle_stream_index, None);
    assert_eq!(p.chapters.len(), 2);
    assert_eq!(p.chapters[0].name, "第 01 章");
    assert_eq!(p.chapters[1].name, "Finale");
    assert_eq!(p.chapters[1].image_tag.as_deref(), Some("77"));
    assert_eq!(p.chapters[1].marker_type, "Credits");
    let none = media_source_with_streams(&item, 2, &Vec::new(), None, None, None, None, subs(), &Vec::new());
    assert!(none.source.media_streams.is_empty());
    assert!(none.chapters.is_empty());
}
