use movie_rust::ids::{hyphenated_id, hyphenated_upper_id, simple_id};
use movie_rust::media::{
    display_language, display_title_for_stream, first_container, format_activity_overview, format_audio_channels,
    infer_timestamp, is_folder_item, is_folder_item_public, is_text_based_subtitle, item_etag, item_identity_scope,
    mime_type_for_stream_codec, normalize_stream_type_for_media_streams_db, remote_trailers_from_urls,
    subtitle_mime_type, StreamInfo,
};
use movie_rust::pathnames::parent_folder_name;
use movie_rust::rating::{official_rating_to_value, rating_level_of_upper};
use movie_rust::text::{i64_to_padded_string, i64_to_string, split, trim, u64_to_string, Separators};
use uuid::Uuid;

#[test]
fn id_forms_match_uuid_text() {
    let u = Uuid::from_u128(0x67e5_5044_10b1_426f_9247_bb68_0e5f_e0c8);
    assert_eq!(simple_id(u.as_u128()), u.simple().to_string());
    assert_eq!(hyphenated_id(u.as_u128()), u.to_string());
    assert_eq!(hyphenated_upper_id(u.as_u128()), u.to_string().to_uppercase());
    assert_eq!(simple_id(0), "00000000000000000000000000000000");
}

#[test]
fn numbers_as_text() {
    assert_eq!(u64_to_string(u64::MAX), "18446744073709551615");
    assert_eq!(i64_to_string(i64::MIN), "-9223372036854775808");
    assert_eq!(i64_to_string(0), "0");
    assert_eq!(i64_to_padded_string(7, 2), "07");
    assert_eq!(i64_to_padded_string(-7, 3), "-07");
    assert_eq!(i64_to_padded_string(12345, 2), "12345");
}

#[test]
fn trimming_and_splitting() {
    assert_eq!(trim("\u{3000} a b \t"), "a b");
    let parts = split("a,b|c;;d", Separators::ListMarks);
    assert_eq!(parts, vec!["a", "b", "c", "", "d"]);
    assert_eq!(split("", Separators::Comma), vec![""]);
}

#[test]
fn official_ratings_map_to_levels() {
    assert_eq!(official_rating_to_value(" pg-13 "), Some(7));
    assert_eq!(official_rating_to_value("TV-MA"), Some(9));
    assert_eq!(official_rating_to_value("nc-17"), Some(10));
    assert_eq!(official_rating_to_value("NR"), None);
    assert_eq!(official_rating_to_value(""), None);
    assert_eq!(rating_level_of_upper("G"), Some(1));
    assert_eq!(rating_level_of_upper("g"), None);
}

#[test]
fn subtitle_and_codec_types() {
    assert_eq!(subtitle_mime_type("SRT"), "application/x-subrip");
    assert_eq!(subtitle_mime_type("pgs"), "application/octet-stream");
    assert!(is_text_based_subtitle("WebVTT"));
    assert!(!is_text_based_subtitle("pgssub"));
    assert_eq!(mime_type_for_stream_codec(" H264 "), Some("video/avc".to_string()));
    assert_eq!(mime_type_for_stream_codec("unknown"), None);
    assert_eq!(infer_timestamp("M2TS"), Some("None".to_string()));
    assert_eq!(infer_timestamp("mkv"), None);
    assert_eq!(first_container(" .mkv , mp4"), "mkv");
    assert_eq!(first_container(""), "mp4");
    assert_eq!(first_container(",mkv"), "mkv");
    assert_eq!(first_container(" ; .|avi"), "avi");
    assert_eq!(first_container(", ;|"), "mp4");
}

#[test]
fn stream_types_for_storage() {
    assert_eq!(normalize_stream_type_for_media_streams_db(" Video "), Some("video"));
    assert_eq!(normalize_stream_type_for_media_streams_db("CoverArt"), Some("data"));
    assert_eq!(normalize_stream_type_for_media_streams_db("lyrics"), None);
    assert_eq!(normalize_stream_type_for_media_streams_db("  "), None);
}

#[test]
fn languages_and_channels() {
    assert_eq!(display_language(Some(" ENG ")), Some("English".to_string()));
    assert_eq!(display_language(Some("zh-Hans")), Some("Chinese".to_string()));
    assert_eq!(display_language(Some("xx")), Some("xx".to_string()));
    assert_eq!(display_language(Some(" ")), None);
    assert_eq!(display_language(None), None);
    assert_eq!(format_audio_channels(Some(" 5.1(side) "), Some(6)), Some("5.1(side)".to_string()));
    assert_eq!(format_audio_channels(None, Some(2)), Some("stereo".to_string()));
    assert_eq!(format_audio_channels(Some(""), Some(3)), Some("3".to_string()));
    assert_eq!(format_audio_channels(None, None), None);
}

#[test]
fn stream_titles() {
    let audio = StreamInfo {
        codec: Some("aac".to_string()),
        language: Some("eng".to_string()),
        channel_layout: None,
        channels: Some(2),
        is_default: true,
        is_forced: false,
        width: None,
        height: None,
    };
    assert_eq!(display_title_for_stream(&audio, "Audio", Some("English")), Some("English AAC stereo (默认)".to_string()));
    let sub = StreamInfo { codec: None, language: None, channel_layout: None, channels: None, is_default: false, is_forced: true, width: None, height: None };
    assert_eq!(display_title_for_stream(&sub, "Subtitle", None), Some("Unknown (UNKNOWN) Forced".to_string()));
    let video = StreamInfo { codec: Some("h264".to_string()), language: None, channel_layout: None, channels: None, is_default: false, is_forced: false, width: Some(1920), height: Some(1080) };
    assert_eq!(display_title_for_stream(&video, "Video", None), Some("1920x1080 H264".to_string()));
    assert_eq!(display_title_for_stream(&video, "Data", None), None);
}

#[test]
fn folders_and_scopes() {
    assert!(is_folder_item("BoxSet"));
    assert!(is_folder_item_public("Season"));
    assert!(!is_folder_item("Episode"));
    assert_eq!(item_identity_scope("Episode"), "series");
    assert_eq!(item_identity_scope("Trailer"), "movie");
    assert_eq!(item_identity_scope("MusicAlbum"), "audio");
    assert_eq!(item_identity_scope("Book"), "item");
}

#[test]
fn activity_overviews() {
    assert_eq!(format_activity_overview("u", "i", "Started", None, None, None), "u 开始播放 i");
    assert_eq!(format_activity_overview("u", "i", "Progress", Some(650_000_000), Some(true), None), "u 暂停了 i，位置 1:05");
    assert_eq!(format_activity_overview("u", "i", "Progress", None, None, None), "u 正在观看 i，位置 0:00");
    assert_eq!(format_activity_overview("u", "i", "Stopped", Some(0), None, Some(true)), "u 播放完成 i");
    assert_eq!(format_activity_overview("u", "i", "Stopped", Some(36_000_000_000), None, Some(false)), "u 停止播放 i，位置 60:00");
    assert_eq!(format_activity_overview("u", "i", "Other", None, None, None), "u 发生了播放事件：i");
}

#[test]
fn etags_trailers_and_folder_names() {
    assert_eq!(item_etag(1_700_000_000), "1700000000");
    assert_eq!(remote_trailers_from_urls(&vec!["a".to_string(), " ".to_string(), "b".to_string()]), vec!["a", "b"]);
    assert_eq!(parent_folder_name("/movies/Film (2000)/film.mkv"), Some("Film (2000)".to_string()));
    assert_eq!(parent_folder_name("film.mkv"), None);
}
