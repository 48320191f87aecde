use movie_rust::json::{JsonFields, JsonScalar};
use movie_rust::probe::{parse_i32, stream_row_fields, streams_to_store, ProbedStream};

fn stream(index: i32, codec_type: &str) -> ProbedStream {
    ProbedStream { index, codec_type: codec_type.to_string(), bit_rate: None, sample_rate: None, tags: None }
}

#[test]
fn parse_i32_matches_std() {
    for text in [
        "0", "42", "-42", "+7", "", "-", "+", "12a", " 1", "2147483647", "2147483648", "-2147483648",
        "-2147483649", "0009", "99999999999999999999", "--1", "١",
    ] {
        assert_eq!(parse_i32(text), text.parse::<i32>().ok(), "{text}");
    }
}

#[test]
fn stream_fields_read_tags() {
    let tags = JsonFields {
        entries: vec![
            ("bits_per_sample".to_string(), JsonScalar::Str("10".to_string())),
            ("rotation".to_string(), JsonScalar::Str("-90".to_string())),
            ("hdr10_plus_present_flag".to_string(), JsonScalar::Bool(true)),
            ("dv_profile".to_string(), JsonScalar::Int(8)),
            ("codec_tag_string".to_string(), JsonScalar::Str("hvc1".to_string())),
            ("comment".to_string(), JsonScalar::Str("Cover".to_string())),
        ],
    };
    let s = ProbedStream {
        index: 0,
        codec_type: " Video ".to_string(),
        bit_rate: Some("8000000".to_string()),
        sample_rate: Some("n/a".to_string()),
        tags: Some(tags),
    };
    let f = stream_row_fields(&s).unwrap();
    assert_eq!(f.stream_type, "video");
    assert_eq!(f.bit_rate, Some(8_000_000));
    assert_eq!(f.sample_rate, None);
    assert_eq!(f.bit_depth, Some(10));
    assert_eq!(f.rotation, Some(-90));
    assert_eq!(f.hdr10_plus_present_flag, Some(true));
    assert_eq!(f.dv_profile, None);
    assert_eq!(f.codec_tag.as_deref(), Some("hvc1"));
    assert_eq!(f.comment.as_deref(), Some("Cover"));
    assert_eq!(f.time_base, None);
    assert!(stream_row_fields(&stream(1, "weird")).is_none());
}

#[test]
fn first_stream_of_a_key_wins() {
    let streams = vec![
        stream(0, "video"),
        stream(1, "audio"),
        stream(1, "Audio"),
        stream(1, "subtitle"),
        stream(2, "unknown"),
        stream(0, "video"),
        stream(3, "audio"),
    ];
    assert_eq!(streams_to_store(&streams), vec![0, 1, 3, 6]);
    assert_eq!(streams_to_store(&Vec::new()), Vec::<usize>::new());
}

#[test]
fn the_first_chapter_per_index_is_stored() {
    let ch = |i: i32, t: i64| movie_rust::probe::ProbedChapter {
        chapter_index: i,
        start_position_ticks: t,
        name: None,
        marker_type: None,
    };
    let chapters = vec![ch(0, 0), ch(1, 10), ch(0, 20), ch(2, 30), ch(1, 40)];
    assert_eq!(movie_rust::probe::chapters_to_store(&chapters), vec![0, 1, 3]);
    assert!(movie_rust::probe::chapters_to_store(&Vec::new()).is_empty());
}
