use movie_rust::detail::{detail_dimensions, inherited_fields, RelatedItem};
use movie_rust::extras::{db_person_to_dto, PersonRecord};
use movie_rust::json::{JsonDoc, JsonFields, JsonScalar};
use movie_rust::media::StreamInfo;
use movie_rust::source::{media_source_for_item_with_db_streams, SourceItem};
use movie_rust::streams::StreamRow;
use movie_rust::web::notification_types;

fn related(id: u128, item_type: &str, logo: bool, backdrop: bool, thumb: bool) -> RelatedItem {
    RelatedItem {
        id,
        name: format!("N{id}"),
        item_type: item_type.to_string(),
        has_primary_image: true,
        has_logo: logo,
        has_backdrop: backdrop,
        extra_backdrops: 1,
        has_thumb: thumb,
        date_modified: id as i64 * 10,
    }
}

#[test]
fn detail_inherits_from_parent_then_series() {
    let parent = related(1, "Season", false, true, false);
    let series = related(2, "Series", true, true, false);
    let r = inherited_fields(&None, &None, Some(&parent), Some(&series));
    assert_eq!(r.parent_logo_item_id.as_deref(), Some("00000000000000000000000000000002"));
    assert_eq!(r.parent_logo_image_tag.as_deref(), Some("20"));
    assert_eq!(r.parent_backdrop_item_id.as_deref(), Some("00000000000000000000000000000001"));
    assert_eq!(r.parent_backdrop_image_tags, vec!["10".to_string(), "10".to_string()]);
    assert_eq!(r.parent_thumb_item_id, None);
    assert_eq!(r.series_primary_image_tag.as_deref(), Some("20"));
    assert_eq!(r.series_name.as_deref(), Some("N2"));
    assert_eq!(r.season_name.as_deref(), Some("N1"));
    let own = inherited_fields(&Some("S".to_string()), &Some("T".to_string()), None, None);
    assert_eq!(own.series_name.as_deref(), Some("S"));
    assert_eq!(own.season_name.as_deref(), Some("T"));
    assert!(own.parent_backdrop_image_tags.is_empty());
    assert_eq!(own.series_primary_image_tag, None);
}

fn video_stream(width: i32) -> StreamRow {
    StreamRow {
        index: 0,
        stream_type: "video".to_string(),
        info: StreamInfo { codec: Some("h264".to_string()), language: None, channel_layout: None, channels: None, is_default: true, is_forced: false, width: Some(width), height: Some(720) },
        is_external: false,
        is_text_subtitle_stream: None,
    }
}

#[test]
fn detail_dimensions_fall_back_to_video_stream() {
    let item = SourceItem {
        id: 1,
        name: "x".to_string(),
        path: "/x.mkv".to_string(),
        container: None,
        size: None,
        bit_rate: None,
        runtime_ticks: None,
        provider_ids: JsonFields { entries: Vec::new() },
        date_modified: 0,
    };
    let source = media_source_for_item_with_db_streams(&item, 1, &vec![video_stream(1280)], None, None, None, None);
    let sources = vec![source];
    assert_eq!(detail_dimensions(None, None, &sources), (Some(1280), Some(720)));
    assert_eq!(detail_dimensions(Some(1920), None, &sources), (Some(1920), Some(720)));
    assert_eq!(detail_dimensions(None, None, &Vec::new()), (None, None));
}

#[test]
fn notification_types_follow_last_option() {
    let opt = |t: &str, e: Option<bool>| {
        let mut entries = vec![("Type".to_string(), JsonScalar::Str(t.to_string()))];
        if let Some(b) = e {
            entries.push(("Enabled".to_string(), JsonScalar::Bool(b)));
        }
        JsonDoc::Object(JsonFields { entries })
    };
    let options = vec![opt("PlaybackStart", Some(true)), opt("SystemUpdate", Some(true)), opt("SystemUpdate", None), JsonDoc::Other];
    let types = notification_types(&options);
    assert_eq!(types.len(), 3);
    assert_eq!(types[0].kind, "PlaybackStart");
    assert!(types[0].enabled);
    assert!(!types[1].enabled);
    assert!(!types[2].enabled);
    assert_eq!(types[2].category, "System");
}

#[test]
fn person_views() {
    let p = PersonRecord {
        id: 3,
        name: "Ann".to_string(),
        sort_name: None,
        overview: Some("bio".to_string()),
        external_url: None,
        has_primary_image: true,
        has_backdrop_image: false,
        updated_at: 77,
        premiere_date: Some(1),
        death_date: Some(2),
        production_year: Some(1950),
        place_of_birth: Some("Rome".to_string()),
        homepage_url: None,
    };
    let v = db_person_to_dto(p);
    assert_eq!(v.id, "00000000000000000000000000000003");
    assert_eq!(v.end_date, Some(2));
    assert_eq!(v.images.primary_image_tag.as_deref(), Some("77"));
    assert_eq!(v.images.image_tags, Some(vec![("Primary".to_string(), "77".to_string())]));
    assert_eq!(v.images.production_locations, Some(vec!["Rome".to_string()]));
}
