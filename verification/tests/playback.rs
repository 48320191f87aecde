use movie_rust::identity::ProviderIds;
use movie_rust::missing::{missing_episode_view, MissingEpisodeSource};
use movie_rust::playback::{
    auto_completed, is_completed, playlist_item_id, queue_change, record_play, records_play_state,
    runtime_play_state, upsert_queue_entry, PlayedRow, QueueChange, QueueEntry, QueueReport, SourceSummary,
};

fn empty_entry() -> QueueEntry {
    QueueEntry {
        position_ticks: None,
        is_paused: None,
        play_state: None,
        audio_stream_index: None,
        subtitle_stream_index: None,
        play_method: None,
        media_source_id: None,
        volume_level: None,
        repeat_mode: None,
    }
}

#[test]
fn queue_follows_the_event() {
    assert_eq!(queue_change("Started", true, Some("tok")), QueueChange::Upsert);
    assert_eq!(queue_change("Ping", true, Some("tok")), QueueChange::Upsert);
    assert_eq!(queue_change("Stopped", true, Some("tok")), QueueChange::Remove);
    assert_eq!(queue_change("Paused", true, Some("tok")), QueueChange::Keep);
    assert_eq!(queue_change("Started", true, Some("  ")), QueueChange::Keep);
    assert_eq!(queue_change("Started", false, Some("tok")), QueueChange::Keep);
    assert_eq!(queue_change("Started", true, None), QueueChange::Keep);
    assert!(records_play_state("Stopped", true));
    assert!(!records_play_state("Ping", true));
    assert!(!records_play_state("Started", false));
}

#[test]
fn ninety_percent_completes() {
    assert!(auto_completed(Some(90), Some(100)));
    assert!(!auto_completed(Some(89), Some(100)));
    assert!(!auto_completed(Some(0), Some(100)));
    assert!(!auto_completed(Some(50), None));
    assert!(!auto_completed(Some(50), Some(0)));
    assert!(auto_completed(Some(i64::MAX), Some(i64::MAX)));
    assert!(is_completed(Some(true), None, None));
    assert!(!is_completed(Some(false), Some(10), Some(100)));
    assert!(is_completed(None, Some(95), Some(100)));
}

#[test]
fn play_count_rises_once() {
    let first = record_play(None, Some(100), false, 1);
    assert_eq!(
        first,
        PlayedRow { playback_position_ticks: Some(100), is_played: false, play_count: 0, last_played_date: Some(1) }
    );
    let done = record_play(Some(first), None, true, 2);
    assert_eq!(
        done,
        PlayedRow { playback_position_ticks: Some(100), is_played: true, play_count: 1, last_played_date: Some(2) }
    );
    let again = record_play(Some(done), Some(5), true, 3);
    assert_eq!(again.play_count, 1);
    assert!(again.is_played);
    assert_eq!(again.playback_position_ticks, Some(5));
    let later = record_play(Some(again), Some(7), false, 4);
    assert!(later.is_played);
    assert_eq!(later.play_count, 1);
    assert_eq!(record_play(None, None, true, 9).play_count, 1);
}

#[test]
fn queue_entry_merges_reports() {
    let report = QueueReport {
        position_ticks: Some(40),
        is_paused: Some(true),
        audio_stream_index: Some(1),
        subtitle_stream_index: None,
        play_method: Some("DirectPlay".to_string()),
        media_source_id: None,
        volume_level: None,
        repeat_mode: None,
    };
    let mut stored = empty_entry();
    stored.subtitle_stream_index = Some(3);
    stored.media_source_id = Some("src".to_string());
    stored.position_ticks = Some(10);
    let merged = upsert_queue_entry(Some(stored), report);
    assert_eq!(merged.position_ticks, Some(40));
    assert_eq!(merged.is_paused, Some(true));
    assert_eq!(merged.play_state.as_deref(), Some("Paused"));
    assert_eq!(merged.audio_stream_index, Some(1));
    assert_eq!(merged.subtitle_stream_index, Some(3));
    assert_eq!(merged.media_source_id.as_deref(), Some("src"));
    assert_eq!(merged.play_method.as_deref(), Some("DirectPlay"));
    let fresh = upsert_queue_entry(
        None,
        QueueReport {
            position_ticks: None,
            is_paused: None,
            audio_stream_index: None,
            subtitle_stream_index: None,
            play_method: None,
            media_source_id: None,
            volume_level: Some(50),
            repeat_mode: None,
        },
    );
    assert_eq!(fresh.play_state.as_deref(), Some("Playing"));
    assert_eq!(fresh.volume_level, Some(50));
    assert_eq!(fresh.position_ticks, None);
}

#[test]
fn runtime_state_fills_defaults() {
    let state = runtime_play_state(empty_entry(), None, "abc");
    assert_eq!(state.position_ticks, 0);
    assert!(state.can_seek);
    assert!(!state.is_paused);
    assert!(!state.is_muted);
    assert_eq!(state.volume_level, 100);
    assert_eq!(state.play_method, "DirectPlay");
    assert_eq!(state.repeat_mode, "RepeatNone");
    assert_eq!(state.media_source_id, "mediasource_abc");
    let remote = SourceSummary { id: "first".to_string(), has_transcoding_url: false, is_remote: true };
    let mut entry = empty_entry();
    entry.media_source_id = Some(" ".to_string());
    entry.repeat_mode = Some("RepeatAll".to_string());
    entry.is_paused = Some(true);
    let state = runtime_play_state(entry, Some(remote), "abc");
    assert_eq!(state.media_source_id, "first");
    assert_eq!(state.play_method, "DirectStream");
    assert_eq!(state.repeat_mode, "RepeatAll");
    assert!(state.is_paused);
    let transcode = SourceSummary { id: "t".to_string(), has_transcoding_url: true, is_remote: true };
    let mut entry = empty_entry();
    entry.play_method = Some("DirectPlay".to_string());
    assert_eq!(runtime_play_state(entry, Some(transcode), "x").play_method, "DirectPlay");
    let transcode = SourceSummary { id: "t".to_string(), has_transcoding_url: true, is_remote: true };
    assert_eq!(runtime_play_state(empty_entry(), Some(transcode), "x").play_method, "Transcode");
    assert_eq!(playlist_item_id(None, "abc"), "abc");
    assert_eq!(playlist_item_id(Some("p1".to_string()), "abc"), "p1");
}

#[test]
fn missing_episode_is_shown_from_its_series() {
    let series_ids = ProviderIds {
        entries: vec![("Tmdb".to_string(), "old".to_string()), ("Imdb".to_string(), "tt1".to_string())],
    };
    let src = MissingEpisodeSource {
        virtual_id: 0xabc,
        series_uuid: 0x5e,
        external_series_id: "1399".to_string(),
        external_season_id: Some("s1".to_string()),
        external_episode_id: None,
        season_number: 1,
        episode_number: 12,
        episode_number_end: None,
        name: "Winter".to_string(),
        overview: None,
        premiere_year: None,
        has_image: true,
        series_name: "Thrones".to_string(),
        series_sort_name: "thrones".to_string(),
        series_overview: Some("Series text".to_string()),
        series_production_year: Some(2011),
        series_provider_ids: series_ids,
        series_has_primary_image: true,
        series_has_backdrop: true,
        series_has_logo: false,
        series_has_thumb: false,
        series_modified_seconds: 1700000000,
    };
    let v = missing_episode_view(src);
    assert_eq!(v.sort_name, "0001-0012-thrones");
    assert_eq!(v.season_name, "Season 1");
    assert_eq!(v.presentation_unique_key, "00000000000000000000000000000abc_missing");
    assert_eq!(v.id, "00000000000000000000000000000abc");
    assert_eq!(v.series_id, "0000000000000000000000000000005e");
    assert_eq!(v.item_type, "Episode");
    assert_eq!(v.location_type, "Virtual");
    assert_eq!(v.etag, "1700000000");
    assert_eq!(v.production_year, Some(2011));
    assert_eq!(v.overview.as_deref(), Some("Series text"));
    assert_eq!(v.provider_ids.get("Tmdb").as_deref(), Some("1399"));
    assert_eq!(v.provider_ids.get("TmdbSeason").as_deref(), Some("s1"));
    assert_eq!(v.provider_ids.get("TmdbEpisode"), None);
    assert_eq!(v.provider_ids.get("Imdb").as_deref(), Some("tt1"));
    assert_eq!(v.primary_image_tag.as_deref(), Some("1700000000"));
    assert_eq!(v.backdrop_image_tags, vec!["1700000000".to_string()]);
    assert_eq!(v.parent_logo_image_tag, None);
    assert_eq!(v.user_data.key.as_deref(), Some("00000000000000000000000000000abc"));
    assert_eq!(v.index_number, 12);
    assert_eq!(v.parent_index_number, 1);
}

#[test]
fn session_runtime_queues_the_one_item() {
    assert!(movie_rust::playback::session_runtime(None, None, None, "abc").is_none());
    let r = movie_rust::playback::session_runtime(Some(empty_entry()), None, None, "abc").unwrap();
    assert_eq!(r.now_playing_queue, vec![("abc".to_string(), "abc".to_string())]);
    assert_eq!(r.play_state.media_source_id, "mediasource_abc");
    let r = movie_rust::playback::session_runtime(Some(empty_entry()), Some("pl7".to_string()), None, "abc").unwrap();
    assert_eq!(r.now_playing_queue, vec![("abc".to_string(), "pl7".to_string())]);
}
