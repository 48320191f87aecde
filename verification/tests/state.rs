use movie_rust::scan::{library_update_summary, sync_error_outcome, SyncOutcome};
use movie_rust::counts::{batch_library_stats, i64_to_i32_count, stats_for_library, tally_item_counts, DtoCountPrefetch};
use movie_rust::json::{JsonDoc, JsonFields, JsonScalar};
use movie_rust::scan::{AttemptStart, ScanPhase, ScanRegistry, ScanSnapshot, ScanStatus, ScanSummary, KEEP_LATEST, MAX_ATTEMPTS};
use movie_rust::session::{
    plan_session_command, session_command_fields, session_commands_access, CommandAccess, QueueAction, SummaryEdit,
    SummaryState,
};
use movie_rust::settings::{
    apply_performance_tier, default_startup_configuration, normalize_encoding_options, normalize_startup_configuration,
    EncodingOptions, ServerConfig,
};

fn config() -> ServerConfig {
    ServerConfig {
        server_name: "Server".to_string(),
        ui_culture: "zh-CN".to_string(),
        metadata_country_code: "CN".to_string(),
        preferred_metadata_language: "zh".to_string(),
        tmdb_api_key: Some("key".to_string()),
        ffmpeg_path: "/usr/bin/ffmpeg".to_string(),
        transcode_dir: "/tmp/transcode".to_string(),
    }
}

#[test]
fn startup_defaults_and_tiers() {
    let mut c = default_startup_configuration(&config());
    assert_eq!(c.tmdb_api_key, "key");
    assert_eq!(c.performance_tier, "medium");
    assert_eq!(c.db_max_connections, 20);
    c.performance_tier = "high".to_string();
    c.library_scan_thread_count = 0;
    c.db_max_connections = 0;
    apply_performance_tier(&mut c);
    assert_eq!(c.library_scan_thread_count, 8);
    assert_eq!(c.db_max_connections, 50);
    assert_eq!(c.strm_analysis_thread_count, 8);
}

#[test]
fn startup_normalisation() {
    let mut c = default_startup_configuration(&config());
    c.server_name = "  Home  ".to_string();
    c.library_scan_thread_count = -3;
    c.db_max_connections = 2;
    c.tmdb_api_keys = vec!["a".to_string(), " ".to_string(), "b".to_string()];
    normalize_startup_configuration(&mut c);
    assert_eq!(c.server_name, "Home");
    assert_eq!(c.library_scan_thread_count, 1);
    assert_eq!(c.db_max_connections, 5);
    assert_eq!(c.tmdb_api_keys, vec!["a".to_string(), "b".to_string()]);
    let before = (c.library_scan_thread_count, c.db_max_connections, c.tmdb_api_keys.clone());
    normalize_startup_configuration(&mut c);
    assert_eq!((c.library_scan_thread_count, c.db_max_connections, c.tmdb_api_keys.clone()), before);
}

#[test]
fn item_counts_and_stats() {
    assert_eq!(i64_to_i32_count(5), 5);
    assert_eq!(i64_to_i32_count(i64::MAX), i32::MAX);
    let c = tally_item_counts(&vec![("Movie".to_string(), 3), ("Episode".to_string(), 10), ("Photo".to_string(), 2)]);
    assert_eq!(c.movie_count, 3);
    assert_eq!(c.episode_count, 10);
    assert_eq!(c.item_count, 15);
    let rows = vec![
        (1u128, Some("Movie".to_string()), 4i64),
        (1, Some("Episode".to_string()), 9),
        (1, Some("Folder".to_string()), 1),
        (2, Some("Series".to_string()), 2),
        (1, None, 3),
    ];
    let s = stats_for_library(1, &rows);
    assert_eq!((s.child_count, s.recursive_item_count, s.movie_count, s.series_count), (5, 17, 4, 0));
    let all = batch_library_stats(&vec![2, 3], &rows);
    assert_eq!((all[0].child_count, all[0].series_count), (2, 2));
    assert_eq!(all[1].recursive_item_count, 0);
    let d = DtoCountPrefetch::default();
    assert_eq!((d.child_count, d.recursive_item_count, d.season_count), (None, None, None));
}

fn summary(paused: Option<bool>) -> SummaryState {
    SummaryState { is_object: true, is_paused: paused, additional_users: Some(vec![Some("u1".to_string()), None]) }
}

fn fields(pairs: Vec<(&str, JsonScalar)>) -> JsonFields {
    JsonFields { entries: pairs.into_iter().map(|(k, v)| (k.to_string(), v)).collect() }
}

#[test]
fn session_commands_plan_queue_and_summary() {
    let p = plan_session_command(" Pause ", &fields(vec![]), &summary(None));
    assert_eq!(p.queue, QueueAction::SetPaused(true));
    assert!(matches!(p.edits[..], [SummaryEdit::IsPaused(true), SummaryEdit::State(_)]));
    let t = plan_session_command("TogglePause", &fields(vec![]), &summary(Some(true)));
    assert_eq!(t.queue, QueueAction::TogglePaused);
    assert!(matches!(t.edits[0], SummaryEdit::IsPaused(false)));
    let seek = plan_session_command("seek", &fields(vec![("PositionTicks", JsonScalar::Int(77))]), &summary(None));
    assert_eq!(seek.queue, QueueAction::Seek(77));
    let bad = plan_session_command("seek", &fields(vec![("PositionTicks", JsonScalar::Str("x".to_string()))]), &summary(None));
    assert_eq!(bad.queue, QueueAction::Keep);
    assert!(bad.edits.is_empty());
    let vol = plan_session_command("SetVolume", &fields(vec![("Volume", JsonScalar::Int(150))]), &summary(None));
    assert!(matches!(vol.edits[..], [SummaryEdit::VolumeLevel(100), SummaryEdit::IsMuted(false)]));
    let mute = plan_session_command("SetVolume", &fields(vec![("volume", JsonScalar::Int(-5))]), &summary(None));
    assert!(matches!(mute.edits[..], [SummaryEdit::VolumeLevel(0), SummaryEdit::IsMuted(true)]));
    let again = plan_session_command("SetAdditionalUser", &fields(vec![("UserId", JsonScalar::Str(" u1 ".to_string()))]), &summary(None));
    assert!(matches!(again.edits[..], [SummaryEdit::AdditionalUsers(None)]));
    let new_user = plan_session_command("SetAdditionalUser", &fields(vec![("userId", JsonScalar::Str("u2".to_string()))]), &summary(None));
    assert!(matches!(&new_user.edits[..], [SummaryEdit::AdditionalUsers(Some(u))] if u == "u2"));
    let stop = plan_session_command("stop", &fields(vec![]), &SummaryState { is_object: false, is_paused: None, additional_users: None });
    assert_eq!(stop.queue, QueueAction::Clear);
    assert!(stop.edits.is_empty());
    let other = plan_session_command("GoHome", &fields(vec![]), &summary(None));
    assert_eq!(other.queue, QueueAction::Keep);
}

#[test]
fn toggle_twice_restores_pause_state() {
    let first = plan_session_command("PlayPause", &fields(vec![]), &summary(Some(false)));
    let paused = matches!(first.edits[0], SummaryEdit::IsPaused(true));
    assert!(paused);
    let second = plan_session_command("PlayPause", &fields(vec![]), &summary(Some(true)));
    assert!(matches!(second.edits[0], SummaryEdit::IsPaused(false)));
}

#[test]
fn display_messages_keep_non_blank_texts() {
    let p = plan_session_command(
        "DisplayMessage",
        &fields(vec![("Header", JsonScalar::Str(" ".to_string())), ("Text", JsonScalar::Str("hi".to_string()))]),
        &summary(None),
    );
    assert!(matches!(&p.edits[..], [SummaryEdit::LastMessageText(t), SummaryEdit::LastMessageDate] if t == "hi"));
}

#[test]
fn session_command_names_and_arguments() {
    let payload = JsonDoc::Object(fields(vec![("name", JsonScalar::Str("SetVolume".to_string())), ("arguments", JsonScalar::Other)]));
    assert_eq!(session_command_fields(&payload, "GeneralCommand"), ("SetVolume".to_string(), Some("arguments")));
    let blank = JsonDoc::Object(fields(vec![("Name", JsonScalar::Str(" ".to_string())), ("Arguments", JsonScalar::Other)]));
    assert_eq!(session_command_fields(&blank, "Play"), ("Play".to_string(), Some("Arguments")));
    assert_eq!(session_command_fields(&JsonDoc::Other, "Play"), ("Play".to_string(), None));
}

#[test]
fn scan_registry_lifecycle() {
    let mut r = ScanRegistry::new();
    let id = r.enqueue("manual".to_string(), "all".to_string(), None, None, 10, 1000);
    assert_eq!(id, 10);
    assert_eq!(r.enqueue("auto".to_string(), "all".to_string(), None, None, 11, 1001), 10);
    assert_eq!(r.active_operation("all"), Some(10));
    assert!(matches!(r.begin_attempt(10, 1, 1002), AttemptStart::Started));
    assert!(r.apply_progress(10, ScanSnapshot {
        phase: "Scanning".to_string(),
        current_library: Some("Movies".to_string()),
        total_files: 10,
        scanned_files: 4,
        imported_items: 1,
    }));
    assert!(r.apply_progress(10, ScanSnapshot { phase: String::new(), current_library: None, total_files: 5, scanned_files: 2, imported_items: 0 }));
    let op = r.get(10).unwrap();
    assert_eq!((op.total_files, op.scanned_files, op.imported_items), (10, 4, 1));
    assert_eq!(op.phase, ScanPhase::CollectingFiles);
    assert!(!r.should_stop(10));
    r.finish_succeeded(10, "all", ScanSummary { libraries: 1, scanned_files: 12, imported_items: 3 }, 1, 2000);
    let done = r.get(10).unwrap();
    assert_eq!(done.status, ScanStatus::Succeeded);
    assert_eq!(done.scanned_files, 12);
    assert_eq!(r.active_operation("all"), None);
    let view = done.to_dto();
    assert_eq!(view.status, "Succeeded");
    assert!(view.done && !view.running && !view.queued);
    assert_eq!(view.monitor_url, "/api/admin/scan/operations/00000000-0000-0000-0000-00000000000a");
    assert!(!r.apply_progress(10, ScanSnapshot { phase: String::new(), current_library: None, total_files: 0, scanned_files: 0, imported_items: 0 }));
}

#[test]
fn scan_cancellation_and_retries() {
    let mut r = ScanRegistry::new();
    r.enqueue("manual".to_string(), "lib".to_string(), Some(3), Some("Movies".to_string()), 1, 0);
    let c = r.cancel(1, 5).unwrap();
    assert_eq!(c.status, ScanStatus::Cancelled);
    assert_eq!(r.active_operation("lib"), None);
    assert!(r.cancel(99, 5).is_none());
    r.enqueue("manual".to_string(), "lib".to_string(), None, None, 2, 6);
    assert!(matches!(r.begin_attempt(2, 1, 7), AttemptStart::Started));
    assert_eq!(r.cancel(2, 8).unwrap().status, ScanStatus::Cancelling);
    assert!(r.should_stop(2));
    assert!(matches!(r.begin_attempt(2, 2, 9), AttemptStart::Cancelled));
    r.enqueue("manual".to_string(), "lib".to_string(), None, None, 3, 10);
    assert!(r.after_error(3, "lib", "db down".to_string(), true, 1, 11));
    assert_eq!(r.get(3).unwrap().status, ScanStatus::Queued);
    assert!(!r.after_error(3, "lib", "db down".to_string(), true, MAX_ATTEMPTS, 12));
    assert_eq!(r.get(3).unwrap().status, ScanStatus::Failed);
    assert!(matches!(r.begin_attempt(42, 1, 13), AttemptStart::Missing));
    let listed = r.list(Some(2));
    assert_eq!(listed.iter().map(|o| o.id).collect::<Vec<_>>(), vec![3, 2]);
    assert_eq!(r.list(None).len(), 3);
}

#[test]
fn scan_registry_keeps_latest_operations() {
    let mut r = ScanRegistry::new();
    let n = KEEP_LATEST as u128 + 5;
    for i in 0..n {
        let scope = format!("s{i}");
        r.enqueue("auto".to_string(), scope.clone(), None, None, i + 1, i as i64);
        r.finish_cancelled(i + 1, &scope, i as i64);
    }
    assert_eq!(r.list(Some(1000)).len(), KEEP_LATEST as usize);
    assert!(r.get(1).is_none());
    assert!(r.get(n).is_some());
}

#[test]
fn encoding_options_are_normalised() {
    let mut o = EncodingOptions {
        encoder_location_type: "custom".to_string(),
        encoder_app_path: " /opt/ffmpeg ".to_string(),
        transcoding_temp_path: "  ".to_string(),
        hardware_acceleration_type: " vaapi ".to_string(),
        vaapi_device: "/dev/dri".to_string(),
        h264_preset: "fast".to_string(),
        encoding_thread_count: 100,
        h264_crf: -4,
        max_transcode_sessions: 0,
    };
    normalize_encoding_options(&mut o, &config());
    assert_eq!(o.encoder_location_type, "Custom");
    assert_eq!(o.encoder_app_path, "/opt/ffmpeg");
    assert_eq!(o.transcoding_temp_path, "/tmp/transcode");
    assert_eq!(o.hardware_acceleration_type, "vaapi");
    assert_eq!((o.encoding_thread_count, o.h264_crf, o.max_transcode_sessions), (64, 0, 1));
    o.encoder_location_type = "Bundled".to_string();
    normalize_encoding_options(&mut o, &config());
    assert_eq!(o.encoder_location_type, "System");
    assert_eq!(o.encoder_app_path, "/usr/bin/ffmpeg");
}

#[test]
fn only_owners_and_admins_read_commands() {
    assert_eq!(session_commands_access(None, 1, false), CommandAccess::NoSession);
    assert_eq!(session_commands_access(Some(1), 1, false), CommandAccess::Allowed);
    assert_eq!(session_commands_access(Some(2), 1, false), CommandAccess::Denied);
    assert_eq!(session_commands_access(Some(2), 1, true), CommandAccess::Allowed);
}

fn totals(libraries: usize, scanned_files: usize, imported_items: usize) -> ScanSummary {
    ScanSummary { libraries, scanned_files, imported_items }
}

#[test]
fn library_update_folds_sources_then_adds_the_local_scan() {
    let local = totals(1, 5, 2);
    let only_local = library_update_summary(&Vec::new(), totals(1, 5, 2)).unwrap();
    assert_eq!((only_local.libraries, only_local.scanned_files, only_local.imported_items), (1, 5, 2));
    let outcomes = vec![SyncOutcome::Synced(totals(0, 10, 4)), SyncOutcome::Busy, SyncOutcome::Synced(totals(0, 1, 1))];
    let r = library_update_summary(&outcomes, local).unwrap();
    assert_eq!((r.libraries, r.scanned_files, r.imported_items), (2, 16, 7));
    let failed = vec![SyncOutcome::Synced(totals(0, 10, 4)), SyncOutcome::Failed, SyncOutcome::Busy];
    assert!(library_update_summary(&failed, totals(1, 5, 2)).is_none());
}

#[test]
fn a_busy_source_is_told_by_its_message() {
    assert!(matches!(sync_error_outcome("sync failed: [SOURCE_BUSY] another run", "[SOURCE_BUSY]"), SyncOutcome::Busy));
    assert!(matches!(sync_error_outcome("network down", "[SOURCE_BUSY]"), SyncOutcome::Failed));
    assert!(matches!(sync_error_outcome("[SOURCE_BUSY]", "[SOURCE_BUSY]"), SyncOutcome::Busy));
}

#[test]
fn summary_edits_write_their_fields_and_keep_the_rest() {
    let fields = JsonFields {
        entries: vec![
            ("IsPaused".to_string(), JsonScalar::Bool(true)),
            ("Other".to_string(), JsonScalar::Int(5)),
        ],
    };
    let edits = vec![
        SummaryEdit::IsPaused(false),
        SummaryEdit::State(movie_rust::session::PlayStateText::Playing),
        SummaryEdit::LastMessageDate,
    ];
    let r = movie_rust::session::apply_summary_edits(fields, &edits, "2024-01-01T00:00:00Z");
    assert!(matches!(r.get("IsPaused"), Some(JsonScalar::Bool(false))));
    assert!(matches!(r.get("State"), Some(JsonScalar::Str(s)) if s == "Playing"));
    assert!(matches!(r.get("Other"), Some(JsonScalar::Int(5))));
    assert!(matches!(r.get("LastMessageDate"), Some(JsonScalar::Str(s)) if s == "2024-01-01T00:00:00Z"));
    assert_eq!(r.entries.iter().filter(|(k, _)| k == "IsPaused").count(), 1);
}
