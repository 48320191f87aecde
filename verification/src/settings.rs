//! Server settings: the startup configuration and the encoding options,
//! with their defaults and normalisation.

use vstd::prelude::*;
use crate::text::{
    eq_ignore_ascii_case, eq_ignore_case_seq, is_blank, is_blank_str, owned, str_eq, trim,
    trim_seq, views, lemma_trim_idempotent,
};

verus! {

/// What the server's configuration file provides to the settings.
pub struct ServerConfig {
    pub server_name: String,
    pub ui_culture: String,
    pub metadata_country_code: String,
    pub preferred_metadata_language: String,
    pub tmdb_api_key: Option<String>,
    pub ffmpeg_path: String,
    pub transcode_dir: String,
}

/// The startup configuration.
pub struct StartupConfiguration {
    pub server_name: String,
    pub ui_culture: String,
    pub metadata_country_code: String,
    pub preferred_metadata_language: String,
    pub library_scan_thread_count: i32,
    pub strm_analysis_thread_count: i32,
    pub tmdb_metadata_thread_count: i32,
    pub translation_thread_count: i32,
    pub tmdb_api_key: String,
    pub tmdb_api_keys: Vec<String>,
    pub fanart_api_keys: Vec<String>,
    pub subtitle_api_keys: Vec<String>,
    pub performance_tier: String,
    pub db_max_connections: i32,
    pub image_download_threads: i32,
    pub background_task_threads: i32,
}

/// The startup configuration before the wizard has stored one: names and
/// languages from the server configuration, the medium tier's thread counts,
/// 20 database connections and no extra API keys.
pub fn default_startup_configuration(config: &ServerConfig) -> (r: StartupConfiguration)
    ensures
        r.server_name == config.server_name,
        r.ui_culture == config.ui_culture,
        r.metadata_country_code == config.metadata_country_code,
        r.preferred_metadata_language == config.preferred_metadata_language,
        r.library_scan_thread_count == 2,
        r.strm_analysis_thread_count == 8,
        r.tmdb_metadata_thread_count == 4,
        r.translation_thread_count == 4,
        r.tmdb_api_key@ == match config.tmdb_api_key {
            Some(k) => k@,
            None => Seq::<char>::empty(),
        },
        r.tmdb_api_keys@.len() == 0,
        r.fanart_api_keys@.len() == 0,
        r.subtitle_api_keys@.len() == 0,
        r.performance_tier@ == "medium"@,
        r.db_max_connections == 20,
        r.image_download_threads == 8,
        r.background_task_threads == 4,
{
    StartupConfiguration {
        server_name: config.server_name.clone(),
        ui_culture: config.ui_culture.clone(),
        metadata_country_code: config.metadata_country_code.clone(),
        preferred_metadata_language: config.preferred_metadata_language.clone(),
        library_scan_thread_count: 2,
        strm_analysis_thread_count: 8,
        tmdb_metadata_thread_count: 4,
        translation_thread_count: 4,
        tmdb_api_key: match &config.tmdb_api_key {
            Some(k) => k.clone(),
            None => String::new(),
        },
        tmdb_api_keys: Vec::new(),
        fanart_api_keys: Vec::new(),
        subtitle_api_keys: Vec::new(),
        performance_tier: owned("medium"),
        db_max_connections: 20,
        image_download_threads: 8,
        background_task_threads: 4,
    }
}

/// Thread and connection defaults of a performance tier: library scan,
/// STRM analysis, metadata, translation, database connections, image
/// downloads, background tasks. An unknown tier is the medium one.
pub open spec fn tier_defaults(tier: Seq<char>) -> (i32, i32, i32, i32, i32, i32, i32) {
    if tier == "low"@ {
        (1, 4, 2, 2, 10, 4, 2)
    } else if tier == "high"@ {
        (8, 32, 16, 8, 50, 24, 12)
    } else if tier == "ultra"@ {
        (16, 64, 32, 16, 100, 48, 24)
    } else if tier == "extreme"@ {
        (32, 128, 64, 32, 200, 96, 48)
    } else {
        (2, 8, 4, 4, 20, 8, 4)
    }
}

/// A count left at 0 takes the default.
pub open spec fn fill(v: i32, d: i32) -> i32 {
    if v == 0 {
        d
    } else {
        v
    }
}

/// The counts of a configuration: library scan, STRM analysis, metadata,
/// translation, database connections, image downloads, background tasks.
pub open spec fn counts_of(c: StartupConfiguration) -> (i32, i32, i32, i32, i32, i32, i32) {
    (
        c.library_scan_thread_count,
        c.strm_analysis_thread_count,
        c.tmdb_metadata_thread_count,
        c.translation_thread_count,
        c.db_max_connections,
        c.image_download_threads,
        c.background_task_threads,
    )
}

/// The counts after the tier's defaults fill those left at 0.
pub open spec fn tier_filled(c: StartupConfiguration) -> (i32, i32, i32, i32, i32, i32, i32) {
    let d = tier_defaults(c.performance_tier@);
    let v = counts_of(c);
    (fill(v.0, d.0), fill(v.1, d.1), fill(v.2, d.2), fill(v.3, d.3), fill(v.4, d.4), fill(v.5, d.5), fill(v.6, d.6))
}

/// The texts and key lists of `b` are those of `a`.
pub open spec fn same_texts(a: StartupConfiguration, b: StartupConfiguration) -> bool {
    &&& b.server_name@ == a.server_name@
    &&& b.ui_culture@ == a.ui_culture@
    &&& b.metadata_country_code@ == a.metadata_country_code@
    &&& b.preferred_metadata_language@ == a.preferred_metadata_language@
    &&& b.tmdb_api_key@ == a.tmdb_api_key@
    &&& views(b.tmdb_api_keys@) == views(a.tmdb_api_keys@)
    &&& views(b.fanart_api_keys@) == views(a.fanart_api_keys@)
    &&& views(b.subtitle_api_keys@) == views(a.subtitle_api_keys@)
    &&& b.performance_tier@ == a.performance_tier@
}

fn fill_exec(v: i32, d: i32) -> (r: i32)
    ensures
        r == fill(v, d),
{
    if v == 0 {
        d
    } else {
        v
    }
}

fn tier_defaults_exec(tier: &str) -> (r: (i32, i32, i32, i32, i32, i32, i32))
    ensures
        r == tier_defaults(tier@),
{
    if str_eq(tier, "low") {
        (1, 4, 2, 2, 10, 4, 2)
    } else if str_eq(tier, "high") {
        (8, 32, 16, 8, 50, 24, 12)
    } else if str_eq(tier, "ultra") {
        (16, 64, 32, 16, 100, 48, 24)
    } else if str_eq(tier, "extreme") {
        (32, 128, 64, 32, 200, 96, 48)
    } else {
        (2, 8, 4, 4, 20, 8, 4)
    }
}

/// Fills the counts left at 0 with the defaults of the configured tier.
pub fn apply_performance_tier(configuration: &mut StartupConfiguration)
    ensures
        counts_of(*final(configuration)) == tier_filled(*old(configuration)),
        same_texts(*old(configuration), *final(configuration)),
{
    let d = tier_defaults_exec(configuration.performance_tier.as_str());
    configuration.library_scan_thread_count = fill_exec(configuration.library_scan_thread_count, d.0);
    configuration.strm_analysis_thread_count = fill_exec(configuration.strm_analysis_thread_count, d.1);
    configuration.tmdb_metadata_thread_count = fill_exec(configuration.tmdb_metadata_thread_count, d.2);
    configuration.translation_thread_count = fill_exec(configuration.translation_thread_count, d.3);
    configuration.db_max_connections = fill_exec(configuration.db_max_connections, d.4);
    configuration.image_download_threads = fill_exec(configuration.image_download_threads, d.5);
    configuration.background_task_threads = fill_exec(configuration.background_task_threads, d.6);
}

/// The keys that are not blank, in order.
pub open spec fn non_blank_keys(keys: Seq<Seq<char>>) -> Seq<Seq<char>>
    decreases keys.len(),
{
    if keys.len() == 0 {
        keys
    } else if is_blank(keys.last()) {
        non_blank_keys(keys.drop_last())
    } else {
        non_blank_keys(keys.drop_last()).push(keys.last())
    }
}

fn retain_non_blank(keys: &Vec<String>) -> (r: Vec<String>)
    ensures
        views(r@) == non_blank_keys(views(keys@)),
{
    let ghost kv = views(keys@);
    let mut out: Vec<String> = Vec::new();
    let rest = keys;
    let n = rest.len();
    let mut i: usize = 0;
    assert(kv.take(0) =~= Seq::<Seq<char>>::empty());
    while i < n
        invariant
            i <= n,
            n == rest@.len(),
            kv == views(rest@),
            views(out@) == non_blank_keys(kv.take(i as int)),
        decreases n - i,
    {
        proof {
            assert(kv.take(i + 1).drop_last() =~= kv.take(i as int));
            assert(kv.take(i + 1).last() == kv[i as int]);
        }
        if !is_blank_str(rest[i].as_str()) {
            out.push(rest[i].clone());
            assert(views(out@) =~= views(out@).drop_last().push(kv[i as int]));
        }
        i = i + 1;
    }
    assert(kv.take(n as int) =~= kv);
    out
}

pub open spec fn at_least(v: i32, lo: i32) -> i32 {
    if v < lo {
        lo
    } else {
        v
    }
}

/// `b` is `a` normalised: names and languages trimmed, every thread count at
/// least 1, at least 5 database connections, blank API keys dropped, and the
/// tier's defaults filling any count still at 0.
pub open spec fn normalized_startup(a: StartupConfiguration, b: StartupConfiguration) -> bool {
    &&& b.server_name@ == trim_seq(a.server_name@)
    &&& b.ui_culture@ == trim_seq(a.ui_culture@)
    &&& b.metadata_country_code@ == trim_seq(a.metadata_country_code@)
    &&& b.preferred_metadata_language@ == trim_seq(a.preferred_metadata_language@)
    &&& b.tmdb_api_key@ == a.tmdb_api_key@
    &&& views(b.tmdb_api_keys@) == non_blank_keys(views(a.tmdb_api_keys@))
    &&& views(b.fanart_api_keys@) == non_blank_keys(views(a.fanart_api_keys@))
    &&& views(b.subtitle_api_keys@) == non_blank_keys(views(a.subtitle_api_keys@))
    &&& b.performance_tier@ == a.performance_tier@
    &&& counts_of(b) == {
        let d = tier_defaults(a.performance_tier@);
        (
            fill(at_least(a.library_scan_thread_count, 1), d.0),
            fill(at_least(a.strm_analysis_thread_count, 1), d.1),
            fill(at_least(a.tmdb_metadata_thread_count, 1), d.2),
            fill(at_least(a.translation_thread_count, 1), d.3),
            fill(at_least(a.db_max_connections, 5), d.4),
            fill(at_least(a.image_download_threads, 1), d.5),
            fill(at_least(a.background_task_threads, 1), d.6),
        )
    }
}

fn at_least_exec(v: i32, lo: i32) -> (r: i32)
    ensures
        r == at_least(v, lo),
{
    if v < lo {
        lo
    } else {
        v
    }
}

/// Normalises a startup configuration as `normalized_startup` states.
pub fn normalize_startup_configuration(configuration: &mut StartupConfiguration)
    ensures
        normalized_startup(*old(configuration), *final(configuration)),
{
    configuration.server_name = owned(trim(configuration.server_name.as_str()));
    configuration.ui_culture = owned(trim(configuration.ui_culture.as_str()));
    configuration.metadata_country_code = owned(trim(configuration.metadata_country_code.as_str()));
    configuration.preferred_metadata_language = owned(trim(configuration.preferred_metadata_language.as_str()));
    configuration.library_scan_thread_count = at_least_exec(configuration.library_scan_thread_count, 1);
    configuration.strm_analysis_thread_count = at_least_exec(configuration.strm_analysis_thread_count, 1);
    configuration.tmdb_metadata_thread_count = at_least_exec(configuration.tmdb_metadata_thread_count, 1);
    configuration.translation_thread_count = at_least_exec(configuration.translation_thread_count, 1);
    configuration.db_max_connections = at_least_exec(configuration.db_max_connections, 5);
    configuration.image_download_threads = at_least_exec(configuration.image_download_threads, 1);
    configuration.background_task_threads = at_least_exec(configuration.background_task_threads, 1);
    configuration.tmdb_api_keys = retain_non_blank(&configuration.tmdb_api_keys);
    configuration.fanart_api_keys = retain_non_blank(&configuration.fanart_api_keys);
    configuration.subtitle_api_keys = retain_non_blank(&configuration.subtitle_api_keys);
    apply_performance_tier(configuration);
}

pub proof fn lemma_non_blank_keys_fixed(keys: Seq<Seq<char>>)
    ensures
        non_blank_keys(non_blank_keys(keys)) == non_blank_keys(keys),
    decreases keys.len(),
{
    if keys.len() > 0 {
        lemma_non_blank_keys_fixed(keys.drop_last());
        let p = non_blank_keys(keys.drop_last());
        if !is_blank(keys.last()) {
            assert(p.push(keys.last()).drop_last() =~= p);
        }
    }
}

/// A normalised configuration has every thread count at least 1 and at
/// least 5 database connections, so the tier's defaults no longer apply.
pub proof fn law_normalized_startup_bounds(a: StartupConfiguration, b: StartupConfiguration)
    requires
        normalized_startup(a, b),
    ensures
        b.library_scan_thread_count >= 1,
        b.strm_analysis_thread_count >= 1,
        b.tmdb_metadata_thread_count >= 1,
        b.translation_thread_count >= 1,
        b.db_max_connections >= 5,
        b.image_download_threads >= 1,
        b.background_task_threads >= 1,
        tier_filled(b) == counts_of(b),
{
}

/// Normalising a normalised configuration changes nothing.
pub proof fn law_normalize_startup_idempotent(a: StartupConfiguration, b: StartupConfiguration, c: StartupConfiguration)
    requires
        normalized_startup(a, b),
        normalized_startup(b, c),
    ensures
        same_texts(b, c),
        counts_of(c) == counts_of(b),
{
    lemma_trim_idempotent(a.server_name@);
    lemma_trim_idempotent(a.ui_culture@);
    lemma_trim_idempotent(a.metadata_country_code@);
    lemma_trim_idempotent(a.preferred_metadata_language@);
    lemma_non_blank_keys_fixed(views(a.tmdb_api_keys@));
    lemma_non_blank_keys_fixed(views(a.fanart_api_keys@));
    lemma_non_blank_keys_fixed(views(a.subtitle_api_keys@));
}

/// The encoding options the server normalises (the audio boost, a
/// floating-point value, is kept apart).
pub struct EncodingOptions {
    pub encoder_location_type: String,
    pub encoder_app_path: String,
    pub transcoding_temp_path: String,
    pub hardware_acceleration_type: String,
    pub vaapi_device: String,
    pub h264_preset: String,
    pub encoding_thread_count: i32,
    pub h264_crf: i32,
    pub max_transcode_sessions: i32,
}

pub open spec fn clamp_i32(v: i32, lo: i32, hi: i32) -> i32 {
    if v < lo {
        lo
    } else if v > hi {
        hi
    } else {
        v
    }
}

/// `b` is the encoding options `a` normalised against the server
/// configuration: "Custom" (any ASCII case) stays custom with its path
/// trimmed, anything else is "System" with the configured FFmpeg (or
/// "ffmpeg" when none is configured); a blank temporary path becomes the
/// configured transcoding folder; texts are trimmed; thread count, CRF and
/// sessions are kept within -1..=64, 0..=51 and 1..=64.
pub open spec fn normalized_encoding(a: EncodingOptions, config: ServerConfig, b: EncodingOptions) -> bool {
    let custom = eq_ignore_case_seq(a.encoder_location_type@, "Custom"@);
    &&& b.encoder_location_type@ == (if custom { "Custom"@ } else { "System"@ })
    &&& b.encoder_app_path@ == (if custom {
        trim_seq(a.encoder_app_path@)
    } else if is_blank(config.ffmpeg_path@) {
        "ffmpeg"@
    } else {
        config.ffmpeg_path@
    })
    &&& b.transcoding_temp_path@ == (if is_blank(a.transcoding_temp_path@) {
        config.transcode_dir@
    } else {
        trim_seq(a.transcoding_temp_path@)
    })
    &&& b.hardware_acceleration_type@ == trim_seq(a.hardware_acceleration_type@)
    &&& b.vaapi_device@ == trim_seq(a.vaapi_device@)
    &&& b.h264_preset@ == trim_seq(a.h264_preset@)
    &&& b.encoding_thread_count == clamp_i32(a.encoding_thread_count, -1i32, 64i32)
    &&& b.h264_crf == clamp_i32(a.h264_crf, 0i32, 51i32)
    &&& b.max_transcode_sessions == clamp_i32(a.max_transcode_sessions, 1i32, 64i32)
}

fn clamp_exec(v: i32, lo: i32, hi: i32) -> (r: i32)
    ensures
        r == clamp_i32(v, lo, hi),
{
    if v < lo {
        lo
    } else if v > hi {
        hi
    } else {
        v
    }
}

/// Normalises encoding options as `normalized_encoding` states.
pub fn normalize_encoding_options(options: &mut EncodingOptions, config: &ServerConfig)
    ensures
        normalized_encoding(*old(options), *config, *final(options)),
{
    let custom = eq_ignore_ascii_case(options.encoder_location_type.as_str(), "Custom");
    options.encoder_location_type = if custom {
        owned("Custom")
    } else {
        owned("System")
    };
    if !custom {
        options.encoder_app_path = if is_blank_str(config.ffmpeg_path.as_str()) {
            owned("ffmpeg")
        } else {
            config.ffmpeg_path.clone()
        };
    } else {
        options.encoder_app_path = owned(trim(options.encoder_app_path.as_str()));
    }
    if is_blank_str(options.transcoding_temp_path.as_str()) {
        options.transcoding_temp_path = config.transcode_dir.clone();
    } else {
        options.transcoding_temp_path = owned(trim(options.transcoding_temp_path.as_str()));
    }
    options.hardware_acceleration_type = owned(trim(options.hardware_acceleration_type.as_str()));
    options.vaapi_device = owned(trim(options.vaapi_device.as_str()));
    options.h264_preset = owned(trim(options.h264_preset.as_str()));
    options.encoding_thread_count = clamp_exec(options.encoding_thread_count, -1, 64);
    options.h264_crf = clamp_exec(options.h264_crf, 0, 51);
    options.max_transcode_sessions = clamp_exec(options.max_transcode_sessions, 1, 64);
}

} // verus!
