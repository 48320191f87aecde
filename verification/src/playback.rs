//! What a playback report changes: the reporting session's play queue and
//! the user's play state of the item; and the play state a session shows.

use vstd::prelude::*;
use crate::text::{is_blank, is_blank_str, owned, str_eq};

verus! {

/// What a playback report does to the session's queue entry for the item.
#[derive(Clone, Copy, Debug, PartialEq, Eq, Structural)]
pub enum QueueChange {
    /// Insert the entry, or merge the report into it.
    Upsert,
    /// Drop the entry.
    Remove,
    /// Leave the queue as it is.
    Keep,
}

/// The queue change of an event: only for an item reported from a session
/// with a non-blank id; `Started`, `Progress` and `Ping` upsert, `Stopped`
/// removes.
pub open spec fn queue_change_of(event: Seq<char>, has_item: bool, session: Option<Seq<char>>) -> QueueChange {
    if has_item && session is Some && !is_blank(session->0) {
        if event == "Started"@ || event == "Progress"@ || event == "Ping"@ {
            QueueChange::Upsert
        } else if event == "Stopped"@ {
            QueueChange::Remove
        } else {
            QueueChange::Keep
        }
    } else {
        QueueChange::Keep
    }
}

pub open spec fn opt_str(v: Option<&str>) -> Option<Seq<char>> {
    match v {
        Some(s) => Some(s@),
        None => None,
    }
}

/// The queue change of a playback report (see `queue_change_of`).
pub fn queue_change(event_type: &str, has_item: bool, session_id: Option<&str>) -> (r: QueueChange)
    ensures
        r == queue_change_of(event_type@, has_item, opt_str(session_id)),
{
    let session_ok = match session_id {
        Some(s) => !is_blank_str(s),
        None => false,
    };
    if !has_item || !session_ok {
        return QueueChange::Keep;
    }
    if str_eq(event_type, "Started") || str_eq(event_type, "Progress") || str_eq(event_type, "Ping") {
        QueueChange::Upsert
    } else if str_eq(event_type, "Stopped") {
        QueueChange::Remove
    } else {
        QueueChange::Keep
    }
}

/// Whether an event updates the user's play state of the item: an item is
/// named and the event is `Started`, `Progress` or `Stopped`.
pub open spec fn records_play_state_of(event: Seq<char>, has_item: bool) -> bool {
    has_item && (event == "Started"@ || event == "Progress"@ || event == "Stopped"@)
}

/// Whether a playback report updates the user's play state of the item.
pub fn records_play_state(event_type: &str, has_item: bool) -> (r: bool)
    ensures
        r == records_play_state_of(event_type@, has_item),
{
    has_item && (str_eq(event_type, "Started") || str_eq(event_type, "Progress") || str_eq(event_type, "Stopped"))
}

/// Whether a position counts as the end of an item: both the position and
/// the running time are positive and the position is at least 90% of it.
pub open spec fn reached_end(position_ticks: Option<i64>, runtime_ticks: Option<i64>) -> bool {
    match (position_ticks, runtime_ticks) {
        (Some(p), Some(rt)) => p > 0 && rt > 0 && 10 * p >= 9 * rt,
        _ => false,
    }
}

/// Whether a reported position is at the end of an item running
/// `runtime_ticks` (see `reached_end`).
pub fn auto_completed(position_ticks: Option<i64>, runtime_ticks: Option<i64>) -> (r: bool)
    ensures
        r == reached_end(position_ticks, runtime_ticks),
{
    match (position_ticks, runtime_ticks) {
        (Some(p), Some(rt)) => {
            if p <= 0 || rt <= 0 {
                false
            } else {
                let tenfold: i128 = (p as i128) * 10;
                let ninefold: i128 = (rt as i128) * 9;
                tenfold >= ninefold
            }
        },
        _ => false,
    }
}

/// Whether a report finishes the item: the client says so, or the position
/// is at its end.
pub fn is_completed(played_to_completion: Option<bool>, position_ticks: Option<i64>, runtime_ticks: Option<i64>) -> (r:
    bool)
    ensures
        r == (played_to_completion == Some(true) || reached_end(position_ticks, runtime_ticks)),
{
    match played_to_completion {
        Some(true) => true,
        _ => auto_completed(position_ticks, runtime_ticks),
    }
}

/// The stored play state of a user and an item.
#[derive(Clone, Copy, Debug, PartialEq, Eq, Structural)]
pub struct PlayedRow {
    pub playback_position_ticks: Option<i64>,
    pub is_played: bool,
    pub play_count: i32,
    /// When the item was last played, in microseconds since the Unix epoch.
    pub last_played_date: Option<i64>,
}

/// The play state after a report at `position_ticks` (kept when absent),
/// at time `now`: played once completed and never unplayed; the play count
/// starts at 1 for a completed first report and 0 otherwise, and grows by
/// one only when the item turns from unplayed to played.
pub open spec fn after_play(old: Option<PlayedRow>, position_ticks: Option<i64>, completed: bool, now: i64) -> PlayedRow {
    match old {
        None => PlayedRow {
            playback_position_ticks: position_ticks,
            is_played: completed,
            play_count: if completed { 1 } else { 0 },
            last_played_date: Some(now),
        },
        Some(o) => PlayedRow {
            playback_position_ticks: if position_ticks is Some { position_ticks } else { o.playback_position_ticks },
            is_played: completed || o.is_played,
            play_count: if completed && !o.is_played { (o.play_count + 1) as i32 } else { o.play_count },
            last_played_date: Some(now),
        },
    }
}

/// Whether the play count can take one more play.
pub open spec fn count_fits(old: Option<PlayedRow>) -> bool {
    old matches Some(o) ==> o.is_played || o.play_count < i32::MAX
}

/// The play state a report leaves (see `after_play`).
pub fn record_play(old: Option<PlayedRow>, position_ticks: Option<i64>, completed: bool, now: i64) -> (r: PlayedRow)
    requires
        count_fits(old),
    ensures
        r == after_play(old, position_ticks, completed, now),
{
    match old {
        None => PlayedRow {
            playback_position_ticks: position_ticks,
            is_played: completed,
            play_count: if completed { 1 } else { 0 },
            last_played_date: Some(now),
        },
        Some(o) => {
            let position = match position_ticks {
                Some(p) => Some(p),
                None => o.playback_position_ticks,
            };
            let play_count = if completed && !o.is_played { o.play_count + 1 } else { o.play_count };
            PlayedRow {
                playback_position_ticks: position,
                is_played: completed || o.is_played,
                play_count,
                last_played_date: Some(now),
            }
        },
    }
}

/// An item once played stays played, whatever is reported after.
pub proof fn law_played_stays_played(o: PlayedRow, position_ticks: Option<i64>, completed: bool, now: i64)
    requires
        o.is_played,
    ensures
        after_play(Some(o), position_ticks, completed, now).is_played,
{
}

/// The play count never falls, and grows by at most one per report.
pub proof fn law_play_count_steps(o: PlayedRow, position_ticks: Option<i64>, completed: bool, now: i64)
    requires
        count_fits(Some(o)),
    ensures
        o.play_count <= after_play(Some(o), position_ticks, completed, now).play_count <= o.play_count + 1,
{
}

/// Reporting the completion of an item twice counts it once: a second
/// completed report leaves the play count where the first left it.
pub proof fn law_completion_counted_once(
    old: Option<PlayedRow>,
    p1: Option<i64>,
    p2: Option<i64>,
    now1: i64,
    now2: i64,
)
    requires
        count_fits(old),
    ensures
        after_play(Some(after_play(old, p1, true, now1)), p2, true, now2).play_count == after_play(
            old,
            p1,
            true,
            now1,
        ).play_count,
        after_play(Some(after_play(old, p1, true, now1)), p2, true, now2).is_played,
{
}

/// A session's queue entry for an item.
pub struct QueueEntry {
    pub position_ticks: Option<i64>,
    pub is_paused: Option<bool>,
    pub play_state: Option<String>,
    pub audio_stream_index: Option<i32>,
    pub subtitle_stream_index: Option<i32>,
    pub play_method: Option<String>,
    pub media_source_id: Option<String>,
    pub volume_level: Option<i32>,
    pub repeat_mode: Option<String>,
}

/// What a playback report tells of the queue entry.
pub struct QueueReport {
    pub position_ticks: Option<i64>,
    pub is_paused: Option<bool>,
    pub audio_stream_index: Option<i32>,
    pub subtitle_stream_index: Option<i32>,
    pub play_method: Option<String>,
    pub media_source_id: Option<String>,
    pub volume_level: Option<i32>,
    pub repeat_mode: Option<String>,
}

/// The reported value where there is one, else the stored one.
pub open spec fn or_else<T>(reported: Option<T>, stored: Option<T>) -> Option<T> {
    if reported is Some {
        reported
    } else {
        stored
    }
}

/// The text of an optional string.
pub open spec fn text_of(v: Option<String>) -> Option<Seq<char>> {
    match v {
        Some(s) => Some(s@),
        None => None,
    }
}

/// The play state a report gives: `Paused` when it says paused, else
/// `Playing`.
pub open spec fn reported_play_state(is_paused: Option<bool>) -> Seq<char> {
    if is_paused == Some(true) {
        "Paused"@
    } else {
        "Playing"@
    }
}

/// Whether `e` is the entry a report `u` upserts over `old` (none: a new
/// entry): every field the report gives wins, the others are kept, and the
/// play state follows the report.
pub open spec fn is_upserted(e: QueueEntry, old: Option<QueueEntry>, u: QueueReport) -> bool {
    let stored = match old {
        Some(o) => o,
        None => QueueEntry {
            position_ticks: None,
            is_paused: None,
            play_state: None,
            audio_stream_index: None,
            subtitle_stream_index: None,
            play_method: None,
            media_source_id: None,
            volume_level: None,
            repeat_mode: None,
        },
    };
    &&& e.position_ticks == or_else(u.position_ticks, stored.position_ticks)
    &&& e.is_paused == or_else(u.is_paused, stored.is_paused)
    &&& text_of(e.play_state) == Some(reported_play_state(u.is_paused))
    &&& e.audio_stream_index == or_else(u.audio_stream_index, stored.audio_stream_index)
    &&& e.subtitle_stream_index == or_else(u.subtitle_stream_index, stored.subtitle_stream_index)
    &&& text_of(e.play_method) == or_else(text_of(u.play_method), text_of(stored.play_method))
    &&& text_of(e.media_source_id) == or_else(text_of(u.media_source_id), text_of(stored.media_source_id))
    &&& e.volume_level == or_else(u.volume_level, stored.volume_level)
    &&& text_of(e.repeat_mode) == or_else(text_of(u.repeat_mode), text_of(stored.repeat_mode))
}

fn pick<T>(reported: Option<T>, stored: Option<T>) -> (r: Option<T>)
    ensures
        r == or_else(reported, stored),
{
    match reported {
        Some(v) => Some(v),
        None => stored,
    }
}

fn pick_text(reported: Option<String>, stored: Option<String>) -> (r: Option<String>)
    ensures
        text_of(r) == or_else(text_of(reported), text_of(stored)),
{
    match reported {
        Some(v) => Some(v),
        None => stored,
    }
}

/// The queue entry after a report is merged into the stored one (or into
/// nothing), as `is_upserted` states.
pub fn upsert_queue_entry(old: Option<QueueEntry>, report: QueueReport) -> (r: QueueEntry)
    ensures
        is_upserted(r, old, report),
{
    let play_state = match report.is_paused {
        Some(true) => owned("Paused"),
        _ => owned("Playing"),
    };
    let stored = match old {
        Some(o) => o,
        None => QueueEntry {
            position_ticks: None,
            is_paused: None,
            play_state: None,
            audio_stream_index: None,
            subtitle_stream_index: None,
            play_method: None,
            media_source_id: None,
            volume_level: None,
            repeat_mode: None,
        },
    };
    QueueEntry {
        position_ticks: pick(report.position_ticks, stored.position_ticks),
        is_paused: pick(report.is_paused, stored.is_paused),
        play_state: Some(play_state),
        audio_stream_index: pick(report.audio_stream_index, stored.audio_stream_index),
        subtitle_stream_index: pick(report.subtitle_stream_index, stored.subtitle_stream_index),
        play_method: pick_text(report.play_method, stored.play_method),
        media_source_id: pick_text(report.media_source_id, stored.media_source_id),
        volume_level: pick(report.volume_level, stored.volume_level),
        repeat_mode: pick_text(report.repeat_mode, stored.repeat_mode),
    }
}

/// What a session's play state needs to know of the first media source of
/// the item it plays.
pub struct SourceSummary {
    pub id: String,
    pub has_transcoding_url: bool,
    pub is_remote: bool,
}

/// The play state a session shows for its queue entry.
pub struct RuntimePlayState {
    pub position_ticks: i64,
    pub can_seek: bool,
    pub is_paused: bool,
    pub is_muted: bool,
    pub volume_level: i32,
    pub play_method: String,
    pub repeat_mode: String,
    pub media_source_id: String,
    pub audio_stream_index: Option<i32>,
    pub subtitle_stream_index: Option<i32>,
}

/// A stored text that counts: present and not blank.
pub open spec fn given(v: Option<String>) -> bool {
    v is Some && !is_blank(v->0@)
}

/// The media source a session plays: the stored one, else the item's first
/// source, else `mediasource_` and the item's id.
pub open spec fn runtime_source_id(stored: Option<String>, first: Option<SourceSummary>, item_id: Seq<char>) -> Seq<
    char,
> {
    if given(stored) {
        stored->0@
    } else if first is Some {
        first->0.id@
    } else {
        "mediasource_"@ + item_id
    }
}

/// How a session plays: the stored method, else `Transcode` for a first
/// source with a transcoding address, `DirectStream` for a remote one and
/// `DirectPlay` otherwise.
pub open spec fn runtime_method(stored: Option<String>, first: Option<SourceSummary>) -> Seq<char> {
    if given(stored) {
        stored->0@
    } else if first is Some && first->0.has_transcoding_url {
        "Transcode"@
    } else if first is Some && first->0.is_remote {
        "DirectStream"@
    } else {
        "DirectPlay"@
    }
}

/// Whether `s` is the play state shown for `entry` of an item with id
/// `item_id` whose first source is `first`: position 0, not paused and
/// volume 100 when not stored; seekable and not muted; repeat mode
/// `RepeatNone` when none is stored.
pub open spec fn shows_entry(s: RuntimePlayState, entry: QueueEntry, first: Option<SourceSummary>, item_id: Seq<char>) -> bool {
    &&& s.position_ticks == (match entry.position_ticks {
        Some(p) => p,
        None => 0,
    })
    &&& s.can_seek && !s.is_muted
    &&& s.is_paused == (entry.is_paused == Some(true))
    &&& s.volume_level == (match entry.volume_level {
        Some(v) => v,
        None => 100,
    })
    &&& s.play_method@ == runtime_method(entry.play_method, first)
    &&& s.repeat_mode@ == (if given(entry.repeat_mode) {
        entry.repeat_mode->0@
    } else {
        "RepeatNone"@
    })
    &&& s.media_source_id@ == runtime_source_id(entry.media_source_id, first, item_id)
    &&& s.audio_stream_index == entry.audio_stream_index
    &&& s.subtitle_stream_index == entry.subtitle_stream_index
}

fn given_text(v: Option<String>) -> (r: Option<String>)
    ensures
        given(v) ==> r == v,
        !given(v) ==> r is None,
{
    match v {
        Some(s) => if is_blank_str(s.as_str()) {
            None
        } else {
            Some(s)
        },
        None => None,
    }
}

/// The play state a session shows for its queue entry (see `shows_entry`).
pub fn runtime_play_state(entry: QueueEntry, first_source: Option<SourceSummary>, item_id: &str) -> (r:
    RuntimePlayState)
    ensures
        shows_entry(r, entry, first_source, item_id@),
{
    let media_source_id = match given_text(entry.media_source_id) {
        Some(s) => s,
        None => match &first_source {
            Some(src) => src.id.clone(),
            None => {
                let mut id = owned("mediasource_");
                id.append(item_id);
                id
            },
        },
    };
    let play_method = match given_text(entry.play_method) {
        Some(s) => s,
        None => match &first_source {
            Some(src) => if src.has_transcoding_url {
                owned("Transcode")
            } else if src.is_remote {
                owned("DirectStream")
            } else {
                owned("DirectPlay")
            },
            None => owned("DirectPlay"),
        },
    };
    let repeat_mode = match given_text(entry.repeat_mode) {
        Some(s) => s,
        None => owned("RepeatNone"),
    };
    RuntimePlayState {
        position_ticks: match entry.position_ticks {
            Some(p) => p,
            None => 0,
        },
        can_seek: true,
        is_paused: match entry.is_paused {
            Some(b) => b,
            None => false,
        },
        is_muted: false,
        volume_level: match entry.volume_level {
            Some(v) => v,
            None => 100,
        },
        play_method,
        repeat_mode,
        media_source_id,
        audio_stream_index: entry.audio_stream_index,
        subtitle_stream_index: entry.subtitle_stream_index,
    }
}

/// The playlist entry id of the item a session plays: the stored one, else
/// the item's id.
pub fn playlist_item_id(stored: Option<String>, item_id: &str) -> (r: String)
    ensures
        r@ == (match stored {
            Some(s) => s@,
            None => item_id@,
        }),
{
    match stored {
        Some(s) => s,
        None => owned(item_id),
    }
}

/// What a session shows of what it plays: the play state of its queue
/// entry and the queue, one entry for the item (its id and playlist entry id).
pub struct SessionRuntime {
    pub play_state: RuntimePlayState,
    /// (item id, playlist entry id) of each queued item.
    pub now_playing_queue: Vec<(String, String)>,
}

/// What a session shows of what it plays: nothing when it has no queue
/// entry; else the entry's play state (as `shows_entry` states) and a queue
/// of the one item, under its stored playlist entry id or else its own id.
pub fn session_runtime(
    entry: Option<QueueEntry>,
    stored_playlist_item_id: Option<String>,
    first_source: Option<SourceSummary>,
    item_id: &str,
) -> (r: Option<SessionRuntime>)
    ensures
        r is None <==> entry is None,
        r matches Some(s) ==> {
            &&& shows_entry(s.play_state, entry->0, first_source, item_id@)
            &&& s.now_playing_queue@.len() == 1
            &&& s.now_playing_queue@[0].0@ == item_id@
            &&& s.now_playing_queue@[0].1@ == (match stored_playlist_item_id {
                Some(p) => p@,
                None => item_id@,
            })
        },
{
    match entry {
        None => None,
        Some(e) => {
            let play_state = runtime_play_state(e, first_source, item_id);
            let queue = vec![(owned(item_id), playlist_item_id(stored_playlist_item_id, item_id))];
            Some(SessionRuntime { play_state, now_playing_queue: queue })
        },
    }
}

/// A playback report of an item from a session records the user's play
/// state exactly when it changes the session's now-playing queue and is not
/// a ping: `Started` and `Progress` (which update the queue) and `Stopped`
/// (which clears it) all record it, and a report that names no item never
/// does.
pub proof fn law_play_state_follows_queue_reports(event: Seq<char>, has_item: bool, session: Seq<char>)
    requires
        !is_blank(session),
    ensures
        records_play_state_of(event, has_item) <==> (queue_change_of(event, has_item, Some(session))
            != QueueChange::Keep && event != "Ping"@),
        records_play_state_of(event, has_item) ==> has_item,
        queue_change_of(event, has_item, Some(session)) == QueueChange::Remove <==> (has_item && event == "Stopped"@),
{
    reveal_strlit("Ping");
    reveal_strlit("Started");
    reveal_strlit("Progress");
    reveal_strlit("Stopped");
    assert("Ping"@.len() == 4);
    assert("Started"@.len() == 7);
    assert("Progress"@.len() == 8);
    assert("Stopped"@.len() == 7);
    if event == "Stopped"@ {
        assert(event[2] != "Started"@[2]);
    }
}

} // verus!
