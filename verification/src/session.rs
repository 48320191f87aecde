//! Remote-control commands sent to a playback session: what each command
//! does to the play queue and to the stored session summary.

use vstd::prelude::*;
use crate::json::{as_boolean, as_int, field, first_field, key_views, JsonDoc, JsonFields, JsonScalar};
use crate::text::{ascii_lower_seq, is_blank, is_blank_str, owned, to_ascii_lowercase, trim, trim_seq, str_eq};

verus! {

/// The play-state text stored in a session summary.
#[derive(Clone, Copy, Debug, PartialEq, Eq, Structural)]
pub enum PlayStateText {
    Paused,
    Playing,
    Stopped,
}

impl PlayStateText {
    pub fn text(&self) -> (r: &'static str)
        ensures
            r@ == play_state_text(*self),
    {
        match self {
            PlayStateText::Paused => "Paused",
            PlayStateText::Playing => "Playing",
            PlayStateText::Stopped => "Stopped",
        }
    }
}

pub open spec fn play_state_text(p: PlayStateText) -> Seq<char> {
    match p {
        PlayStateText::Paused => "Paused"@,
        PlayStateText::Playing => "Playing"@,
        PlayStateText::Stopped => "Stopped"@,
    }
}

/// What a command does to the session's play queue.
#[derive(Clone, Copy, Debug, PartialEq, Eq, Structural)]
pub enum QueueAction {
    /// Leave the queue as it is.
    Keep,
    /// Set the paused flag (and the matching play state).
    SetPaused(bool),
    /// Remove the session's queue.
    Clear,
    /// Move to the given position.
    Seek(i64),
    /// Flip the paused flag (and the matching play state).
    TogglePaused,
}

/// One change to the session summary.
#[derive(Debug)]
pub enum SummaryEdit {
    IsPaused(bool),
    State(PlayStateText),
    PositionTicks(i64),
    AudioStreamIndex(i64),
    SubtitleStreamIndex(i64),
    VolumeLevel(i64),
    IsMuted(bool),
    LastMessageHeader(String),
    LastMessageText(String),
    /// The time the command is applied.
    LastMessageDate,
    /// `AdditionalUsers` becomes its current list (empty when it is not a
    /// list) followed by the given user, if any.
    AdditionalUsers(Option<String>),
}

/// `SummaryEdit` with texts as character sequences.
pub enum SummaryEditView {
    IsPaused(bool),
    State(PlayStateText),
    PositionTicks(i64),
    AudioStreamIndex(i64),
    SubtitleStreamIndex(i64),
    VolumeLevel(i64),
    IsMuted(bool),
    LastMessageHeader(Seq<char>),
    LastMessageText(Seq<char>),
    LastMessageDate,
    AdditionalUsers(Option<Seq<char>>),
}

impl View for SummaryEdit {
    type V = SummaryEditView;

    open spec fn view(&self) -> SummaryEditView {
        match self {
            SummaryEdit::IsPaused(b) => SummaryEditView::IsPaused(*b),
            SummaryEdit::State(s) => SummaryEditView::State(*s),
            SummaryEdit::PositionTicks(n) => SummaryEditView::PositionTicks(*n),
            SummaryEdit::AudioStreamIndex(n) => SummaryEditView::AudioStreamIndex(*n),
            SummaryEdit::SubtitleStreamIndex(n) => SummaryEditView::SubtitleStreamIndex(*n),
            SummaryEdit::VolumeLevel(n) => SummaryEditView::VolumeLevel(*n),
            SummaryEdit::IsMuted(b) => SummaryEditView::IsMuted(*b),
            SummaryEdit::LastMessageHeader(s) => SummaryEditView::LastMessageHeader(s@),
            SummaryEdit::LastMessageText(s) => SummaryEditView::LastMessageText(s@),
            SummaryEdit::LastMessageDate => SummaryEditView::LastMessageDate,
            SummaryEdit::AdditionalUsers(u) => SummaryEditView::AdditionalUsers(
                match u {
                    Some(s) => Some(s@),
                    None => None,
                },
            ),
        }
    }
}

/// What the stored session summary holds that a command reads.
pub struct SummaryState {
    /// Whether the summary is a JSON object; only an object is edited.
    pub is_object: bool,
    /// `IsPaused`, when it is a boolean.
    pub is_paused: Option<bool>,
    /// `AdditionalUsers`, when it is a list: each entry's text, `None` for
    /// an entry that is not a string.
    pub additional_users: Option<Vec<Option<String>>>,
}

/// The effect of a command: on the queue, then the summary edits in order.
pub struct CommandPlan {
    pub queue: QueueAction,
    pub edits: Vec<SummaryEdit>,
}

pub open spec fn edit_views(e: Seq<SummaryEdit>) -> Seq<SummaryEditView> {
    e.map_values(|x: SummaryEdit| x@)
}

pub open spec fn opt_text(o: Option<String>) -> Option<Seq<char>> {
    match o {
        Some(s) => Some(s@),
        None => None,
    }
}

/// A string value's text.
pub open spec fn as_text(v: Option<JsonScalar>) -> Option<Seq<char>> {
    match v {
        Some(JsonScalar::Str(s)) => Some(s@),
        _ => None,
    }
}

/// A string value that is not blank.
pub open spec fn non_blank_text(v: Option<JsonScalar>) -> Option<Seq<char>> {
    match as_text(v) {
        Some(t) => if is_blank(t) {
            None
        } else {
            Some(t)
        },
        None => None,
    }
}

pub open spec fn clamp_i64(v: i64, lo: i64, hi: i64) -> i64 {
    if v < lo {
        lo
    } else if v > hi {
        hi
    } else {
        v
    }
}

/// The user named by a `SetAdditionalUser` payload, trimmed, if not empty.
pub open spec fn additional_user(payload: Seq<(String, JsonScalar)>) -> Option<Seq<char>> {
    match as_text(first_field(payload, seq!["UserId"@, "userId"@])) {
        Some(t) => if trim_seq(t).len() == 0 {
            None
        } else {
            Some(trim_seq(t))
        },
        None => None,
    }
}

/// Whether `user` is among the listed users.
pub open spec fn lists_user(users: Option<Vec<Option<String>>>, user: Seq<char>) -> bool {
    match users {
        Some(v) => exists|i: int| 0 <= i < v@.len() && opt_text(v@[i]) == Some(user),
        None => false,
    }
}

/// The effect of a remote-control command. The command is matched after
/// trimming and ASCII lower-casing; the summary is edited only when it is
/// an object.
pub open spec fn command_plan(cmd: Seq<char>, payload: Seq<(String, JsonScalar)>, summary: SummaryState) -> (
    QueueAction,
    Seq<SummaryEditView>,
) {
    let c = ascii_lower_seq(trim_seq(cmd));
    let obj = summary.is_object;
    if c == "pause"@ {
        (
            QueueAction::SetPaused(true),
            if obj {
                seq![SummaryEditView::IsPaused(true), SummaryEditView::State(PlayStateText::Paused)]
            } else {
                seq![]
            },
        )
    } else if c == "unpause"@ || c == "play"@ {
        (
            QueueAction::SetPaused(false),
            if obj {
                seq![SummaryEditView::IsPaused(false), SummaryEditView::State(PlayStateText::Playing)]
            } else {
                seq![]
            },
        )
    } else if c == "stop"@ {
        (
            QueueAction::Clear,
            if obj {
                seq![SummaryEditView::State(PlayStateText::Stopped), SummaryEditView::PositionTicks(0)]
            } else {
                seq![]
            },
        )
    } else if c == "seek"@ {
        match as_int(
            first_field(
                payload,
                seq!["SeekPositionTicks"@, "PositionTicks"@, "seekPositionTicks"@, "positionTicks"@],
            ),
        ) {
            Some(p) => (
                QueueAction::Seek(p),
                if obj {
                    seq![SummaryEditView::PositionTicks(p)]
                } else {
                    seq![]
                },
            ),
            None => (QueueAction::Keep, seq![]),
        }
    } else if c == "playpause"@ || c == "togglepause"@ {
        let next = match summary.is_paused {
            Some(b) => !b,
            None => true,
        };
        (
            QueueAction::TogglePaused,
            if obj {
                seq![
                    SummaryEditView::IsPaused(next),
                    SummaryEditView::State(
                        if next {
                            PlayStateText::Paused
                        } else {
                            PlayStateText::Playing
                        },
                    ),
                ]
            } else {
                seq![]
            },
        )
    } else if c == "setaudiostreamindex"@ {
        match as_int(
            first_field(payload, seq!["Index"@, "AudioStreamIndex"@, "index"@, "audioStreamIndex"@]),
        ) {
            Some(i) if obj => (QueueAction::Keep, seq![SummaryEditView::AudioStreamIndex(i)]),
            _ => (QueueAction::Keep, seq![]),
        }
    } else if c == "setsubtitlestreamindex"@ {
        match as_int(
            first_field(
                payload,
                seq!["Index"@, "SubtitleStreamIndex"@, "index"@, "subtitleStreamIndex"@],
            ),
        ) {
            Some(i) if obj => (QueueAction::Keep, seq![SummaryEditView::SubtitleStreamIndex(i)]),
            _ => (QueueAction::Keep, seq![]),
        }
    } else if c == "setvolume"@ {
        match as_int(first_field(payload, seq!["Volume"@, "VolumeLevel"@, "volume"@, "volumeLevel"@])) {
            Some(l) if obj => (
                QueueAction::Keep,
                seq![
                    SummaryEditView::VolumeLevel(clamp_i64(l, 0, 100)),
                    SummaryEditView::IsMuted(l <= 0),
                ],
            ),
            _ => (QueueAction::Keep, seq![]),
        }
    } else if c == "displaymessage"@ {
        if obj {
            let h = non_blank_text(first_field(payload, seq!["Header"@, "header"@]));
            let t = non_blank_text(first_field(payload, seq!["Text"@, "text"@, "Message"@, "message"@]));
            let he = match h {
                Some(x) => seq![SummaryEditView::LastMessageHeader(x)],
                None => seq![],
            };
            let te = match t {
                Some(x) => seq![SummaryEditView::LastMessageText(x)],
                None => seq![],
            };
            (QueueAction::Keep, he + te + seq![SummaryEditView::LastMessageDate])
        } else {
            (QueueAction::Keep, seq![])
        }
    } else if c == "setadditionaluser"@ {
        match additional_user(payload) {
            Some(u) if obj => (
                QueueAction::Keep,
                seq![
                    SummaryEditView::AdditionalUsers(
                        if lists_user(summary.additional_users, u) {
                            None
                        } else {
                            Some(u)
                        },
                    ),
                ],
            ),
            _ => (QueueAction::Keep, seq![]),
        }
    } else {
        (QueueAction::Keep, seq![])
    }
}

fn int_of(v: &Option<JsonScalar>) -> (r: Option<i64>)
    ensures
        r == as_int(*v),
{
    match v {
        Some(JsonScalar::Int(n)) => Some(*n),
        _ => None,
    }
}

fn non_blank_of(v: &Option<JsonScalar>) -> (r: Option<String>)
    ensures
        opt_text(r) == non_blank_text(*v),
{
    match v {
        Some(JsonScalar::Str(s)) => if is_blank_str(s.as_str()) {
            None
        } else {
            Some(s.clone())
        },
        _ => None,
    }
}

fn lists_user_in(v: &Vec<Option<String>>, user: &str) -> (r: bool)
    ensures
        r == exists|i: int| 0 <= i < v@.len() && opt_text(v@[i]) == Some(user@),
{
    let n = v.len();
    let mut i: usize = 0;
    while i < n
        invariant
            i <= n,
            n == v@.len(),
            forall|k: int| 0 <= k < i ==> opt_text(v@[k]) != Some(user@),
        decreases n - i,
    {
        match &v[i] {
            Some(s) => {
                if str_eq(s.as_str(), user) {
                    assert(opt_text(v@[i as int]) == Some(user@));
                    return true;
                }
            },
            None => {},
        }
        i = i + 1;
    }
    false
}

fn lists_user_exec(users: &Option<Vec<Option<String>>>, user: &str) -> (r: bool)
    ensures
        r == lists_user(*users, user@),
{
    match users {
        Some(v) => lists_user_in(v, user),
        None => false,
    }
}

/// The effect of a remote-control command on the queue and the summary,
/// as `command_plan` states.
pub fn plan_session_command(command: &str, payload: &JsonFields, summary: &SummaryState) -> (r: CommandPlan)
    ensures
        (r.queue, edit_views(r.edits@)) == command_plan(command@, payload.entries@, *summary),
{
    let c = to_ascii_lowercase(trim(command));
    let c = c.as_str();
    let obj = summary.is_object;
    let mut edits: Vec<SummaryEdit> = Vec::new();
    let queue;
    if str_eq(c, "pause") {
        queue = QueueAction::SetPaused(true);
        if obj {
            edits.push(SummaryEdit::IsPaused(true));
            edits.push(SummaryEdit::State(PlayStateText::Paused));
        }
    } else if str_eq(c, "unpause") || str_eq(c, "play") {
        queue = QueueAction::SetPaused(false);
        if obj {
            edits.push(SummaryEdit::IsPaused(false));
            edits.push(SummaryEdit::State(PlayStateText::Playing));
        }
    } else if str_eq(c, "stop") {
        queue = QueueAction::Clear;
        if obj {
            edits.push(SummaryEdit::State(PlayStateText::Stopped));
            edits.push(SummaryEdit::PositionTicks(0));
        }
    } else if str_eq(c, "seek") {
        let keys = ["SeekPositionTicks", "PositionTicks", "seekPositionTicks", "positionTicks"];
        let v = payload.get_first(&keys);
        assert(key_views(keys@) =~= seq!["SeekPositionTicks"@, "PositionTicks"@, "seekPositionTicks"@, "positionTicks"@]);
        match int_of(&v) {
            Some(p) => {
                queue = QueueAction::Seek(p);
                if obj {
                    edits.push(SummaryEdit::PositionTicks(p));
                }
            },
            None => {
                queue = QueueAction::Keep;
            },
        }
    } else if str_eq(c, "playpause") || str_eq(c, "togglepause") {
        queue = QueueAction::TogglePaused;
        let next = match summary.is_paused {
            Some(b) => !b,
            None => true,
        };
        if obj {
            edits.push(SummaryEdit::IsPaused(next));
            edits.push(
                SummaryEdit::State(
                    if next {
                        PlayStateText::Paused
                    } else {
                        PlayStateText::Playing
                    },
                ),
            );
        }
    } else if str_eq(c, "setaudiostreamindex") {
        queue = QueueAction::Keep;
        let keys = ["Index", "AudioStreamIndex", "index", "audioStreamIndex"];
        let v = payload.get_first(&keys);
        assert(key_views(keys@) =~= seq!["Index"@, "AudioStreamIndex"@, "index"@, "audioStreamIndex"@]);
        if let Some(i) = int_of(&v) {
            if obj {
                edits.push(SummaryEdit::AudioStreamIndex(i));
            }
        }
    } else if str_eq(c, "setsubtitlestreamindex") {
        queue = QueueAction::Keep;
        let keys = ["Index", "SubtitleStreamIndex", "index", "subtitleStreamIndex"];
        let v = payload.get_first(&keys);
        assert(key_views(keys@) =~= seq!["Index"@, "SubtitleStreamIndex"@, "index"@, "subtitleStreamIndex"@]);
        if let Some(i) = int_of(&v) {
            if obj {
                edits.push(SummaryEdit::SubtitleStreamIndex(i));
            }
        }
    } else if str_eq(c, "setvolume") {
        queue = QueueAction::Keep;
        let keys = ["Volume", "VolumeLevel", "volume", "volumeLevel"];
        let v = payload.get_first(&keys);
        assert(key_views(keys@) =~= seq!["Volume"@, "VolumeLevel"@, "volume"@, "volumeLevel"@]);
        if let Some(l) = int_of(&v) {
            if obj {
                let level = if l < 0 {
                    0
                } else if l > 100 {
                    100
                } else {
                    l
                };
                edits.push(SummaryEdit::VolumeLevel(level));
                edits.push(SummaryEdit::IsMuted(l <= 0));
            }
        }
    } else if str_eq(c, "displaymessage") {
        queue = QueueAction::Keep;
        if obj {
            let hk = ["Header", "header"];
            let tk = ["Text", "text", "Message", "message"];
            let h = payload.get_first(&hk);
            let t = payload.get_first(&tk);
            assert(key_views(hk@) =~= seq!["Header"@, "header"@]);
            assert(key_views(tk@) =~= seq!["Text"@, "text"@, "Message"@, "message"@]);
            if let Some(x) = non_blank_of(&h) {
                edits.push(SummaryEdit::LastMessageHeader(x));
            }
            if let Some(x) = non_blank_of(&t) {
                edits.push(SummaryEdit::LastMessageText(x));
            }
            edits.push(SummaryEdit::LastMessageDate);
        }
    } else if str_eq(c, "setadditionaluser") {
        queue = QueueAction::Keep;
        let uk = ["UserId", "userId"];
        let u = payload.get_first(&uk);
        assert(key_views(uk@) =~= seq!["UserId"@, "userId"@]);
        if let Some(JsonScalar::Str(raw)) = &u {
            let user = trim(raw.as_str());
            if user.unicode_len() != 0 && obj {
                if lists_user_exec(&summary.additional_users, user) {
                    edits.push(SummaryEdit::AdditionalUsers(None));
                } else {
                    edits.push(SummaryEdit::AdditionalUsers(Some(owned(user))));
                }
            }
        }
    } else {
        queue = QueueAction::Keep;
    }
    let r = CommandPlan { queue, edits };
    assert((r.queue, edit_views(r.edits@)) =~= command_plan(command@, payload.entries@, *summary));
    r
}


/// The paused flag of a summary after its edits, in order.
pub open spec fn paused_after(paused: Option<bool>, edits: Seq<SummaryEditView>) -> Option<bool>
    decreases edits.len(),
{
    if edits.len() == 0 {
        paused
    } else {
        match edits.last() {
            SummaryEditView::IsPaused(b) => Some(b),
            _ => paused_after(paused, edits.drop_last()),
        }
    }
}

/// Two toggle commands in a row leave the stored summary paused as it was
/// (for a summary that records a paused flag): the first command's edits
/// give the state the second command sees, and the second's edits restore
/// the flag; both toggle the queue.
pub proof fn law_two_toggles_restore(
    cmd: Seq<char>,
    payload: Seq<(String, JsonScalar)>,
    s: SummaryState,
)
    requires
        ascii_lower_seq(trim_seq(cmd)) == "togglepause"@ || ascii_lower_seq(trim_seq(cmd)) == "playpause"@,
        s.is_object,
        s.is_paused is Some,
    ensures
        ({
            let first = command_plan(cmd, payload, s);
            let mid = SummaryState { is_paused: paused_after(s.is_paused, first.1), ..s };
            let second = command_plan(cmd, payload, mid);
            &&& first.0 == QueueAction::TogglePaused
            &&& second.0 == QueueAction::TogglePaused
            &&& paused_after(mid.is_paused, second.1) == s.is_paused
        }),
{
    let c = ascii_lower_seq(trim_seq(cmd));
    reveal_strlit("togglepause");
    reveal_strlit("playpause");
    reveal_strlit("pause");
    reveal_strlit("unpause");
    reveal_strlit("play");
    reveal_strlit("stop");
    reveal_strlit("seek");
    assert(c != "pause"@) by {
        if c == "togglepause"@ { assert(c.len() != "pause"@.len()); } else { assert(c[0] != "pause"@[0] || c.len() != 5); }
    }
    assert(c != "unpause"@) by {
        if c == "togglepause"@ { assert(c.len() != "unpause"@.len()); } else { assert(c.len() != "unpause"@.len()); }
    }
    assert(c != "play"@) by {
        assert(c.len() != "play"@.len());
    }
    assert(c != "stop"@) by {
        assert(c.len() != "stop"@.len());
    }
    assert(c != "seek"@) by {
        assert(c.len() != "seek"@.len());
    }
    let first = command_plan(cmd, payload, s);
    let b = s.is_paused->0;
    assert(first.1.len() == 2);
    assert(first.1 == seq![
        SummaryEditView::IsPaused(!b),
        SummaryEditView::State(if !b { PlayStateText::Paused } else { PlayStateText::Playing }),
    ]);
    assert(paused_after(s.is_paused, first.1) == Some(!b)) by {
        reveal_with_fuel(paused_after, 3);
        assert(first.1.drop_last() =~= seq![SummaryEditView::IsPaused(!b)]);
    }
    let mid = SummaryState { is_paused: Some(!b), ..s };
    let second = command_plan(cmd, payload, mid);
    assert(second.1 == seq![
        SummaryEditView::IsPaused(b),
        SummaryEditView::State(if b { PlayStateText::Paused } else { PlayStateText::Playing }),
    ]);
    assert(paused_after(mid.is_paused, second.1) == Some(b)) by {
        reveal_with_fuel(paused_after, 3);
        assert(second.1.drop_last() =~= seq![SummaryEditView::IsPaused(b)]);
    }
}

/// Toggling pause twice returns the summary's paused flag to where it was:
/// the first toggle stores `!b`, and a toggle seen from `!b` stores `b`.
pub proof fn law_toggle_twice_restores(
    cmd: Seq<char>,
    payload: Seq<(String, JsonScalar)>,
    s1: SummaryState,
    s2: SummaryState,
    b: bool,
)
    requires
        ascii_lower_seq(trim_seq(cmd)) == "togglepause"@,
        s1.is_object && s1.is_paused == Some(b),
        s2.is_object && s2.is_paused == Some(!b),
    ensures
        command_plan(cmd, payload, s1).1[0] == SummaryEditView::IsPaused(!b),
        command_plan(cmd, payload, s2).1[0] == SummaryEditView::IsPaused(b),
        command_plan(cmd, payload, s1).0 == QueueAction::TogglePaused,
{
    let c = ascii_lower_seq(trim_seq(cmd));
    reveal_strlit("togglepause");
    reveal_strlit("pause");
    reveal_strlit("unpause");
    reveal_strlit("play");
    reveal_strlit("stop");
    reveal_strlit("seek");
    reveal_strlit("playpause");
    assert("togglepause"@.len() == 11);
    assert(c != "pause"@);
    assert(c != "unpause"@);
    assert(c != "play"@);
    assert(c != "stop"@);
    assert(c != "seek"@);
    assert(c != "playpause"@);
}

/// A volume command stores a level within 0..=100, and the session is muted
/// exactly when that level is 0.
pub proof fn law_volume_in_range(cmd: Seq<char>, payload: Seq<(String, JsonScalar)>, s: SummaryState)
    requires
        ascii_lower_seq(trim_seq(cmd)) == "setvolume"@,
        s.is_object,
        as_int(first_field(payload, seq!["Volume"@, "VolumeLevel"@, "volume"@, "volumeLevel"@])) is Some,
    ensures
        ({
            let e = command_plan(cmd, payload, s).1;
            &&& e.len() == 2
            &&& e[0] matches SummaryEditView::VolumeLevel(v) && 0 <= v <= 100
            &&& e[1] matches SummaryEditView::IsMuted(m) && (m <==> e[0]->VolumeLevel_0 == 0)
        }),
{
    let c = ascii_lower_seq(trim_seq(cmd));
    reveal_strlit("setvolume");
    assert("setvolume"@.len() == 9);

    reveal_strlit("pause");
    reveal_strlit("unpause");
    reveal_strlit("play");
    reveal_strlit("stop");
    reveal_strlit("seek");
    reveal_strlit("playpause");
    reveal_strlit("togglepause");
    reveal_strlit("setaudiostreamindex");
    reveal_strlit("setsubtitlestreamindex");
    assert(c != "pause"@);
    assert(c != "unpause"@);
    assert(c != "play"@);
    assert(c != "stop"@);
    assert(c != "seek"@);
    assert("setvolume"@[0] == 's');
    assert("playpause"@[0] == 'p');
    assert(c != "playpause"@);
    assert(c != "togglepause"@);
    assert(c != "setaudiostreamindex"@);
    assert(c != "setsubtitlestreamindex"@);
}

/// Adding a user who is already listed adds nobody.
pub proof fn law_additional_user_once(
    cmd: Seq<char>,
    payload: Seq<(String, JsonScalar)>,
    s: SummaryState,
    user: Seq<char>,
)
    requires
        ascii_lower_seq(trim_seq(cmd)) == "setadditionaluser"@,
        s.is_object,
        additional_user(payload) == Some(user),
        lists_user(s.additional_users, user),
    ensures
        command_plan(cmd, payload, s).1 == seq![SummaryEditView::AdditionalUsers(None)],
{
    let c = ascii_lower_seq(trim_seq(cmd));
    reveal_strlit("setadditionaluser");
    assert("setadditionaluser"@.len() == 17);
    reveal_strlit("pause");
    reveal_strlit("unpause");
    reveal_strlit("play");
    reveal_strlit("stop");
    reveal_strlit("seek");
    reveal_strlit("playpause");
    reveal_strlit("togglepause");
    reveal_strlit("setaudiostreamindex");
    reveal_strlit("setsubtitlestreamindex");
    reveal_strlit("setvolume");
    reveal_strlit("displaymessage");
    assert(c != "pause"@);
    assert(c != "unpause"@);
    assert(c != "play"@);
    assert(c != "stop"@);
    assert(c != "seek"@);
    assert(c != "playpause"@);
    assert(c != "togglepause"@);
    assert(c != "setaudiostreamindex"@);
    assert(c != "setsubtitlestreamindex"@);
    assert(c != "setvolume"@);
    assert(c != "displaymessage"@);
}

/// The name of a queued remote command: the payload's `Name` (else
/// `name`) when it is a non-blank string, else the stored command.
pub open spec fn command_name(payload: JsonDoc, command: Seq<char>) -> Seq<char> {
    match payload {
        JsonDoc::Object(f) => match first_field(f.entries@, seq!["Name"@, "name"@]) {
            Some(JsonScalar::Str(s)) => if !is_blank(s@) { s@ } else { command },
            _ => command,
        },
        _ => command,
    }
}

/// The field of a command's payload that holds its arguments: `Arguments`
/// when present, else `arguments`; with neither, the arguments are an
/// empty object.
pub open spec fn arguments_field(payload: JsonDoc) -> Option<Seq<char>> {
    match payload {
        JsonDoc::Object(f) => if field(f.entries@, "Arguments"@) is Some {
            Some("Arguments"@)
        } else if field(f.entries@, "arguments"@) is Some {
            Some("arguments"@)
        } else {
            None
        },
        _ => None,
    }
}

/// The name and the arguments field of a queued remote command, as
/// `command_name` and `arguments_field` state.
pub fn session_command_fields(payload: &JsonDoc, command: &str) -> (r: (String, Option<&'static str>))
    ensures
        r.0@ == command_name(*payload, command@),
        match r.1 {
            Some(k) => arguments_field(*payload) == Some(k@),
            None => arguments_field(*payload) is None,
        },
{
    match payload {
        JsonDoc::Object(f) => {
            let keys: Vec<&str> = vec!["Name", "name"];
            let named = f.get_first(keys.as_slice());
            assert(key_views(keys@) =~= seq!["Name"@, "name"@]);
            let name = match named {
                Some(JsonScalar::Str(s)) => if !is_blank_str(s.as_str()) { s } else { String::from_str(command) },
                _ => String::from_str(command),
            };
            let args = if f.get("Arguments").is_some() {
                Some("Arguments")
            } else if f.get("arguments").is_some() {
                Some("arguments")
            } else {
                None
            };
            (name, args)
        },
        _ => (String::from_str(command), None),
    }
}

/// A summary that is not a JSON object is never edited: whatever the
/// command, its plan holds no summary edits.
pub proof fn law_non_object_summary_untouched(cmd: Seq<char>, payload: Seq<(String, JsonScalar)>, summary: SummaryState)
    requires
        !summary.is_object,
    ensures
        command_plan(cmd, payload, summary).1.len() == 0,
{
}

/// Who may read a session's pending commands.
#[derive(Clone, Copy, Debug, PartialEq, Eq, Structural)]
pub enum CommandAccess {
    /// The session does not exist: there is nothing to read.
    NoSession,
    /// The requester neither owns the session nor is an administrator.
    Denied,
    /// The requester may read them.
    Allowed,
}

/// Who may read a session's pending commands: nothing to read without a
/// session; its owner or an administrator may read them.
pub fn session_commands_access(owner: Option<u128>, user_id: u128, is_admin: bool) -> (r: CommandAccess)
    ensures
        r == match owner {
            None => CommandAccess::NoSession,
            Some(o) => if is_admin || o == user_id {
                CommandAccess::Allowed
            } else {
                CommandAccess::Denied
            },
        },
{
    match owner {
        None => CommandAccess::NoSession,
        Some(o) => if is_admin || o == user_id {
            CommandAccess::Allowed
        } else {
            CommandAccess::Denied
        },
    }
}

/// A JSON scalar with texts as character sequences.
pub enum ScalarView {
    Str(Seq<char>),
    Int(i64),
    Bool(bool),
    Other,
}

pub open spec fn scalar_view(v: JsonScalar) -> ScalarView {
    match v {
        JsonScalar::Str(s) => ScalarView::Str(s@),
        JsonScalar::Int(n) => ScalarView::Int(n),
        JsonScalar::Bool(b) => ScalarView::Bool(b),
        JsonScalar::Other => ScalarView::Other,
    }
}

/// The value of a summary field, as a scalar.
pub open spec fn field_view(entries: Seq<(String, JsonScalar)>, k: Seq<char>) -> Option<ScalarView> {
    match field(entries, k) {
        Some(v) => Some(scalar_view(v)),
        None => None,
    }
}

/// The summary field an edit writes (`AdditionalUsers`, a list, is not a
/// scalar field).
pub open spec fn edit_key(e: SummaryEditView) -> Option<Seq<char>> {
    match e {
        SummaryEditView::IsPaused(_) => Some("IsPaused"@),
        SummaryEditView::State(_) => Some("State"@),
        SummaryEditView::PositionTicks(_) => Some("PositionTicks"@),
        SummaryEditView::AudioStreamIndex(_) => Some("AudioStreamIndex"@),
        SummaryEditView::SubtitleStreamIndex(_) => Some("SubtitleStreamIndex"@),
        SummaryEditView::VolumeLevel(_) => Some("VolumeLevel"@),
        SummaryEditView::IsMuted(_) => Some("IsMuted"@),
        SummaryEditView::LastMessageHeader(_) => Some("LastMessageHeader"@),
        SummaryEditView::LastMessageText(_) => Some("LastMessageText"@),
        SummaryEditView::LastMessageDate => Some("LastMessageDate"@),
        SummaryEditView::AdditionalUsers(_) => None,
    }
}

/// The value an edit writes; `now` is the time the command is applied.
pub open spec fn edit_value(e: SummaryEditView, now: Seq<char>) -> ScalarView {
    match e {
        SummaryEditView::IsPaused(b) => ScalarView::Bool(b),
        SummaryEditView::State(st) => ScalarView::Str(play_state_text(st)),
        SummaryEditView::PositionTicks(n) => ScalarView::Int(n),
        SummaryEditView::AudioStreamIndex(n) => ScalarView::Int(n),
        SummaryEditView::SubtitleStreamIndex(n) => ScalarView::Int(n),
        SummaryEditView::VolumeLevel(n) => ScalarView::Int(n),
        SummaryEditView::IsMuted(b) => ScalarView::Bool(b),
        SummaryEditView::LastMessageHeader(t) => ScalarView::Str(t),
        SummaryEditView::LastMessageText(t) => ScalarView::Str(t),
        SummaryEditView::LastMessageDate => ScalarView::Str(now),
        SummaryEditView::AdditionalUsers(_) => ScalarView::Other,
    }
}

/// A summary field after the edits, in order: the last edit that writes it
/// decides it, else it stays as stored.
pub open spec fn edited_field(
    entries: Seq<(String, JsonScalar)>,
    edits: Seq<SummaryEditView>,
    now: Seq<char>,
    k: Seq<char>,
) -> Option<ScalarView>
    decreases edits.len(),
{
    if edits.len() == 0 {
        field_view(entries, k)
    } else if edit_key(edits.last()) == Some(k) {
        Some(edit_value(edits.last(), now))
    } else {
        edited_field(entries, edits.drop_last(), now, k)
    }
}

proof fn lemma_field_push(entries: Seq<(String, JsonScalar)>, e: (String, JsonScalar), k: Seq<char>)
    ensures
        field(entries.push(e), k) == match field(entries, k) {
            Some(v) => Some(v),
            None => if e.0@ == k {
                Some(e.1)
            } else {
                None
            },
        },
    decreases entries.len(),
{
    let pushed = entries.push(e);
    if entries.len() > 0 {
        assert(pushed.drop_first() =~= entries.drop_first().push(e));
        assert(pushed[0] == entries[0]);
        lemma_field_push(entries.drop_first(), e, k);
    } else {
        let empty = Seq::<(String, JsonScalar)>::empty();
        assert(pushed.drop_first() =~= empty);
        assert(pushed[0] == e);
        assert(field(empty, k) is None);
        assert(field(entries, k) is None);
    }
}

/// The fields with `key` set to `value` (any entry it had replaced).
fn set_field(entries: Vec<(String, JsonScalar)>, key: &str, value: JsonScalar) -> (r: Vec<(String, JsonScalar)>)
    ensures
        forall|k: Seq<char>|
            #[trigger] field_view(r@, k) == if k == key@ {
                Some(scalar_view(value))
            } else {
                field_view(entries@, k)
            },
{
    let ghost e = entries@;
    let mut out: Vec<(String, JsonScalar)> = Vec::new();
    let n = entries.len();
    let mut rest = entries;
    let mut i: usize = 0;
    while i < n
        invariant
            i <= n,
            n == e.len(),
            rest@ == e,
            field(out@, key@) is None,
            forall|k: Seq<char>| k != key@ ==> #[trigger] field(out@, k) == field(e.take(i as int), k),
        decreases n - i,
    {
        let ghost before = out@;
        assert(e.take(i + 1) =~= e.take(i as int).push(e[i as int]));
        if !str_eq(rest[i].0.as_str(), key) {
            let entry = (rest[i].0.clone(), rest[i].1.duplicate());
            out.push(entry);
            proof {
                assert forall|k: Seq<char>| k != key@ implies #[trigger] field(out@, k) == field(e.take(i + 1), k) by {
                    lemma_field_push(before, entry, k);
                    lemma_field_push(e.take(i as int), e[i as int], k);
                }
                lemma_field_push(before, entry, key@);
            }
        } else {
            proof {
                assert forall|k: Seq<char>| k != key@ implies #[trigger] field(out@, k) == field(e.take(i + 1), k) by {
                    lemma_field_push(e.take(i as int), e[i as int], k);
                }
            }
        }
        i = i + 1;
    }
    assert(e.take(n as int) =~= e);
    let ghost before = out@;
    let entry = (owned(key), value);
    out.push(entry);
    proof {
        assert forall|k: Seq<char>|
            #[trigger] field_view(out@, k) == if k == key@ {
                Some(scalar_view(value))
            } else {
                field_view(e, k)
            } by {
            lemma_field_push(before, entry, k);
        }
    }
    out
}

/// The field and value a summary edit writes, as `edit_key` and
/// `edit_value` state.
fn edit_write(e: &SummaryEdit, now: &str) -> (r: Option<(&'static str, JsonScalar)>)
    ensures
        match r {
            Some((k, v)) => edit_key(e@) == Some(k@) && scalar_view(v) == edit_value(e@, now@),
            None => edit_key(e@) is None,
        },
{
    match e {
        SummaryEdit::IsPaused(b) => Some(("IsPaused", JsonScalar::Bool(*b))),
        SummaryEdit::State(st) => Some(("State", JsonScalar::Str(owned(st.text())))),
        SummaryEdit::PositionTicks(n) => Some(("PositionTicks", JsonScalar::Int(*n))),
        SummaryEdit::AudioStreamIndex(n) => Some(("AudioStreamIndex", JsonScalar::Int(*n))),
        SummaryEdit::SubtitleStreamIndex(n) => Some(("SubtitleStreamIndex", JsonScalar::Int(*n))),
        SummaryEdit::VolumeLevel(n) => Some(("VolumeLevel", JsonScalar::Int(*n))),
        SummaryEdit::IsMuted(b) => Some(("IsMuted", JsonScalar::Bool(*b))),
        SummaryEdit::LastMessageHeader(t) => Some(("LastMessageHeader", JsonScalar::Str(t.clone()))),
        SummaryEdit::LastMessageText(t) => Some(("LastMessageText", JsonScalar::Str(t.clone()))),
        SummaryEdit::LastMessageDate => Some(("LastMessageDate", JsonScalar::Str(owned(now)))),
        SummaryEdit::AdditionalUsers(_) => None,
    }
}

/// A stored summary object's scalar fields after a command's edits, in
/// order, as `edited_field` states (`now` is the time the command is
/// applied; the `AdditionalUsers` list is edited apart).
pub fn apply_summary_edits(fields: JsonFields, edits: &Vec<SummaryEdit>, now: &str) -> (r: JsonFields)
    ensures
        forall|k: Seq<char>|
            #[trigger] field_view(r.entries@, k) == edited_field(
                fields.entries@,
                edits@.map_values(|e: SummaryEdit| e@),
                now@,
                k,
            ),
{
    let ghost ev = edits@.map_values(|e: SummaryEdit| e@);
    let ghost start = fields.entries@;
    let mut cur = fields.entries;
    let n = edits.len();
    let mut i: usize = 0;
    while i < n
        invariant
            i <= n,
            n == edits@.len(),
            ev == edits@.map_values(|e: SummaryEdit| e@),
            forall|k: Seq<char>| #[trigger] field_view(cur@, k) == edited_field(start, ev.take(i as int), now@, k),
        decreases n - i,
    {
        proof {
            assert(ev.take(i + 1).drop_last() =~= ev.take(i as int));
            assert(ev.take(i + 1).last() == edits@[i as int]@);
        }
        match edit_write(&edits[i], now) {
            Some((k, v)) => {
                cur = set_field(cur, k, v);
            },
            None => {},
        }
        i = i + 1;
    }
    assert(ev.take(n as int) =~= ev);
    JsonFields { entries: cur }
}

/// What a command leaves in a stored summary object: `pause` pauses it,
/// `unpause` and `play` resume it, `stop` stops it at position 0,
/// `setvolume` stores the volume within 0..=100 and mutes at 0 or below,
/// and a command it does not know leaves every field as it was.
pub proof fn law_summary_after_command(
    cmd: Seq<char>,
    payload: Seq<(String, JsonScalar)>,
    summary: SummaryState,
    fields: Seq<(String, JsonScalar)>,
    now: Seq<char>,
)
    requires
        summary.is_object,
    ensures
        ({
            let c = ascii_lower_seq(trim_seq(cmd));
            let edits = command_plan(cmd, payload, summary).1;
            &&& c == "pause"@ ==> edited_field(fields, edits, now, "IsPaused"@) == Some(ScalarView::Bool(true))
                && edited_field(fields, edits, now, "State"@) == Some(ScalarView::Str("Paused"@))
            &&& (c == "unpause"@ || c == "play"@) ==> edited_field(fields, edits, now, "IsPaused"@) == Some(
                ScalarView::Bool(false),
            ) && edited_field(fields, edits, now, "State"@) == Some(ScalarView::Str("Playing"@))
            &&& c == "stop"@ ==> edited_field(fields, edits, now, "State"@) == Some(ScalarView::Str("Stopped"@))
                && edited_field(fields, edits, now, "PositionTicks"@) == Some(ScalarView::Int(0))
            &&& (c == "setvolume"@ && as_int(
                first_field(payload, seq!["Volume"@, "VolumeLevel"@, "volume"@, "volumeLevel"@]),
            ) is Some) ==> ({
                let l = as_int(first_field(payload, seq!["Volume"@, "VolumeLevel"@, "volume"@, "volumeLevel"@]))->0;
                &&& edited_field(fields, edits, now, "VolumeLevel"@) == Some(ScalarView::Int(clamp_i64(l, 0, 100)))
                &&& edited_field(fields, edits, now, "IsMuted"@) == Some(ScalarView::Bool(l <= 0))
            })
            &&& edits.len() == 0 ==> forall|k: Seq<char>| #[trigger] edited_field(fields, edits, now, k) == field_view(fields, k)
        }),
{
    let c = ascii_lower_seq(trim_seq(cmd));
    let edits = command_plan(cmd, payload, summary).1;
    reveal_strlit("IsPaused");
    reveal_strlit("State");
    reveal_strlit("PositionTicks");
    reveal_strlit("VolumeLevel");
    reveal_strlit("IsMuted");
    reveal_strlit("pause");
    reveal_strlit("unpause");
    reveal_strlit("play");
    reveal_strlit("stop");
    reveal_strlit("seek");
    reveal_strlit("setvolume");
    reveal_strlit("playpause");
    reveal_strlit("togglepause");
    reveal_with_fuel(edited_field, 3);
    assert("IsPaused"@.len() != "State"@.len());
    assert("PositionTicks"@.len() != "State"@.len());
    assert("VolumeLevel"@.len() != "IsMuted"@.len());
    reveal_strlit("setaudiostreamindex");
    reveal_strlit("setsubtitlestreamindex");
    if c == "pause"@ {
        assert(edits.drop_last() =~= seq![SummaryEditView::IsPaused(true)]);
    }
    if c == "unpause"@ || c == "play"@ {
        assert(c.len() != "pause"@.len());
        assert(edits.drop_last() =~= seq![SummaryEditView::IsPaused(false)]);
    }
    if c == "stop"@ {
        assert(c.len() != "pause"@.len() && c.len() != "unpause"@.len());
        assert(c[0] != "play"@[0]);
        assert(edits.drop_last() =~= seq![SummaryEditView::State(PlayStateText::Stopped)]);
    }
    if c == "setvolume"@ {
        assert(c.len() != "pause"@.len() && c.len() != "unpause"@.len() && c.len() != "play"@.len());
        assert(c.len() != "stop"@.len() && c.len() != "seek"@.len() && c.len() != "togglepause"@.len());
        assert(c[0] != "playpause"@[0]);
        assert(c.len() != "setaudiostreamindex"@.len() && c.len() != "setsubtitlestreamindex"@.len());
    }
}

/// The play queue's paused flag follows the same command as the stored
/// summary: whenever a command sets the queue's paused flag, a summary
/// object is edited to that same flag (and to the matching play state);
/// `pause` pauses the queue and `unpause` or `play` resumes it.
pub proof fn law_queue_pause_agrees_with_summary(
    cmd: Seq<char>,
    payload: Seq<(String, JsonScalar)>,
    s: SummaryState,
)
    ensures
        ({
            let (q, e) = command_plan(cmd, payload, s);
            q matches QueueAction::SetPaused(b) ==> (s.is_object ==> e.contains(SummaryEditView::IsPaused(b))
                && e.contains(SummaryEditView::State(if b { PlayStateText::Paused } else { PlayStateText::Playing })))
        }),
        ({
            let (q, e) = command_plan(cmd, payload, s);
            &&& (q == QueueAction::Clear && s.is_object ==> e.contains(SummaryEditView::State(PlayStateText::Stopped))
                && e.contains(SummaryEditView::PositionTicks(0)))
            &&& (q matches QueueAction::Seek(p) ==> (s.is_object ==> e.contains(SummaryEditView::PositionTicks(p))))
            &&& (q == QueueAction::TogglePaused && s.is_object ==> e.contains(SummaryEditView::IsPaused(
                !(s.is_paused matches Some(true)),
            )))
        }),
        ascii_lower_seq(trim_seq(cmd)) == "pause"@ ==> command_plan(cmd, payload, s).0 == QueueAction::SetPaused(true),
        ascii_lower_seq(trim_seq(cmd)) == "unpause"@ || ascii_lower_seq(trim_seq(cmd)) == "play"@
            ==> command_plan(cmd, payload, s).0 == QueueAction::SetPaused(false),
{
    let (q, e) = command_plan(cmd, payload, s);
    if let QueueAction::SetPaused(b) = q {
        if s.is_object {
            assert(e[0] == SummaryEditView::IsPaused(b));
            assert(e[1] == SummaryEditView::State(if b { PlayStateText::Paused } else { PlayStateText::Playing }));
        }
    }
    if s.is_object {
        if q == QueueAction::Clear {
            assert(e[0] == SummaryEditView::State(PlayStateText::Stopped));
            assert(e[1] == SummaryEditView::PositionTicks(0));
        }
        if let QueueAction::Seek(p) = q {
            assert(e[0] == SummaryEditView::PositionTicks(p));
        }
        if q == QueueAction::TogglePaused {
            assert(e[0] == SummaryEditView::IsPaused(!(s.is_paused matches Some(true))));
        }
    }
    let c = ascii_lower_seq(trim_seq(cmd));
    if c == "unpause"@ || c == "play"@ {
        reveal_strlit("pause");
        reveal_strlit("unpause");
        reveal_strlit("play");
        assert("pause"@.len() == 5);
        assert("unpause"@.len() == 7);
        assert("play"@.len() == 4);
        assert(c != "pause"@);
    }
}

} // verus!
