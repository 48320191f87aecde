//! Users and sign-in sessions as shown to clients.

use vstd::prelude::*;
use crate::ids::{simple_form, simple_id};
use crate::text::{i64_to_string, int_decimal, is_blank, is_blank_str, owned, trim, trim_seq, views};
use vstd::utf8::encode_utf8;

verus! {

/// What the user views read of a stored user.
pub struct UserRecord {
    pub id: u128,
    pub name: String,
    pub password_hash: String,
    pub easy_password_hash: Option<String>,
    pub primary_image_path: Option<String>,
    pub is_admin: bool,
    pub is_hidden: bool,
    pub is_disabled: bool,
    /// Seconds since the Unix epoch of the last change.
    pub date_modified: i64,
}

/// A user as listed before sign-in.
pub struct PublicUser {
    pub name: String,
    pub server_id: String,
    pub id: String,
    pub has_password: bool,
    pub has_configured_password: bool,
    pub has_configured_easy_password: bool,
}

/// The decided fields of a user as shown after sign-in; the stored policy
/// takes the three flags below in place of its own.
pub struct UserSummary {
    pub name: String,
    pub server_id: String,
    pub id: String,
    pub has_password: bool,
    pub has_configured_password: bool,
    pub has_configured_easy_password: bool,
    pub primary_image_tag: Option<String>,
    pub is_administrator: bool,
    pub is_hidden: bool,
    pub is_disabled: bool,
}

/// Whether a user has a password: a non-blank password hash.
pub open spec fn has_password(user: UserRecord) -> bool {
    !is_blank(user.password_hash@)
}

/// Whether a user has an easy (PIN) password: a non-blank easy hash.
pub open spec fn has_easy_password(user: UserRecord) -> bool {
    user.easy_password_hash is Some && !is_blank(user.easy_password_hash->0@)
}

fn easy_password_set(user: &UserRecord) -> (r: bool)
    ensures
        r == has_easy_password(*user),
{
    match &user.easy_password_hash {
        Some(h) => !is_blank_str(h.as_str()),
        None => false,
    }
}

/// A user as listed before sign-in.
pub fn user_to_public_dto(user: &UserRecord, server_id: u128) -> (r: PublicUser)
    ensures
        r.name@ == user.name@,
        r.server_id@ == simple_form(server_id),
        r.id@ == simple_form(user.id),
        r.has_password == has_password(*user),
        r.has_configured_password == has_password(*user),
        r.has_configured_easy_password == has_easy_password(*user),
{
    let has = !is_blank_str(user.password_hash.as_str());
    PublicUser {
        name: user.name.clone(),
        server_id: simple_id(server_id),
        id: simple_id(user.id),
        has_password: has,
        has_configured_password: has,
        has_configured_easy_password: easy_password_set(user),
    }
}

/// A user as shown after sign-in: the primary image tag is the decimal
/// change time when a non-empty image path is stored.
pub fn user_to_dto(user: &UserRecord, server_id: u128) -> (r: UserSummary)
    ensures
        r.name@ == user.name@,
        r.server_id@ == simple_form(server_id),
        r.id@ == simple_form(user.id),
        r.has_password == has_password(*user),
        r.has_configured_password == has_password(*user),
        r.has_configured_easy_password == has_easy_password(*user),
        match r.primary_image_tag {
            Some(t) => user.primary_image_path is Some && user.primary_image_path->0@.len() > 0 && t@
                == int_decimal(user.date_modified as int),
            None => !(user.primary_image_path is Some && user.primary_image_path->0@.len() > 0),
        },
        r.is_administrator == user.is_admin,
        r.is_hidden == user.is_hidden,
        r.is_disabled == user.is_disabled,
{
    let has = !is_blank_str(user.password_hash.as_str());
    let tag = match &user.primary_image_path {
        Some(p) => if p.as_str().unicode_len() > 0 {
            Some(i64_to_string(user.date_modified))
        } else {
            None
        },
        None => None,
    };
    UserSummary {
        name: user.name.clone(),
        server_id: simple_id(server_id),
        id: simple_id(user.id),
        has_password: has,
        has_configured_password: has,
        has_configured_easy_password: easy_password_set(user),
        primary_image_tag: tag,
        is_administrator: user.is_admin,
        is_hidden: user.is_hidden,
        is_disabled: user.is_disabled,
    }
}

/// What the session view reads of a stored sign-in session.
pub struct SessionRow {
    pub access_token: String,
    pub user_id: u128,
    pub user_name: String,
    pub client: Option<String>,
    pub device_id: Option<String>,
    pub device_name: Option<String>,
    pub application_version: Option<String>,
    /// When the session expires, in microseconds since the Unix epoch.
    pub expires_at: Option<i64>,
    pub last_activity_at: Option<i64>,
    pub remote_address: Option<String>,
}

/// A sign-in session as shown to clients.
pub struct SessionInfo {
    pub id: String,
    pub user_id: String,
    pub user_name: String,
    pub server_id: String,
    pub client: String,
    pub device_id: String,
    pub device_name: String,
    pub application_version: String,
    pub is_active: bool,
    pub last_activity_date: Option<i64>,
    pub remote_end_point: Option<String>,
    pub supports_remote_control: bool,
    pub playable_media_types: Vec<String>,
    pub supported_commands: Vec<String>,
}

/// The remote commands every session accepts, in the order announced.
pub open spec fn supported_commands() -> Seq<Seq<char>> {
    seq![
        "MoveUp"@, "MoveDown"@, "MoveLeft"@, "MoveRight"@, "PageUp"@, "PageDown"@, "PreviousLetter"@,
        "NextLetter"@, "ToggleOsd"@, "ToggleContextMenu"@, "Select"@, "Back"@, "SendKey"@, "SendString"@,
        "GoHome"@, "GoToSettings"@, "VolumeUp"@, "VolumeDown"@, "Mute"@, "Unmute"@, "ToggleMute"@,
        "SetVolume"@, "SetAudioStreamIndex"@, "SetSubtitleStreamIndex"@, "DisplayContent"@, "GoToSearch"@,
        "DisplayMessage"@, "SetRepeatMode"@, "ChannelUp"@, "ChannelDown"@, "PlayMediaSource"@,
        "PlayTrailers"@, "SetShuffleQueue"@, "PlayState"@, "PlayNext"@, "ToggleFullscreen"@,
    ]
}

/// A text, or `default` when absent.
pub open spec fn text_or(v: Option<String>, default: Seq<char>) -> Seq<char> {
    match v {
        Some(s) => s@,
        None => default,
    }
}

/// Whether a session is still active at time `now` (seconds and
/// nanoseconds since the Unix epoch): it never expires, or expires later.
pub open spec fn active_at(expires_at: Option<i64>, now_secs: i64, now_nanos: u32) -> bool {
    match expires_at {
        Some(e) => e * 1000 > now_secs * 1_000_000_000 + now_nanos,
        None => true,
    }
}

/// Whether `s` shows `session`, apart from whether it is active.
pub open spec fn shows_session(s: SessionInfo, session: SessionRow, server_id: u128) -> bool {
    &&& s.id@ == session.access_token@
    &&& s.user_id@ == simple_form(session.user_id)
    &&& s.user_name@ == session.user_name@
    &&& s.server_id@ == simple_form(server_id)
    &&& s.client@ == text_or(session.client, "Movie Rust Client"@)
    &&& s.device_id@ == text_or(session.device_id, "unknown"@)
    &&& s.device_name@ == text_or(session.device_name, "Unknown Device"@)
    &&& s.application_version@ == text_or(session.application_version, "0.1.0"@)
    &&& s.last_activity_date == session.last_activity_at
    &&& (match (s.remote_end_point, session.remote_address) {
        (Some(a), Some(b)) => a@ == b@,
        (None, None) => true,
        _ => false,
    })
    &&& s.supports_remote_control
    &&& views(s.playable_media_types@) == seq!["Audio"@, "Video"@]
    &&& views(s.supported_commands@) == supported_commands()
}

fn text_or_default(v: &Option<String>, default: &str) -> (r: String)
    ensures
        r@ == text_or(*v, default@),
{
    match v {
        Some(s) => s.clone(),
        None => owned(default),
    }
}

fn command_list() -> (r: Vec<String>)
    ensures
        views(r@) == supported_commands(),
{
    let r = vec![
        owned("MoveUp"), owned("MoveDown"), owned("MoveLeft"), owned("MoveRight"), owned("PageUp"),
        owned("PageDown"), owned("PreviousLetter"), owned("NextLetter"), owned("ToggleOsd"),
        owned("ToggleContextMenu"), owned("Select"), owned("Back"), owned("SendKey"), owned("SendString"),
        owned("GoHome"), owned("GoToSettings"), owned("VolumeUp"), owned("VolumeDown"), owned("Mute"),
        owned("Unmute"), owned("ToggleMute"), owned("SetVolume"), owned("SetAudioStreamIndex"),
        owned("SetSubtitleStreamIndex"), owned("DisplayContent"), owned("GoToSearch"),
        owned("DisplayMessage"), owned("SetRepeatMode"), owned("ChannelUp"), owned("ChannelDown"),
        owned("PlayMediaSource"), owned("PlayTrailers"), owned("SetShuffleQueue"), owned("PlayState"),
        owned("PlayNext"), owned("ToggleFullscreen"),
    ];
    assert(views(r@) =~= supported_commands());
    r
}

/// A session as shown at time `now` (seconds and nanoseconds since the
/// Unix epoch): active when it never expires or expires later.
pub fn session_info_at(session: &SessionRow, server_id: u128, now_secs: i64, now_nanos: u32) -> (r: SessionInfo)
    ensures
        shows_session(r, *session, server_id),
        r.is_active == active_at(session.expires_at, now_secs, now_nanos),
{
    let is_active = match session.expires_at {
        Some(e) => (e as i128) * 1000 > (now_secs as i128) * 1_000_000_000 + (now_nanos as i128),
        None => true,
    };
    let remote = match &session.remote_address {
        Some(a) => Some(a.clone()),
        None => None,
    };
    let media_types = vec![owned("Audio"), owned("Video")];
    assert(views(media_types@) =~= seq!["Audio"@, "Video"@]);
    SessionInfo {
        id: session.access_token.clone(),
        user_id: simple_id(session.user_id),
        user_name: session.user_name.clone(),
        server_id: simple_id(server_id),
        client: text_or_default(&session.client, "Movie Rust Client"),
        device_id: text_or_default(&session.device_id, "unknown"),
        device_name: text_or_default(&session.device_name, "Unknown Device"),
        application_version: text_or_default(&session.application_version, "0.1.0"),
        is_active,
        last_activity_date: session.last_activity_at,
        remote_end_point: remote,
        supports_remote_control: true,
        playable_media_types: media_types,
        supported_commands: command_list(),
    }
}

/// The system clock's reading, opaque here.
#[verifier::external_type_specification]
#[verifier::external_body]
pub struct ExSystemTime(std::time::SystemTime);

/// Reads the system clock (`SystemTime::now`); nothing is stated of the
/// reading.
#[verifier::external_body]
fn system_time_now() -> (r: std::time::SystemTime) {
    std::time::SystemTime::now()
}

/// How far a clock reading lies from the Unix epoch
/// (`SystemTime::duration_since(UNIX_EPOCH)`): `Ok` with whole seconds and
/// the nanoseconds within the second after it, `Err` with those before it
/// (the error's duration). The nanoseconds are below 10^9, as
/// `Duration::subsec_nanos` documents.
#[verifier::external_body]
fn since_unix_epoch(t: &std::time::SystemTime) -> (r: Result<(u64, u32), (u64, u32)>)
    ensures
        match r {
            Ok((_, n)) => n < 1_000_000_000,
            Err((_, n)) => n < 1_000_000_000,
        },
{
    match t.duration_since(std::time::UNIX_EPOCH) {
        Ok(d) => Ok((d.as_secs(), d.subsec_nanos())),
        Err(e) => Err((e.duration().as_secs(), e.duration().subsec_nanos())),
    }
}

/// A clock reading as nanoseconds since the Unix epoch: `Ok` with the
/// seconds and nanoseconds after it, `Err` with those before it.
pub open spec fn clock_nanos(c: Result<(u64, u32), (u64, u32)>) -> int {
    match c {
        Ok((s, n)) => s * 1_000_000_000 + n,
        Err((s, n)) => -(s * 1_000_000_000 + n),
    }
}

/// Whether a session with this expiry is active at `t` nanoseconds since
/// the Unix epoch: one that never expires always is, another while it
/// expires later.
pub open spec fn active_at_nanos(expires_at: Option<i64>, t: int) -> bool {
    match expires_at {
        Some(e) => e * 1000 > t,
        None => true,
    }
}

/// A session as shown at a clock reading (see `clock_nanos`).
pub fn session_info_at_reading(session: &SessionRow, server_id: u128, reading: Result<(u64, u32), (u64, u32)>) -> (r:
    SessionInfo)
    ensures
        shows_session(r, *session, server_id),
        r.is_active == active_at_nanos(session.expires_at, clock_nanos(reading)),
{
    let t: i128 = match reading {
        Ok((s, n)) => (s as i128) * 1_000_000_000 + (n as i128),
        Err((s, n)) => -((s as i128) * 1_000_000_000 + (n as i128)),
    };
    let active = match session.expires_at {
        Some(e) => (e as i128) * 1000 > t,
        None => true,
    };
    let mut info = session_info_at(session, server_id, 0, 0);
    info.is_active = active;
    info
}

/// A session as shown now: as `session_info_at_reading` at the system
/// clock's current reading, whatever it is.
pub fn session_to_dto(session: &SessionRow, server_id: u128) -> (r: SessionInfo)
    ensures
        shows_session(r, *session, server_id),
        session.expires_at is None ==> r.is_active,
{
    let now = system_time_now();
    session_info_at_reading(session, server_id, since_unix_epoch(&now))
}

/// Why a password is refused.
#[derive(Clone, Copy, Debug, PartialEq, Eq, Structural)]
pub enum PasswordRefusal {
    /// The new password is shorter than 4 bytes once trimmed.
    TooShort,
    /// The new easy password (PIN) is shorter than 4 bytes once trimmed.
    EasyTooShort,
}

impl PasswordRefusal {
    /// The message the refusal is answered with.
    pub fn message(&self) -> (r: &'static str)
        ensures
            r@ == (match *self {
                PasswordRefusal::TooShort => "新密码至少需要 4 个字符"@,
                PasswordRefusal::EasyTooShort => "快速密码至少需要 4 个字符"@,
            }),
    {
        match self {
            PasswordRefusal::TooShort => "新密码至少需要 4 个字符",
            PasswordRefusal::EasyTooShort => "快速密码至少需要 4 个字符",
        }
    }
}

/// Whether a trimmed password is long enough: at least 4 bytes of UTF-8.
pub open spec fn long_enough(p: Seq<char>) -> bool {
    encode_utf8(p).len() >= 4
}

/// The password to store (and hash) when a user sets a new one: the text
/// trimmed, refused when it is shorter than 4 bytes.
pub fn new_password_to_store(new_password: &str) -> (r: Result<String, PasswordRefusal>)
    ensures
        match r {
            Ok(p) => long_enough(trim_seq(new_password@)) && p@ == trim_seq(new_password@),
            Err(e) => !long_enough(trim_seq(new_password@)) && e == PasswordRefusal::TooShort,
        },
{
    let t = trim(new_password);
    if t.as_bytes().len() < 4 {
        Err(PasswordRefusal::TooShort)
    } else {
        Ok(owned(t))
    }
}

/// The easy password (PIN) to store: none when none or a blank one is sent
/// (the PIN is removed); else the text trimmed, refused when it is shorter
/// than 4 bytes.
pub fn easy_password_to_store(new_password: Option<&str>) -> (r: Result<Option<String>, PasswordRefusal>)
    ensures
        match new_password {
            None => r == Ok::<Option<String>, PasswordRefusal>(None),
            Some(p) => if trim_seq(p@).len() == 0 {
                r == Ok::<Option<String>, PasswordRefusal>(None)
            } else if !long_enough(trim_seq(p@)) {
                r == Err::<Option<String>, PasswordRefusal>(PasswordRefusal::EasyTooShort)
            } else {
                r matches Ok(Some(v)) && v@ == trim_seq(p@)
            },
        },
{
    match new_password {
        None => Ok(None),
        Some(p) => {
            let t = trim(p);
            if t.unicode_len() == 0 {
                Ok(None)
            } else if t.as_bytes().len() < 4 {
                Err(PasswordRefusal::EasyTooShort)
            } else {
                Ok(Some(owned(t)))
            }
        },
    }
}

} // verus!
