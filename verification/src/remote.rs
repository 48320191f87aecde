//! The settings of a remote Emby source as they are stored: what a create
//! or update request is checked for, and how its values are cleaned.

use vstd::prelude::*;
use crate::json::{first_field, key_views, JsonFields, JsonScalar};
use crate::text::{
    eq_ignore_ascii_case, eq_ignore_case_seq, is_blank, is_blank_str, owned, str_eq, to_ascii_lowercase, trim,
    trim_seq, views, ascii_lower_seq,
};

verus! {

/// Whether a list holds a text equal to `id` up to ASCII case.
pub open spec fn contains_ci(list: Seq<Seq<char>>, id: Seq<char>) -> bool {
    exists|j: int| 0 <= j < list.len() && eq_ignore_case_seq(#[trigger] list[j], id)
}

/// The selected view ids: trimmed, blank ones dropped, and an id equal up to
/// ASCII case to an earlier one dropped.
pub open spec fn dedup_ids(raw: Seq<Seq<char>>) -> Seq<Seq<char>>
    decreases raw.len(),
{
    if raw.len() == 0 {
        Seq::empty()
    } else {
        let prev = dedup_ids(raw.drop_last());
        let t = trim_seq(raw.last());
        if t.len() == 0 || contains_ci(prev, t) {
            prev
        } else {
            prev.push(t)
        }
    }
}

fn contains_ci_exec(list: &Vec<String>, id: &str) -> (r: bool)
    ensures
        r == contains_ci(views(list@), id@),
{
    let n = list.len();
    let mut i: usize = 0;
    while i < n
        invariant
            i <= n,
            n == list@.len(),
            forall|j: int| 0 <= j < i ==> !eq_ignore_case_seq(#[trigger] views(list@)[j], id@),
        decreases n - i,
    {
        if eq_ignore_ascii_case(list[i].as_str(), id) {
            assert(views(list@)[i as int] == list@[i as int]@);
            return true;
        }
        assert(views(list@)[i as int] == list@[i as int]@);
        i = i + 1;
    }
    false
}

/// The selected view ids of a request (see `dedup_ids`).
pub fn sanitize_remote_view_ids(raw: &Vec<String>) -> (r: Vec<String>)
    ensures
        views(r@) == dedup_ids(views(raw@)),
{
    let mut out: Vec<String> = Vec::new();
    let n = raw.len();
    let mut i: usize = 0;
    while i < n
        invariant
            i <= n,
            n == raw@.len(),
            views(out@) == dedup_ids(views(raw@).take(i as int)),
        decreases n - i,
    {
        proof {
            assert(views(raw@).take(i + 1).drop_last() =~= views(raw@).take(i as int));
            assert(views(raw@).take(i + 1).last() == raw@[i as int]@);
        }
        let t = trim(raw[i].as_str());
        if t.unicode_len() != 0 && !contains_ci_exec(&out, t) {
            let ghost before = out@;
            out.push(owned(t));
            assert(views(out@) =~= views(before).push(t@));
        }
        i = i + 1;
    }
    assert(views(raw@).take(n as int) =~= views(raw@));
    out
}

/// A library of the remote server offered as a view.
pub struct RemoteView {
    pub id: String,
    pub name: String,
    pub collection_type: Option<String>,
}

/// The texts of a view: id, name and collection type.
pub open spec fn view_texts(v: RemoteView) -> (Seq<char>, Seq<char>, Option<Seq<char>>) {
    (v.id@, v.name@, match v.collection_type {
        Some(c) => Some(c@),
        None => None,
    })
}

pub open spec fn all_view_texts(vs: Seq<RemoteView>) -> Seq<(Seq<char>, Seq<char>, Option<Seq<char>>)> {
    vs.map_values(|v: RemoteView| view_texts(v))
}

/// The ids of views.
pub open spec fn view_ids(vs: Seq<(Seq<char>, Seq<char>, Option<Seq<char>>)>) -> Seq<Seq<char>> {
    vs.map_values(|v: (Seq<char>, Seq<char>, Option<Seq<char>>)| v.0)
}

/// The text of the first of `keys` a view entry has, if it is a string.
pub open spec fn entry_text(e: JsonFields, keys: Seq<Seq<char>>) -> Option<Seq<char>> {
    match first_field(e.entries@, keys) {
        Some(JsonScalar::Str(s)) => Some(s@),
        _ => None,
    }
}

/// A text trimmed, if it is not blank.
pub open spec fn non_blank(v: Option<Seq<char>>) -> Option<Seq<char>> {
    match v {
        Some(s) => if trim_seq(s).len() == 0 {
            None
        } else {
            Some(trim_seq(s))
        },
        None => None,
    }
}

/// A view entry of a request added to the views kept so far: its id
/// (`Id`, else `id`; trimmed) must be present, among the selected ids when
/// any are selected, and new up to ASCII case; its name (`Name`, else
/// `name`) defaults to the id, its collection type (`CollectionType`, else
/// `collectionType`) to none.
pub open spec fn view_step(
    out: Seq<(Seq<char>, Seq<char>, Option<Seq<char>>)>,
    e: JsonFields,
    selected: Seq<Seq<char>>,
) -> Seq<(Seq<char>, Seq<char>, Option<Seq<char>>)> {
    let id = match entry_text(e, seq!["Id"@, "id"@]) {
        Some(s) => trim_seq(s),
        None => Seq::empty(),
    };
    if id.len() == 0 {
        out
    } else if selected.len() > 0 && !contains_ci(selected, id) {
        out
    } else if contains_ci(view_ids(out), id) {
        out
    } else {
        let name = match non_blank(entry_text(e, seq!["Name"@, "name"@])) {
            Some(n) => n,
            None => id,
        };
        out.push((id, name, non_blank(entry_text(e, seq!["CollectionType"@, "collectionType"@]))))
    }
}

/// The views kept of a request's view entries, in order.
pub open spec fn views_from(entries: Seq<JsonFields>, selected: Seq<Seq<char>>) -> Seq<
    (Seq<char>, Seq<char>, Option<Seq<char>>),
>
    decreases entries.len(),
{
    if entries.len() == 0 {
        Seq::empty()
    } else {
        view_step(views_from(entries.drop_last(), selected), entries.last(), selected)
    }
}

/// The views with a bare view (named by its id) added for each selected id
/// no view has yet.
pub open spec fn with_selected(
    out: Seq<(Seq<char>, Seq<char>, Option<Seq<char>>)>,
    ids: Seq<Seq<char>>,
) -> Seq<(Seq<char>, Seq<char>, Option<Seq<char>>)>
    decreases ids.len(),
{
    if ids.len() == 0 {
        out
    } else {
        let prev = with_selected(out, ids.drop_last());
        if contains_ci(view_ids(prev), ids.last()) {
            prev
        } else {
            prev.push((ids.last(), ids.last(), None))
        }
    }
}

/// The views stored for a request: those of its entries, then one per
/// selected id none of them covers.
pub open spec fn sanitized_views(entries: Seq<JsonFields>, selected: Seq<Seq<char>>) -> Seq<
    (Seq<char>, Seq<char>, Option<Seq<char>>),
> {
    with_selected(views_from(entries, selected), selected)
}

fn view_listed(out: &Vec<RemoteView>, id: &str) -> (r: bool)
    ensures
        r == contains_ci(view_ids(all_view_texts(out@)), id@),
{
    let ghost ids = view_ids(all_view_texts(out@));
    let n = out.len();
    let mut i: usize = 0;
    while i < n
        invariant
            i <= n,
            n == out@.len(),
            ids == view_ids(all_view_texts(out@)),
            forall|j: int| 0 <= j < i ==> !eq_ignore_case_seq(#[trigger] ids[j], id@),
        decreases n - i,
    {
        assert(ids[i as int] == out@[i as int].id@);
        if eq_ignore_ascii_case(out[i].id.as_str(), id) {
            return true;
        }
        i = i + 1;
    }
    false
}

fn text_field(e: &JsonFields, first: &str, second: &str) -> (r: Option<String>)
    ensures
        match r {
            Some(s) => entry_text(*e, seq![first@, second@]) == Some(s@),
            None => entry_text(*e, seq![first@, second@]) is None,
        },
{
    let keys = [first, second];
    assert(key_views(keys@) =~= seq![first@, second@]);
    match e.get_first(&keys) {
        Some(JsonScalar::Str(s)) => Some(s),
        _ => None,
    }
}

fn non_blank_text(v: Option<String>) -> (r: Option<String>)
    ensures
        match r {
            Some(s) => non_blank(match v {
                Some(t) => Some(t@),
                None => None,
            }) == Some(s@),
            None => non_blank(match v {
                Some(t) => Some(t@),
                None => None,
            }) is None,
        },
{
    match v {
        Some(s) => {
            let t = trim(s.as_str());
            if t.unicode_len() == 0 {
                None
            } else {
                Some(owned(t))
            }
        },
        None => None,
    }
}

fn push_view(out: &mut Vec<RemoteView>, view: RemoteView)
    ensures
        all_view_texts(final(out)@) == all_view_texts(old(out)@).push(view_texts(view)),
{
    let ghost before = out@;
    out.push(view);
    assert(all_view_texts(out@) =~= all_view_texts(before).push(view_texts(view)));
}

/// The views stored for a request's view entries and selected ids (see
/// `sanitized_views`).
pub fn sanitize_remote_views(entries: &Vec<JsonFields>, selected: &Vec<String>) -> (r: Vec<RemoteView>)
    ensures
        all_view_texts(r@) == sanitized_views(entries@, views(selected@)),
{
    let ghost sel = views(selected@);
    let mut out: Vec<RemoteView> = Vec::new();
    let n = entries.len();
    let mut i: usize = 0;
    while i < n
        invariant
            i <= n,
            n == entries@.len(),
            sel == views(selected@),
            all_view_texts(out@) == views_from(entries@.take(i as int), sel),
        decreases n - i,
    {
        proof {
            assert(entries@.take(i + 1).drop_last() =~= entries@.take(i as int));
            assert(entries@.take(i + 1).last() == entries@[i as int]);
        }
        let e = &entries[i];
        let raw_id = text_field(e, "Id", "id");
        let id_text: String = match raw_id {
            Some(s) => owned(trim(s.as_str())),
            None => String::new(),
        };
        let id = id_text.as_str();
        if id.unicode_len() != 0 {
            let allowed = selected.len() == 0 || contains_ci_exec(selected, id);
            if allowed && !view_listed(&out, id) {
                let name = match non_blank_text(text_field(e, "Name", "name")) {
                    Some(nm) => nm,
                    None => owned(id),
                };
                let collection_type = non_blank_text(text_field(e, "CollectionType", "collectionType"));
                push_view(&mut out, RemoteView { id: owned(id), name, collection_type });
            }
        }
        i = i + 1;
    }
    assert(entries@.take(n as int) =~= entries@);
    let ghost base = all_view_texts(out@);
    let m = selected.len();
    let mut j: usize = 0;
    while j < m
        invariant
            j <= m,
            m == selected@.len(),
            sel == views(selected@),
            base == views_from(entries@, sel),
            all_view_texts(out@) == with_selected(base, sel.take(j as int)),
        decreases m - j,
    {
        proof {
            assert(sel.take(j + 1).drop_last() =~= sel.take(j as int));
            assert(sel.take(j + 1).last() == selected@[j as int]@);
        }
        let id = selected[j].as_str();
        if !view_listed(&out, id) {
            push_view(&mut out, RemoteView { id: owned(id), name: owned(id), collection_type: None });
        }
        j = j + 1;
    }
    assert(sel.take(m as int) =~= sel);
    out
}

/// The text with every trailing `c` removed (`trim_end_matches(c)`).
pub open spec fn strip_trailing(s: Seq<char>, c: char) -> Seq<char>
    decreases s.len(),
{
    if s.len() > 0 && s.last() == c {
        strip_trailing(s.drop_last(), c)
    } else {
        s
    }
}

/// A server address as stored: trimmed, without trailing `/`.
pub fn normalized_server_url(url: &str) -> (r: String)
    ensures
        r@ == strip_trailing(trim_seq(url@), '/'),
{
    let t = trim(url);
    let n = t.unicode_len();
    let mut j: usize = n;
    assert(t@.subrange(0, n as int) =~= t@);
    loop
        invariant
            j <= n,
            n == t@.len(),
            strip_trailing(t@, '/') == strip_trailing(t@.subrange(0, j as int), '/'),
        ensures
            j <= n,
            strip_trailing(t@, '/') == t@.subrange(0, j as int),
        decreases j,
    {
        if j == 0 {
            break;
        }
        if t.get_char(j - 1) != '/' {
            break;
        }
        assert(t@.subrange(0, j as int).drop_last() =~= t@.subrange(0, j - 1));
        j = j - 1;
    }
    owned(t.substring_char(0, j))
}

/// Why a remote source request is refused.
#[derive(Clone, Copy, Debug, PartialEq, Eq, Structural)]
pub enum RemoteSourceError {
    MissingName,
    MissingServerUrl,
    MissingUsername,
    MissingPassword,
    SourceNotFound,
    MissingUserAgent,
    LibraryNotFound,
}

/// The message each refusal of a remote source is answered with.
pub open spec fn remote_error_message(e: RemoteSourceError) -> Seq<char> {
    match e {
        RemoteSourceError::MissingName => "远端源名称不能为空"@,
        RemoteSourceError::MissingServerUrl => "远端 Emby 地址不能为空"@,
        RemoteSourceError::MissingUsername => "远端 Emby 用户名不能为空"@,
        RemoteSourceError::MissingPassword => "远端 Emby 密码不能为空"@,
        RemoteSourceError::SourceNotFound => "远端 Emby 源不存在"@,
        RemoteSourceError::MissingUserAgent => "伪装 User-Agent 不能为空"@,
        RemoteSourceError::LibraryNotFound => "目标媒体库不存在"@,
    }
}

impl RemoteSourceError {
    /// Whether the refusal is a missing record rather than a bad request.
    pub fn is_not_found(&self) -> (r: bool)
        ensures
            r == (*self == RemoteSourceError::SourceNotFound),
    {
        match self {
            RemoteSourceError::SourceNotFound => true,
            _ => false,
        }
    }

    /// The message the refusal is answered with.
    pub fn message(&self) -> (r: &'static str)
        ensures
            r@ == remote_error_message(*self),
    {
        match self {
            RemoteSourceError::MissingName => "远端源名称不能为空",
            RemoteSourceError::MissingServerUrl => "远端 Emby 地址不能为空",
            RemoteSourceError::MissingUsername => "远端 Emby 用户名不能为空",
            RemoteSourceError::MissingPassword => "远端 Emby 密码不能为空",
            RemoteSourceError::SourceNotFound => "远端 Emby 源不存在",
            RemoteSourceError::MissingUserAgent => "伪装 User-Agent 不能为空",
            RemoteSourceError::LibraryNotFound => "目标媒体库不存在",
        }
    }
}

/// The values of a request to create or change a remote source, as sent.
pub struct RemoteSourceInput {
    pub name: String,
    pub server_url: String,
    pub username: String,
    pub password: Option<String>,
    pub spoofed_user_agent: String,
    pub display_mode: String,
    pub remote_view_ids: Vec<String>,
    /// The objects of the request's view list (its other values are skipped).
    pub remote_views: Vec<JsonFields>,
    pub strm_output_path: Option<String>,
    pub token_refresh_interval_secs: i32,
    pub proxy_mode: String,
    pub auto_sync_interval_minutes: i32,
    pub page_size: i32,
    pub request_interval_ms: i32,
    pub spoofed_client: Option<String>,
    pub spoofed_device_name: Option<String>,
    pub spoofed_device_id: Option<String>,
    pub spoofed_app_version: Option<String>,
}

/// The values stored for a remote source. A `None` password or spoofed
/// value leaves the stored one as it is.
pub struct RemoteSourceSettings {
    pub name: String,
    pub server_url: String,
    pub username: String,
    pub password: Option<String>,
    pub spoofed_user_agent: String,
    pub display_mode: &'static str,
    pub remote_view_ids: Vec<String>,
    pub remote_views: Vec<RemoteView>,
    pub strm_output_path: Option<String>,
    pub token_refresh_interval_secs: i32,
    pub proxy_mode: &'static str,
    pub auto_sync_interval_minutes: i32,
    pub page_size: i32,
    pub request_interval_ms: i32,
    pub spoofed_client: Option<String>,
    pub spoofed_device_name: Option<String>,
    pub spoofed_device_id: Option<String>,
    pub spoofed_app_version: Option<String>,
}

pub open spec fn opt_text(v: Option<String>) -> Option<Seq<char>> {
    match v {
        Some(s) => Some(s@),
        None => None,
    }
}

/// `merge` when asked for (trimmed, ASCII case ignored), else `separate`.
pub open spec fn display_mode_of(raw: Seq<char>) -> Seq<char> {
    if ascii_lower_seq(trim_seq(raw)) == "merge"@ {
        "merge"@
    } else {
        "separate"@
    }
}

/// `redirect` or `redirect_direct` when asked for (trimmed, ASCII case
/// ignored), else `proxy`.
pub open spec fn proxy_mode_of(raw: Seq<char>) -> Seq<char> {
    let m = ascii_lower_seq(trim_seq(raw));
    if m == "redirect"@ {
        "redirect"@
    } else if m == "redirect_direct"@ {
        "redirect_direct"@
    } else {
        "proxy"@
    }
}

/// `v` kept within `lo..=hi`.
pub open spec fn clamped(v: int, lo: int, hi: int) -> int {
    if v < lo {
        lo
    } else if v > hi {
        hi
    } else {
        v
    }
}

/// The refusal a request to create a source gets, checked in this order;
/// none when it is accepted.
pub open spec fn new_source_error(input: RemoteSourceInput, library_exists: bool) -> Option<RemoteSourceError> {
    if is_blank(input.name@) {
        Some(RemoteSourceError::MissingName)
    } else if strip_trailing(trim_seq(input.server_url@), '/').len() == 0 {
        Some(RemoteSourceError::MissingServerUrl)
    } else if is_blank(input.username@) {
        Some(RemoteSourceError::MissingUsername)
    } else if input.password is None || is_blank(input.password->0@) {
        Some(RemoteSourceError::MissingPassword)
    } else if is_blank(input.spoofed_user_agent@) {
        Some(RemoteSourceError::MissingUserAgent)
    } else if !library_exists {
        Some(RemoteSourceError::LibraryNotFound)
    } else {
        None
    }
}

/// The refusal a request to change a source gets, checked in this order;
/// none when it is accepted.
pub open spec fn update_error(input: RemoteSourceInput, source_exists: bool, library_exists: bool) -> Option<
    RemoteSourceError,
> {
    if is_blank(input.name@) {
        Some(RemoteSourceError::MissingName)
    } else if strip_trailing(trim_seq(input.server_url@), '/').len() == 0 {
        Some(RemoteSourceError::MissingServerUrl)
    } else if is_blank(input.username@) {
        Some(RemoteSourceError::MissingUsername)
    } else if !source_exists {
        Some(RemoteSourceError::SourceNotFound)
    } else if is_blank(input.spoofed_user_agent@) {
        Some(RemoteSourceError::MissingUserAgent)
    } else if !library_exists {
        Some(RemoteSourceError::LibraryNotFound)
    } else {
        None
    }
}

/// Whether `s` holds the cleaned values of `input` that a create and an
/// update store alike: texts trimmed, the address without trailing `/`,
/// modes mapped, views sanitized, the output path kept when not blank, the
/// token refresh interval within 300 s..=30 days, the sync interval 0 when
/// not positive and else within 1..=7 days of minutes, the page size 200
/// when not positive and else within 50..=1000, the request interval within
/// 0..=60000 ms.
pub open spec fn cleans(s: RemoteSourceSettings, input: RemoteSourceInput) -> bool {
    let ids = dedup_ids(views(input.remote_view_ids@));
    &&& s.name@ == trim_seq(input.name@)
    &&& s.server_url@ == strip_trailing(trim_seq(input.server_url@), '/')
    &&& s.username@ == trim_seq(input.username@)
    &&& s.spoofed_user_agent@ == trim_seq(input.spoofed_user_agent@)
    &&& s.display_mode@ == display_mode_of(input.display_mode@)
    &&& views(s.remote_view_ids@) == ids
    &&& all_view_texts(s.remote_views@) == sanitized_views(input.remote_views@, ids)
    &&& opt_text(s.strm_output_path) == non_blank(opt_text(input.strm_output_path))
    &&& s.token_refresh_interval_secs == clamped(input.token_refresh_interval_secs as int, 300, 2592000)
    &&& s.auto_sync_interval_minutes == (if input.auto_sync_interval_minutes <= 0 {
        0
    } else {
        clamped(input.auto_sync_interval_minutes as int, 1, 10080)
    })
    &&& s.proxy_mode@ == proxy_mode_of(input.proxy_mode@)
    &&& s.page_size == (if input.page_size <= 0 {
        200
    } else {
        clamped(input.page_size as int, 50, 1000)
    })
    &&& s.request_interval_ms == clamped(input.request_interval_ms as int, 0, 60000)
}

fn clamp_i32(v: i32, lo: i32, hi: i32) -> (r: i32)
    requires
        lo <= hi,
    ensures
        r == clamped(v as int, lo as int, hi as int),
{
    if v < lo {
        lo
    } else if v > hi {
        hi
    } else {
        v
    }
}

fn non_blank_opt(v: &Option<String>) -> (r: Option<String>)
    ensures
        opt_text(r) == non_blank(opt_text(*v)),
{
    match v {
        Some(s) => {
            let t = trim(s.as_str());
            if t.unicode_len() == 0 {
                None
            } else {
                Some(owned(t))
            }
        },
        None => None,
    }
}

fn mode_is(raw: &str, expected: &str) -> (r: bool)
    ensures
        r == (ascii_lower_seq(trim_seq(raw@)) == expected@),
{
    let l = to_ascii_lowercase(trim(raw));
    str_eq(l.as_str(), expected)
}

/// The cleaned values shared by a create and an update (see `cleans`);
/// the password and spoofed values are left unset.
fn clean_settings(input: &RemoteSourceInput) -> (r: RemoteSourceSettings)
    ensures
        cleans(r, *input),
        r.password is None,
        r.spoofed_client is None && r.spoofed_device_name is None,
        r.spoofed_device_id is None && r.spoofed_app_version is None,
{
    let ids = sanitize_remote_view_ids(&input.remote_view_ids);
    let views_out = sanitize_remote_views(&input.remote_views, &ids);
    let display_mode: &'static str = if mode_is(input.display_mode.as_str(), "merge") {
        "merge"
    } else {
        "separate"
    };
    let proxy_mode: &'static str = if mode_is(input.proxy_mode.as_str(), "redirect") {
        "redirect"
    } else if mode_is(input.proxy_mode.as_str(), "redirect_direct") {
        "redirect_direct"
    } else {
        "proxy"
    };
    let auto_sync = if input.auto_sync_interval_minutes <= 0 {
        0
    } else {
        clamp_i32(input.auto_sync_interval_minutes, 1, 10080)
    };
    let page_size = if input.page_size <= 0 {
        200
    } else {
        clamp_i32(input.page_size, 50, 1000)
    };
    RemoteSourceSettings {
        name: owned(trim(input.name.as_str())),
        server_url: normalized_server_url(input.server_url.as_str()),
        username: owned(trim(input.username.as_str())),
        password: None,
        spoofed_user_agent: owned(trim(input.spoofed_user_agent.as_str())),
        display_mode,
        remote_view_ids: ids,
        remote_views: views_out,
        strm_output_path: non_blank_opt(&input.strm_output_path),
        token_refresh_interval_secs: clamp_i32(input.token_refresh_interval_secs, 300, 2592000),
        proxy_mode,
        auto_sync_interval_minutes: auto_sync,
        page_size,
        request_interval_ms: clamp_i32(input.request_interval_ms, 0, 60000),
        spoofed_client: None,
        spoofed_device_name: None,
        spoofed_device_id: None,
        spoofed_app_version: None,
    }
}

/// A spoofed value given (trimmed, when not blank), else `default`.
pub open spec fn spoofed_or(given: Option<String>, default: Seq<char>) -> Seq<char> {
    match non_blank(opt_text(given)) {
        Some(v) => v,
        None => default,
    }
}

fn or_default(given: &Option<String>, default: String) -> (r: String)
    ensures
        r@ == spoofed_or(*given, default@),
{
    match non_blank_opt(given) {
        Some(v) => v,
        None => default,
    }
}

/// The settings a new remote source is stored with, or the refusal
/// (`new_source_error`). The password is stored as sent; the spoofed client,
/// device name and app version default to `Infuse-Direct`, `Apple TV` and
/// `8.2.4`, the device id to `fresh_device_id`.
pub fn prepare_new_remote_source(input: &RemoteSourceInput, library_exists: bool, fresh_device_id: String) -> (r:
    Result<RemoteSourceSettings, RemoteSourceError>)
    ensures
        match r {
            Ok(s) => {
                &&& new_source_error(*input, library_exists) is None
                &&& cleans(s, *input)
                &&& opt_text(s.password) == opt_text(input.password)
                &&& opt_text(s.spoofed_client) == Some(spoofed_or(input.spoofed_client, "Infuse-Direct"@))
                &&& opt_text(s.spoofed_device_name) == Some(spoofed_or(input.spoofed_device_name, "Apple TV"@))
                &&& opt_text(s.spoofed_device_id) == Some(spoofed_or(input.spoofed_device_id, fresh_device_id@))
                &&& opt_text(s.spoofed_app_version) == Some(spoofed_or(input.spoofed_app_version, "8.2.4"@))
            },
            Err(e) => new_source_error(*input, library_exists) == Some(e),
        },
{
    if is_blank_str(input.name.as_str()) {
        return Err(RemoteSourceError::MissingName);
    }
    let url = normalized_server_url(input.server_url.as_str());
    if url.unicode_len() == 0 {
        return Err(RemoteSourceError::MissingServerUrl);
    }
    if is_blank_str(input.username.as_str()) {
        return Err(RemoteSourceError::MissingUsername);
    }
    let password = match &input.password {
        Some(p) => if is_blank_str(p.as_str()) {
            return Err(RemoteSourceError::MissingPassword);
        } else {
            p.clone()
        },
        None => return Err(RemoteSourceError::MissingPassword),
    };
    if is_blank_str(input.spoofed_user_agent.as_str()) {
        return Err(RemoteSourceError::MissingUserAgent);
    }
    if !library_exists {
        return Err(RemoteSourceError::LibraryNotFound);
    }
    let mut s = clean_settings(input);
    s.password = Some(password);
    s.spoofed_client = Some(or_default(&input.spoofed_client, owned("Infuse-Direct")));
    s.spoofed_device_name = Some(or_default(&input.spoofed_device_name, owned("Apple TV")));
    s.spoofed_device_id = Some(or_default(&input.spoofed_device_id, fresh_device_id));
    s.spoofed_app_version = Some(or_default(&input.spoofed_app_version, owned("8.2.4")));
    Ok(s)
}

/// The settings a remote source is changed to, or the refusal
/// (`update_error`). A password is stored trimmed, and only when one is sent
/// that is not blank; a spoofed value likewise, else the stored one stays.
pub fn prepare_remote_source_update(input: &RemoteSourceInput, source_exists: bool, library_exists: bool) -> (r:
    Result<RemoteSourceSettings, RemoteSourceError>)
    ensures
        match r {
            Ok(s) => {
                &&& update_error(*input, source_exists, library_exists) is None
                &&& cleans(s, *input)
                &&& opt_text(s.password) == non_blank(opt_text(input.password))
                &&& opt_text(s.spoofed_client) == non_blank(opt_text(input.spoofed_client))
                &&& opt_text(s.spoofed_device_name) == non_blank(opt_text(input.spoofed_device_name))
                &&& opt_text(s.spoofed_device_id) == non_blank(opt_text(input.spoofed_device_id))
                &&& opt_text(s.spoofed_app_version) == non_blank(opt_text(input.spoofed_app_version))
            },
            Err(e) => update_error(*input, source_exists, library_exists) == Some(e),
        },
{
    if is_blank_str(input.name.as_str()) {
        return Err(RemoteSourceError::MissingName);
    }
    let url = normalized_server_url(input.server_url.as_str());
    if url.unicode_len() == 0 {
        return Err(RemoteSourceError::MissingServerUrl);
    }
    if is_blank_str(input.username.as_str()) {
        return Err(RemoteSourceError::MissingUsername);
    }
    if !source_exists {
        return Err(RemoteSourceError::SourceNotFound);
    }
    if is_blank_str(input.spoofed_user_agent.as_str()) {
        return Err(RemoteSourceError::MissingUserAgent);
    }
    if !library_exists {
        return Err(RemoteSourceError::LibraryNotFound);
    }
    let mut s = clean_settings(input);
    s.password = non_blank_opt(&input.password);
    s.spoofed_client = non_blank_opt(&input.spoofed_client);
    s.spoofed_device_name = non_blank_opt(&input.spoofed_device_name);
    s.spoofed_device_id = non_blank_opt(&input.spoofed_device_id);
    s.spoofed_app_version = non_blank_opt(&input.spoofed_app_version);
    Ok(s)
}

/// The stored value after an update: the sent one (trimmed, not blank),
/// else the stored one.
pub open spec fn kept_or_sent(stored: Option<String>, sent: Option<String>) -> Option<Seq<char>> {
    match non_blank(opt_text(sent)) {
        Some(v) => Some(v),
        None => opt_text(stored),
    }
}

fn keep_unless_sent(stored: Option<String>, sent: Option<String>) -> (r: Option<String>)
    ensures
        opt_text(r) == (match opt_text(sent) {
            Some(v) => Some(v),
            None => opt_text(stored),
        }),
{
    match sent {
        Some(v) => Some(v),
        None => stored,
    }
}

/// The row stored after an update of a remote source from `stored`: the
/// refusals of `update_error`; else every column takes the cleaned value
/// sent (`cleans`), except that a password or spoofed value that is not
/// sent, or sent blank, keeps the stored one.
pub fn update_remote_source(
    stored: RemoteSourceSettings,
    input: &RemoteSourceInput,
    source_exists: bool,
    library_exists: bool,
) -> (r: Result<RemoteSourceSettings, RemoteSourceError>)
    ensures
        match r {
            Ok(s) => {
                &&& update_error(*input, source_exists, library_exists) is None
                &&& cleans(s, *input)
                &&& opt_text(s.password) == kept_or_sent(stored.password, input.password)
                &&& opt_text(s.spoofed_client) == kept_or_sent(stored.spoofed_client, input.spoofed_client)
                &&& opt_text(s.spoofed_device_name) == kept_or_sent(stored.spoofed_device_name, input.spoofed_device_name)
                &&& opt_text(s.spoofed_device_id) == kept_or_sent(stored.spoofed_device_id, input.spoofed_device_id)
                &&& opt_text(s.spoofed_app_version) == kept_or_sent(stored.spoofed_app_version, input.spoofed_app_version)
            },
            Err(e) => update_error(*input, source_exists, library_exists) == Some(e),
        },
{
    match prepare_remote_source_update(input, source_exists, library_exists) {
        Err(e) => Err(e),
        Ok(mut s) => {
            s.password = keep_unless_sent(stored.password, s.password);
            s.spoofed_client = keep_unless_sent(stored.spoofed_client, s.spoofed_client);
            s.spoofed_device_name = keep_unless_sent(stored.spoofed_device_name, s.spoofed_device_name);
            s.spoofed_device_id = keep_unless_sent(stored.spoofed_device_id, s.spoofed_device_id);
            s.spoofed_app_version = keep_unless_sent(stored.spoofed_app_version, s.spoofed_app_version);
            Ok(s)
        },
    }
}

/// The selected view ids are distinct up to ASCII case, and every id sent
/// that is not blank is among them up to ASCII case.
pub proof fn law_view_ids_distinct(raw: Seq<Seq<char>>)
    ensures
        forall|a: int, b: int|
            0 <= a < b < dedup_ids(raw).len() ==> !eq_ignore_case_seq(
                #[trigger] dedup_ids(raw)[a],
                #[trigger] dedup_ids(raw)[b],
            ),
        forall|i: int| 0 <= i < raw.len() && trim_seq(raw[i]).len() > 0 ==> contains_ci(dedup_ids(raw), #[trigger] trim_seq(raw[i])),
    decreases raw.len(),
{
    if raw.len() > 0 {
        let init = raw.drop_last();
        law_view_ids_distinct(init);
        let prev = dedup_ids(init);
        let t = trim_seq(raw.last());
        let ids = dedup_ids(raw);
        if !(t.len() == 0 || contains_ci(prev, t)) {
            assert(ids == prev.push(t));
            assert forall|a: int, b: int| 0 <= a < b < ids.len() implies !eq_ignore_case_seq(
                #[trigger] ids[a],
                #[trigger] ids[b],
            ) by {
                assert(ids[a] == prev[a]);
                if b < prev.len() {
                    assert(ids[b] == prev[b]);
                } else {
                    assert(ids[b] == t);
                    if eq_ignore_case_seq(prev[a], t) {
                        assert(contains_ci(prev, t));
                    }
                }
            }
        }
        assert forall|i: int| 0 <= i < raw.len() && trim_seq(raw[i]).len() > 0 implies contains_ci(
            ids,
            #[trigger] trim_seq(raw[i]),
        ) by {
            if i < init.len() {
                assert(raw[i] == init[i]);
                assert(contains_ci(prev, trim_seq(init[i])));
                let j = choose|j: int| 0 <= j < prev.len() && eq_ignore_case_seq(#[trigger] prev[j], trim_seq(init[i]));
                assert(ids[j] == prev[j]);
            } else {
                if contains_ci(prev, t) {
                    let j = choose|j: int| 0 <= j < prev.len() && eq_ignore_case_seq(#[trigger] prev[j], t);
                    assert(ids[j] == prev[j]);
                } else {
                    assert(ids[prev.len() as int] == t);
                }
            }
        }
    }
}

/// The stored views have distinct ids up to ASCII case.
pub proof fn law_views_distinct(entries: Seq<JsonFields>, selected: Seq<Seq<char>>)
    ensures
        forall|a: int, b: int|
            0 <= a < b < sanitized_views(entries, selected).len() ==> !eq_ignore_case_seq(
                #[trigger] sanitized_views(entries, selected)[a].0,
                #[trigger] sanitized_views(entries, selected)[b].0,
            ),
{
    lemma_views_from_distinct(entries, selected);
    lemma_with_selected_distinct(views_from(entries, selected), selected);
}

pub open spec fn distinct_ids(vs: Seq<(Seq<char>, Seq<char>, Option<Seq<char>>)>) -> bool {
    forall|a: int, b: int| 0 <= a < b < vs.len() ==> !eq_ignore_case_seq(#[trigger] vs[a].0, #[trigger] vs[b].0)
}

proof fn lemma_push_distinct(vs: Seq<(Seq<char>, Seq<char>, Option<Seq<char>>)>, v: (Seq<char>, Seq<char>, Option<Seq<char>>))
    requires
        distinct_ids(vs),
        !contains_ci(view_ids(vs), v.0),
    ensures
        distinct_ids(vs.push(v)),
{
    let out = vs.push(v);
    assert forall|a: int, b: int| 0 <= a < b < out.len() implies !eq_ignore_case_seq(#[trigger] out[a].0, #[trigger] out[b].0) by {
        assert(out[a] == vs[a]);
        if b < vs.len() {
            assert(out[b] == vs[b]);
        } else {
            assert(out[b] == v);
            assert(view_ids(vs)[a] == vs[a].0);
            if eq_ignore_case_seq(vs[a].0, v.0) {
                assert(eq_ignore_case_seq(view_ids(vs)[a], v.0));
            }
        }
    }
}

proof fn lemma_views_from_distinct(entries: Seq<JsonFields>, selected: Seq<Seq<char>>)
    ensures
        distinct_ids(views_from(entries, selected)),
    decreases entries.len(),
{
    if entries.len() > 0 {
        let prev = views_from(entries.drop_last(), selected);
        lemma_views_from_distinct(entries.drop_last(), selected);
        let out = views_from(entries, selected);
        if out != prev {
            lemma_push_distinct(prev, out.last());
            assert(out == prev.push(out.last()));
        }
    }
}

proof fn lemma_with_selected_distinct(vs: Seq<(Seq<char>, Seq<char>, Option<Seq<char>>)>, ids: Seq<Seq<char>>)
    requires
        distinct_ids(vs),
    ensures
        distinct_ids(with_selected(vs, ids)),
    decreases ids.len(),
{
    if ids.len() > 0 {
        lemma_with_selected_distinct(vs, ids.drop_last());
        let prev = with_selected(vs, ids.drop_last());
        if !contains_ci(view_ids(prev), ids.last()) {
            lemma_push_distinct(prev, (ids.last(), ids.last(), None));
        }
    }
}

/// The collection type of a library made for a remote view: TV shows,
/// movies or home videos as the view says (ASCII case ignored), movies
/// otherwise.
pub open spec fn view_collection_type_of(remote: Option<Seq<char>>) -> Seq<char> {
    match remote {
        Some(t) => if eq_ignore_case_seq(t, "tvshows"@) {
            "tvshows"@
        } else if eq_ignore_case_seq(t, "movies"@) {
            "movies"@
        } else if eq_ignore_case_seq(t, "homevideos"@) {
            "homevideos"@
        } else {
            "movies"@
        },
        None => "movies"@,
    }
}

/// The collection type of a library made for a remote view (see
/// `view_collection_type_of`).
pub fn view_collection_type(remote: Option<&str>) -> (r: &'static str)
    ensures
        r@ == view_collection_type_of(match remote {
            Some(t) => Some(t@),
            None => None,
        }),
{
    match remote {
        Some(t) => if eq_ignore_ascii_case(t, "tvshows") {
            "tvshows"
        } else if eq_ignore_ascii_case(t, "movies") {
            "movies"
        } else if eq_ignore_ascii_case(t, "homevideos") {
            "homevideos"
        } else {
            "movies"
        },
        None => "movies",
    }
}

/// The names tried for a library made for a remote view: the view's name,
/// then `<source name> - <view name>` when that is taken (both trimmed).
pub fn view_library_names(source_name: &str, view_name: &str) -> (r: (String, String))
    ensures
        r.0@ == trim_seq(view_name@),
        r.1@ == trim_seq(source_name@) + " - "@ + trim_seq(view_name@),
{
    let preferred = owned(trim(view_name));
    let mut fallback = owned(trim(source_name));
    fallback.append(" - ");
    fallback.append(trim(view_name));
    (preferred, fallback)
}

} // verus!
