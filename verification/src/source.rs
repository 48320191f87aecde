//! Media sources of catalogue items: the container, name, path and size
//! under which a file or a remote stream is offered for playback.

use vstd::prelude::*;
use vstd::utf8::{decode_utf8, encode_utf8, valid_utf8};
use crate::pathnames::{extension, extension_of, file_name, file_name_of, file_stem, file_stem_of};
use crate::text::{
    str_eq,
    ascii_upper_seq, contains_char, eq_ignore_ascii_case, eq_ignore_case_seq, i64_to_string, int_decimal, is_blank,
    is_blank_str, owned, replace_char, replace_char_seq, starts_with, starts_with_seq, to_ascii_uppercase, trim,
    trim_seq, views,
};
use crate::json::{field, JsonFields, JsonScalar};
use crate::media::{first_container, first_container_of, infer_timestamp, transport_container};
use crate::ids::{simple_form, simple_id};
use crate::streams::{convert_db_streams_to_dto, is_stream_view, StreamRow, StreamView};

verus! {

/// The value of an ASCII hexadecimal digit (`char::to_digit(16)`).
pub open spec fn hex_value(b: u8) -> Option<u8> {
    if 48 <= b && b <= 57 {
        Some((b - 48) as u8)
    } else if 97 <= b && b <= 102 {
        Some((b - 87) as u8)
    } else if 65 <= b && b <= 70 {
        Some((b - 55) as u8)
    } else {
        None
    }
}

/// Bytes with each `%` followed by two hexadecimal digits replaced by the
/// byte they denote; every other byte kept.
pub open spec fn percent_decode(b: Seq<u8>) -> Seq<u8>
    decreases b.len(),
{
    if b.len() == 0 {
        Seq::empty()
    } else if b.len() >= 3 && b[0] == 37 && hex_value(b[1]) is Some && hex_value(b[2]) is Some {
        seq![(hex_value(b[1])->0 * 16 + hex_value(b[2])->0) as u8] + percent_decode(b.subrange(3, b.len() as int))
    } else {
        seq![b[0]] + percent_decode(b.subrange(1, b.len() as int))
    }
}

/// What `String::from_utf8_lossy` gives for bytes: the text they encode,
/// with each invalid sequence replaced by U+FFFD.
pub uninterp spec fn utf8_lossy_of(b: Seq<u8>) -> Seq<char>;

/// Calls `String::from_utf8_lossy`; the result is named `utf8_lossy_of` of
/// the bytes, and for valid UTF-8 it is the text the bytes encode (the
/// replacement of invalid sequences is not restated here).
#[verifier::external_body]
fn utf8_lossy(bytes: &[u8]) -> (r: String)
    ensures
        r@ == utf8_lossy_of(bytes@),
        valid_utf8(bytes@) ==> r@ == decode_utf8(bytes@),
{
    String::from_utf8_lossy(bytes).to_string()
}

/// A name with percent escapes decoded: trimmed; when it holds a `%`, its
/// UTF-8 bytes percent-decoded, read back as text and trimmed again.
pub open spec fn percent_decoded_text(v: Seq<char>) -> Seq<char> {
    let t = trim_seq(v);
    if t.len() == 0 || !t.contains('%') {
        t
    } else {
        trim_seq(utf8_lossy_of(percent_decode(encode_utf8(t))))
    }
}

fn hex_value_exec(b: u8) -> (r: Option<u8>)
    ensures
        r == hex_value(b),
{
    if 48 <= b && b <= 57 {
        Some(b - 48)
    } else if 97 <= b && b <= 102 {
        Some(b - 87)
    } else if 65 <= b && b <= 70 {
        Some(b - 55)
    } else {
        None
    }
}

/// Percent-decodes bytes, as `percent_decode` states.
fn percent_decode_bytes(bytes: &[u8]) -> (r: Vec<u8>)
    ensures
        r@ == percent_decode(bytes@),
{
    let n = bytes.len();
    let mut out: Vec<u8> = Vec::new();
    let mut i: usize = 0;
    assert(bytes@.subrange(0, n as int) =~= bytes@);
    while i < n
        invariant
            i <= n,
            n == bytes@.len(),
            out@ + percent_decode(bytes@.subrange(i as int, n as int)) == percent_decode(bytes@),
        decreases n - i,
    {
        let ghost rest = bytes@.subrange(i as int, n as int);
        if bytes[i] == 37 && n - i > 2 {
            let hi = hex_value_exec(bytes[i + 1]);
            let lo = hex_value_exec(bytes[i + 2]);
            if let (Some(h), Some(l)) = (hi, lo) {
                let v: u8 = h * 16 + l;
                assert(rest.subrange(3, rest.len() as int) =~= bytes@.subrange(i + 3, n as int));
                assert(out@.push(v) + percent_decode(bytes@.subrange(i + 3, n as int)) =~= out@ + percent_decode(rest));
                out.push(v);
                i = i + 3;
                continue;
            }
        }
        assert(rest.subrange(1, rest.len() as int) =~= bytes@.subrange(i + 1, n as int));
        assert(out@.push(bytes@[i as int]) + percent_decode(bytes@.subrange(i + 1, n as int)) =~= out@ + percent_decode(rest));
        out.push(bytes[i]);
        i = i + 1;
    }
    assert(out@ + percent_decode(bytes@.subrange(n as int, n as int)) =~= out@);
    out
}

/// Decodes percent escapes in a name, as `percent_decoded_text` states.
pub fn decode_percent_encoded_component(value: &str) -> (r: String)
    ensures
        r@ == percent_decoded_text(value@),
{
    let t = trim(value);
    if t.unicode_len() == 0 || !contains_char(t, '%') {
        return owned(t);
    }
    let decoded = percent_decode_bytes(t.as_bytes());
    let text = utf8_lossy(decoded.as_slice());
    owned(trim(text.as_str()))
}

/// What `Url::parse` followed by `Url::path` gives for a text; nothing
/// when it is not an absolute URL.
pub uninterp spec fn url_path_of(s: Seq<char>) -> Option<Seq<char>>;

/// Calls `url::Url::parse` and, when it succeeds, `Url::path`; the result
/// is named `url_path_of` of the text (URL parsing is not restated here).
#[verifier::external_body]
fn url_path(s: &str) -> (r: Option<String>)
    ensures
        match r {
            Some(p) => url_path_of(s@) == Some(p@),
            None => url_path_of(s@) is None,
        },
{
    url::Url::parse(s).ok().map(|u| u.path().to_string())
}

/// The name a stream URL gives a source: the stem of its path's last
/// component, percent-decoded and trimmed; nothing when that is empty.
pub open spec fn url_source_name(s: Seq<char>) -> Option<Seq<char>> {
    match url_path_of(s) {
        Some(p) => match file_stem_of(p) {
            Some(stem) => {
                let name = trim_seq(percent_decoded_text(trim_seq(stem)));
                if name.len() == 0 {
                    None
                } else {
                    Some(name)
                }
            },
            None => None,
        },
        None => None,
    }
}

/// The name a stream URL gives a source, as `url_source_name` states.
pub fn source_name_from_url(value: &str) -> (r: Option<String>)
    ensures
        opt_text(r) == url_source_name(value@),
{
    let path = match url_path(value) {
        Some(p) => p,
        None => return None,
    };
    let stem = match file_stem(path.as_str()) {
        Some(s) => s,
        None => return None,
    };
    let decoded = decode_percent_encoded_component(trim(stem.as_str()));
    let name = trim(decoded.as_str());
    if name.unicode_len() == 0 {
        None
    } else {
        Some(owned(name))
    }
}

/// The text of an optional string.
pub open spec fn opt_text(v: Option<String>) -> Option<Seq<char>> {
    match v {
        Some(s) => Some(s@),
        None => None,
    }
}

/// The file name of an item's path (`Path::file_name`).
pub fn item_file_name(path: &str) -> (r: Option<String>)
    ensures
        opt_text(r) == file_name_of(path@),
{
    file_name(path)
}

/// Whether `" - "` starts at position `k` of a text.
pub open spec fn dash_at(s: Seq<char>, k: int) -> bool {
    0 <= k && k + 3 <= s.len() && s.subrange(k, k + 3) == " - "@
}

/// The last position below `upto` where `" - "` starts.
pub open spec fn last_dash_before(s: Seq<char>, upto: nat) -> Option<int>
    decreases upto,
{
    if upto == 0 {
        None
    } else if dash_at(s, upto - 1) {
        Some(upto - 1)
    } else {
        last_dash_before(s, (upto - 1) as nat)
    }
}

/// The quality label of a file stem: the trimmed text after its last
/// `" - "` (`rsplit_once`), when that is not empty.
pub open spec fn quality_label(stem: Seq<char>) -> Option<Seq<char>> {
    match last_dash_before(stem, stem.len()) {
        Some(k) => {
            let q = trim_seq(stem.subrange(k + 3, stem.len() as int));
            if q.len() == 0 {
                None
            } else {
                Some(q)
            }
        },
        None => None,
    }
}

/// The quality label of a file stem, as `quality_label` states.
fn quality_part(stem: &str) -> (r: Option<String>)
    ensures
        opt_text(r) == quality_label(stem@),
{
    let n = stem.unicode_len();
    let mut upto: usize = n;
    while upto > 0
        invariant
            upto <= n,
            n == stem@.len(),
            last_dash_before(stem@, n as nat) == last_dash_before(stem@, upto as nat),
        decreases upto,
    {
        let k = upto - 1;
        if n - k >= 3 && stem.get_char(k) == ' ' && stem.get_char(k + 1) == '-' && stem.get_char(k + 2) == ' ' {
            assert(stem@.subrange(k as int, k + 3) =~= " - "@) by {
                reveal_strlit(" - ");
            }
            let rest = stem.substring_char(k + 3, n);
            let q = trim(rest);
            if q.unicode_len() == 0 {
                return None;
            }
            return Some(owned(q));
        }
        assert(!dash_at(stem@, k as int)) by {
            reveal_strlit(" - ");
            if dash_at(stem@, k as int) {
                assert(stem@.subrange(k as int, k + 3)[0] == stem@[k as int]);
                assert(stem@.subrange(k as int, k + 3)[1] == stem@[k + 1]);
                assert(stem@.subrange(k as int, k + 3)[2] == stem@[k + 2]);
            }
        }
        upto = k;
    }
    None
}

/// The name under which a source is offered when its own name gives none.
pub open spec fn fallback_source_name(name: Seq<char>, strm_target: Option<Seq<char>>) -> Seq<char> {
    match strm_target {
        Some(t) => match url_source_name(t) {
            Some(n) => n,
            None => percent_decoded_text(trim_seq(name)),
        },
        None => percent_decoded_text(trim_seq(name)),
    }
}

/// The stem of a path's file name, trimmed and percent-decoded.
pub open spec fn local_stem(path: Seq<char>) -> Option<Seq<char>> {
    match file_name_of(path) {
        Some(f) => match file_stem_of(f) {
            Some(st) => Some(percent_decoded_text(trim_seq(st))),
            None => None,
        },
        None => None,
    }
}

/// The name of a media source: the quality label of the file's stem, else
/// the stem itself when not empty, else the name a stream URL gives, else
/// the item's decoded name.
pub open spec fn source_name(path: Seq<char>, name: Seq<char>, strm_target: Option<Seq<char>>) -> Seq<char> {
    match local_stem(path) {
        Some(st) => match quality_label(st) {
            Some(q) => q,
            None => if st.len() > 0 {
                st
            } else {
                fallback_source_name(name, strm_target)
            },
        },
        None => fallback_source_name(name, strm_target),
    }
}

/// The name of a media source, as `source_name` states.
pub fn media_source_name(path: &str, name: &str, strm_target: Option<&str>) -> (r: String)
    ensures
        r@ == source_name(path@, name@, opt_str_text(strm_target)),
{
    let stem = match file_name(path) {
        Some(f) => match file_stem(f.as_str()) {
            Some(st) => Some(decode_percent_encoded_component(trim(st.as_str()))),
            None => None,
        },
        None => None,
    };
    if let Some(st) = &stem {
        if let Some(q) = quality_part(st.as_str()) {
            return q;
        }
        if st.unicode_len() > 0 {
            return owned(st.as_str());
        }
    }
    if let Some(t) = strm_target {
        if let Some(n) = source_name_from_url(t) {
            return n;
        }
    }
    decode_percent_encoded_component(trim(name))
}

/// The text of an optional string slice.
pub open spec fn opt_str_text(v: Option<&str>) -> Option<Seq<char>> {
    match v {
        Some(s) => Some(s@),
        None => None,
    }
}

/// The container a source is played as: the extension of its stream
/// target, else its recorded container unless that is `strm`, else the
/// extension of its path, else `mp4`; reduced by `first_container_of`.
pub open spec fn effective_container_of(
    container: Option<Seq<char>>,
    path: Seq<char>,
    target_extension: Option<Seq<char>>,
) -> Seq<char> {
    let from_path = match extension_of(path) {
        Some(e) => e,
        None => "mp4"@,
    };
    let raw = match target_extension {
        Some(e) => e,
        None => match container {
            Some(c) => if !eq_ignore_case_seq(c, "strm"@) {
                c
            } else {
                from_path
            },
            None => from_path,
        },
    };
    first_container_of(raw)
}

/// The container an item is played as, which is always known (see
/// `effective_container_of`); `target_extension` is the extension of the
/// stream target its `.strm` file points to, as the caller read it.
pub fn effective_container(container: Option<&str>, path: &str, target_extension: Option<&str>) -> (r: Option<
    String,
>)
    ensures
        r is Some,
        r->0@ == effective_container_of(opt_str_text(container), path@, opt_str_text(target_extension)),
{
    Some(effective_container_from_target(container, path, target_extension))
}

/// The container a source is played as, as `effective_container_of`
/// states; `target_extension` is the extension of the stream target the
/// item's `.strm` file points to, when it has one.
pub fn effective_container_from_target(
    container: Option<&str>,
    path: &str,
    target_extension: Option<&str>,
) -> (r: String)
    ensures
        r@ == effective_container_of(opt_str_text(container), path@, opt_str_text(target_extension)),
{
    let raw = match target_extension {
        Some(e) => owned(e),
        None => {
            let recorded = match container {
                Some(c) => if !eq_ignore_ascii_case(c, "strm") {
                    Some(owned(c))
                } else {
                    None
                },
                None => None,
            };
            match recorded {
                Some(c) => c,
                None => match extension(path) {
                    Some(e) => e,
                    None => owned("mp4"),
                },
            }
        },
    };
    first_container(raw.as_str())
}

/// Whether a path is a legacy virtual path of a remote server
/// (`REMOTE_EMBY/...`, separators and case aside).
pub open spec fn legacy_remote_path(path: Seq<char>) -> bool {
    starts_with_seq(ascii_upper_seq(replace_char_seq(path, '\\', '/')), "REMOTE_EMBY/"@)
}

/// Whether an item's provider ids mark it as synchronised from a remote
/// server (a non-blank `RemoteEmbySourceId` string).
pub open spec fn provider_remote(entries: Seq<(String, JsonScalar)>) -> bool {
    match field(entries, "RemoteEmbySourceId"@) {
        Some(JsonScalar::Str(s)) => !is_blank(s@),
        _ => false,
    }
}

/// Whether a path is a legacy virtual path, as `legacy_remote_path` states.
pub fn is_legacy_remote_path(path: &str) -> (r: bool)
    ensures
        r == legacy_remote_path(path@),
{
    let normalized = replace_char(path, '\\', '/');
    let upper = to_ascii_uppercase(normalized.as_str());
    starts_with(upper.as_str(), "REMOTE_EMBY/")
}

/// Whether provider ids mark an item as remote, as `provider_remote` states.
pub fn is_provider_remote(provider_ids: &JsonFields) -> (r: bool)
    ensures
        r == provider_remote(provider_ids.entries@),
{
    match provider_ids.get("RemoteEmbySourceId") {
        Some(JsonScalar::Str(s)) => !is_blank_str(s.as_str()),
        _ => false,
    }
}

/// Whether an item is played from a remote server: it has a stream target,
/// a legacy virtual path, or a remote provider mark.
pub fn is_remote_media_item(path: &str, provider_ids: &JsonFields, has_strm_target: bool) -> (r: bool)
    ensures
        r == (has_strm_target || legacy_remote_path(path@) || provider_remote(provider_ids.entries@)),
{
    has_strm_target || is_legacy_remote_path(path) || is_provider_remote(provider_ids)
}

/// ` (year)` for a known year, nothing otherwise.
pub open spec fn year_suffix(year: Option<i32>) -> Seq<char> {
    match year {
        Some(y) => " ("@ + int_decimal(y as int) + ")"@,
        None => Seq::empty(),
    }
}

/// The path shown to clients: for `.strm` files and remote items a virtual
/// `/{name}{year}/{name}{year}.{container}` path, else the real path.
pub open spec fn shown_path(
    name: Seq<char>,
    year: Option<i32>,
    path: Seq<char>,
    entries: Seq<(String, JsonScalar)>,
    is_strm: bool,
    container: Seq<char>,
) -> Seq<char> {
    if is_strm || legacy_remote_path(path) || provider_remote(entries) {
        let label = name + year_suffix(year);
        "/"@ + label + "/"@ + label + "."@ + container
    } else {
        path
    }
}

/// The path shown to clients, as `shown_path` states; `container` is the
/// item's effective container.
pub fn sanitize_item_path(
    name: &str,
    production_year: Option<i32>,
    path: &str,
    provider_ids: &JsonFields,
    is_strm: bool,
    container: &str,
) -> (r: Option<String>)
    ensures
        opt_text(r) == Some(shown_path(name@, production_year, path@, provider_ids.entries@, is_strm, container@)),
{
    if is_strm || is_legacy_remote_path(path) || is_provider_remote(provider_ids) {
        let mut label = owned(name);
        if let Some(y) = production_year {
            let year = i64_to_string(y as i64);
            label.append(" (");
            label.append(year.as_str());
            label.append(")");
        }
        let mut out = owned("/");
        out.append(label.as_str());
        out.append("/");
        out.append(label.as_str());
        out.append(".");
        out.append(container);
        Some(out)
    } else {
        Some(owned(path))
    }
}

/// The size of a source: its recorded size when positive, else the
/// estimate from bit rate and running time for a remote source, else the
/// length of the local file.
pub open spec fn source_size(stored: Option<i64>, is_remote: bool, estimate: Option<i64>, file_len: Option<i64>) -> Option<i64> {
    if stored is Some && stored->0 > 0 {
        stored
    } else if is_remote {
        estimate
    } else {
        file_len
    }
}

/// The size of a source, as `source_size` states.
pub fn media_source_size(stored: Option<i64>, is_remote: bool, estimate: Option<i64>, file_len: Option<i64>) -> (r: Option<i64>)
    ensures
        r == source_size(stored, is_remote, estimate, file_len),
{
    if let Some(s) = stored {
        if s > 0 {
            return Some(s);
        }
    }
    if is_remote {
        estimate
    } else {
        file_len
    }
}

/// The size of an item in listings: zero for folders, else the recorded
/// size when positive, else the estimate for a `.strm` file, else the
/// length of the local file, zero when unknown.
pub fn item_size(stored: Option<i64>, is_folder: bool, is_strm: bool, estimate: Option<i64>, file_len: Option<i64>) -> (r: i64)
    ensures
        r == if is_folder {
            0
        } else if stored is Some && stored->0 > 0 {
            stored->0
        } else if is_strm {
            match estimate {
                Some(e) => e,
                None => 0,
            }
        } else {
            match file_len {
                Some(l) => l,
                None => 0,
            }
        },
{
    if is_folder {
        return 0;
    }
    if let Some(s) = stored {
        if s > 0 {
            return s;
        }
    }
    if is_strm {
        match estimate {
            Some(e) => e,
            None => 0,
        }
    } else {
        match file_len {
            Some(l) => l,
            None => 0,
        }
    }
}

/// What the media-source rules read of a catalogue item.
pub struct SourceItem {
    pub id: u128,
    pub name: String,
    pub path: String,
    pub container: Option<String>,
    pub size: Option<i64>,
    pub bit_rate: Option<i32>,
    pub runtime_ticks: Option<i64>,
    pub provider_ids: JsonFields,
    /// Seconds since the Unix epoch of the last change.
    pub date_modified: i64,
}

/// A playable source of an item, as offered to clients.
pub struct MediaSource {
    pub id: String,
    pub path: String,
    pub protocol: String,
    pub source_type: String,
    pub container: String,
    pub name: String,
    pub is_remote: bool,
    pub direct_stream_url: Option<String>,
    pub transcoding_url: Option<String>,
    pub transcoding_sub_protocol: Option<String>,
    pub transcoding_container: Option<String>,
    pub required_http_headers: Vec<(String, String)>,
    pub add_api_key_to_direct_stream_url: Option<bool>,
    pub formats: Vec<String>,
    pub size: Option<i64>,
    pub e_tag: Option<String>,
    pub bitrate: Option<i32>,
    pub run_time_ticks: Option<i64>,
    pub timestamp: Option<String>,
    pub item_id: Option<String>,
    pub server_id: Option<String>,
    pub default_audio_stream_index: Option<i32>,
    pub default_subtitle_stream_index: Option<i32>,
    pub media_streams: Vec<StreamView>,
}

/// The stream address of an item's source.
pub open spec fn stream_url(emby_id: Seq<char>, container: Seq<char>, source_id: Seq<char>) -> Seq<char> {
    "/Videos/"@ + emby_id + "/stream."@ + container + "?Static=true&MediaSourceId="@ + source_id
}

/// Whether `m` agrees with the source offered for `item` in all fields but
/// the headers, the server id and the streams, given the item's stream
/// target, that target's extension, the size estimate and the file length.
pub open spec fn source_fields(
    m: MediaSource,
    item: SourceItem,
    strm_target: Option<Seq<char>>,
    target_extension: Option<Seq<char>>,
    estimate: Option<i64>,
    file_len: Option<i64>,
) -> bool {
    let container = effective_container_of(opt_text(item.container), item.path@, target_extension);
    let remote = strm_target is Some || legacy_remote_path(item.path@) || provider_remote(item.provider_ids.entries@);
    let emby = simple_form(item.id);
    let sid = "mediasource_"@ + emby;
    &&& m.id@ == sid
    &&& m.path@ == (if remote { stream_url(emby, container, sid) } else { item.path@ })
    &&& m.protocol@ == (if remote { "Http"@ } else { "File"@ })
    &&& m.source_type@ == "Default"@
    &&& m.container@ == container
    &&& m.name@ == source_name(item.path@, item.name@, strm_target)
    &&& m.is_remote == remote
    &&& opt_text(m.direct_stream_url) == Some(stream_url(emby, container, sid) + "&mediaSourceId="@ + sid)
    &&& m.transcoding_url is None
    &&& m.transcoding_sub_protocol is None
    &&& m.transcoding_container is None
    &&& m.add_api_key_to_direct_stream_url == Some(false)
    &&& views(m.formats@) == seq![container]
    &&& m.size == source_size(item.size, remote, estimate, file_len)
    &&& opt_text(m.e_tag) == Some(int_decimal(item.date_modified as int))
    &&& m.bitrate == item.bit_rate
    &&& m.run_time_ticks == item.runtime_ticks
    &&& (match m.timestamp {
        Some(t) => transport_container(container) && t@ == "None"@,
        None => !transport_container(container),
    })
    &&& opt_text(m.item_id) == Some(emby)
}

/// Whether `m` is the source offered for `item` without its streams, as
/// `source_fields` states, with no headers, server id or streams.
pub open spec fn is_source_for(
    m: MediaSource,
    item: SourceItem,
    strm_target: Option<Seq<char>>,
    target_extension: Option<Seq<char>>,
    estimate: Option<i64>,
    file_len: Option<i64>,
) -> bool {
    &&& source_fields(m, item, strm_target, target_extension, estimate, file_len)
    &&& m.required_http_headers@.len() == 0
    &&& m.server_id is None
    &&& m.default_audio_stream_index is None
    &&& m.default_subtitle_stream_index is None
    &&& m.media_streams@.len() == 0
}

/// The source offered for an item, as `is_source_for` states.
/// `strm_target` is the address a `.strm` file points to and
/// `target_extension` that address's extension; `estimate` is the size
/// estimated from bit rate and running time, `file_len` the local file's
/// length.
pub fn media_source_for_item(
    item: &SourceItem,
    strm_target: Option<&str>,
    target_extension: Option<&str>,
    estimate: Option<i64>,
    file_len: Option<i64>,
) -> (r: MediaSource)
    ensures
        is_source_for(r, *item, opt_str_text(strm_target), opt_str_text(target_extension), estimate, file_len),
{
    let recorded = match &item.container {
        Some(c) => Some(c.as_str()),
        None => None,
    };
    let container = effective_container_from_target(recorded, item.path.as_str(), target_extension);
    let remote = strm_target.is_some() || is_legacy_remote_path(item.path.as_str()) || is_provider_remote(
        &item.provider_ids,
    );
    let size = media_source_size(item.size, remote, estimate, file_len);
    let emby = simple_id(item.id);
    let mut sid = owned("mediasource_");
    sid.append(emby.as_str());
    let mut url = owned("/Videos/");
    url.append(emby.as_str());
    url.append("/stream.");
    url.append(container.as_str());
    url.append("?Static=true&MediaSourceId=");
    url.append(sid.as_str());
    let path = if remote {
        owned(url.as_str())
    } else {
        owned(item.path.as_str())
    };
    let mut direct = owned(url.as_str());
    direct.append("&mediaSourceId=");
    direct.append(sid.as_str());
    let protocol = if remote {
        owned("Http")
    } else {
        owned("File")
    };
    let name = media_source_name(item.path.as_str(), item.name.as_str(), strm_target);
    let timestamp = infer_timestamp(container.as_str());
    let formats = vec![owned(container.as_str())];
    assert(views(formats@) =~= seq![container@]);
    MediaSource {
        id: sid,
        path,
        protocol,
        source_type: owned("Default"),
        container,
        name,
        is_remote: remote,
        direct_stream_url: Some(direct),
        transcoding_url: None,
        transcoding_sub_protocol: None,
        transcoding_container: None,
        required_http_headers: Vec::new(),
        add_api_key_to_direct_stream_url: Some(false),
        formats,
        size,
        e_tag: Some(i64_to_string(item.date_modified)),
        bitrate: item.bit_rate,
        run_time_ticks: item.runtime_ticks,
        timestamp,
        item_id: Some(emby),
        server_id: None,
        default_audio_stream_index: None,
        default_subtitle_stream_index: None,
        media_streams: Vec::new(),
    }
}

/// Whether `after` is `before` with the stream and transcoding addresses,
/// the required headers and the API-key flag removed, all else kept.
pub open spec fn detail_sanitized(before: MediaSource, after: MediaSource) -> bool {
    after == MediaSource {
        direct_stream_url: None,
        transcoding_url: None,
        transcoding_sub_protocol: None,
        transcoding_container: None,
        required_http_headers: after.required_http_headers,
        add_api_key_to_direct_stream_url: Some(false),
        ..before
    } && after.required_http_headers@.len() == 0
}

/// Sources as shown in an item's detail view: each with its stream and
/// transcoding addresses, headers and API-key flag removed.
pub fn sanitize_media_sources_for_item_detail(media_sources: Vec<MediaSource>) -> (r: Vec<MediaSource>)
    ensures
        r@.len() == media_sources@.len(),
        forall|i: int| 0 <= i < r@.len() ==> #[trigger] detail_sanitized(media_sources@[i], r@[i]),
{
    let ghost all = media_sources@;
    let mut out: Vec<MediaSource> = Vec::new();
    for source in it: media_sources
        invariant
            it.seq() == all,
            out@.len() == it.index(),
            forall|i: int| 0 <= i < out@.len() ==> #[trigger] detail_sanitized(all[i], out@[i]),
    {
        let mut s = source;
        s.direct_stream_url = None;
        s.transcoding_url = None;
        s.transcoding_sub_protocol = None;
        s.transcoding_container = None;
        s.required_http_headers = Vec::new();
        s.add_api_key_to_direct_stream_url = Some(false);
        out.push(s);
    }
    out
}

/// The index of the first stream of type `kind` (that is marked default,
/// when `need_default`).
pub open spec fn first_stream(vs: Seq<StreamView>, kind: Seq<char>, need_default: bool) -> Option<i32>
    decreases vs.len(),
{
    if vs.len() == 0 {
        None
    } else if vs[0].stream_type@ == kind && (!need_default || vs[0].is_default) {
        Some(vs[0].index)
    } else {
        first_stream(vs.drop_first(), kind, need_default)
    }
}

pub(crate) fn first_stream_exec(vs: &Vec<StreamView>, kind: &str, need_default: bool) -> (r: Option<i32>)
    ensures
        r == first_stream(vs@, kind@, need_default),
{
    let n = vs.len();
    let mut i: usize = 0;
    assert(vs@.subrange(0, n as int) =~= vs@);
    while i < n
        invariant
            i <= n,
            n == vs@.len(),
            first_stream(vs@, kind@, need_default) == first_stream(vs@.subrange(i as int, n as int), kind@, need_default),
        decreases n - i,
    {
        assert(vs@.subrange(i as int, n as int).drop_first() =~= vs@.subrange(i + 1, n as int));
        if str_eq(vs[i].stream_type.as_str(), kind) && (!need_default || vs[i].is_default) {
            return Some(vs[i].index);
        }
        i = i + 1;
    }
    None
}

/// Whether `m` is the source offered for `item` with its stored streams:
/// with no streams, the plain source carrying the server id; else the
/// source with the streams shown, the default audio stream (the first
/// default audio stream, else the first audio stream), the default
/// subtitle stream (the first default one), and for local files the header
/// `Accept-Ranges: bytes`.
pub open spec fn is_source_with_streams(
    m: MediaSource,
    item: SourceItem,
    server_id: u128,
    streams: Seq<StreamRow>,
    strm_target: Option<Seq<char>>,
    target_extension: Option<Seq<char>>,
    estimate: Option<i64>,
    file_len: Option<i64>,
) -> bool {
    let remote = strm_target is Some || legacy_remote_path(item.path@) || provider_remote(item.provider_ids.entries@);
    &&& opt_text(m.server_id) == Some(simple_form(server_id))
    &&& if streams.len() == 0 {
        is_source_for(MediaSource { server_id: None, ..m }, item, strm_target, target_extension, estimate, file_len)
    } else {
        &&& source_fields(m, item, strm_target, target_extension, estimate, file_len)
        &&& m.media_streams@.len() == streams.len()
        &&& forall|i: int| 0 <= i < streams.len() ==> #[trigger] is_stream_view(m.media_streams@[i], streams[i], item.id, server_id, remote)
        &&& m.default_audio_stream_index == (match first_stream(m.media_streams@, "Audio"@, true) {
            Some(i) => Some(i),
            None => first_stream(m.media_streams@, "Audio"@, false),
        })
        &&& m.default_subtitle_stream_index == first_stream(m.media_streams@, "Subtitle"@, true)
        &&& m.required_http_headers@.map_values(|h: (String, String)| (h.0@, h.1@)) == (if remote {
            Seq::empty()
        } else {
            seq![("Accept-Ranges"@, "bytes"@)]
        })
    }
}

/// The source offered for an item with its stored streams, as
/// `is_source_with_streams` states.
pub fn media_source_for_item_with_db_streams(
    item: &SourceItem,
    server_id: u128,
    db_streams: &Vec<StreamRow>,
    strm_target: Option<&str>,
    target_extension: Option<&str>,
    estimate: Option<i64>,
    file_len: Option<i64>,
) -> (r: MediaSource)
    ensures
        is_source_with_streams(
            r,
            *item,
            server_id,
            db_streams@,
            opt_str_text(strm_target),
            opt_str_text(target_extension),
            estimate,
            file_len,
        ),
        db_streams@.len() > 0 ==> r.media_streams@.len() == db_streams@.len(),
        db_streams@.len() > 0 ==> forall|i: int|
            0 <= i < db_streams@.len() ==> #[trigger] is_stream_view(
                r.media_streams@[i],
                db_streams@[i],
                item.id,
                server_id,
                r.is_remote,
            ),
{
    let remote = strm_target.is_some() || is_legacy_remote_path(item.path.as_str()) || is_provider_remote(
        &item.provider_ids,
    );
    let mut m = media_source_for_item(item, strm_target, target_extension, estimate, file_len);
    if db_streams.len() == 0 {
        m.server_id = Some(simple_id(server_id));
        return m;
    }
    let streams = convert_db_streams_to_dto(item.id, db_streams, server_id, remote);
    let audio = match first_stream_exec(&streams, "Audio", true) {
        Some(i) => Some(i),
        None => first_stream_exec(&streams, "Audio", false),
    };
    let subtitle = first_stream_exec(&streams, "Subtitle", true);
    let headers = if remote {
        Vec::new()
    } else {
        vec![(owned("Accept-Ranges"), owned("bytes"))]
    };
    assert(headers@.map_values(|h: (String, String)| (h.0@, h.1@)) =~= (if remote {
        Seq::empty()
    } else {
        seq![("Accept-Ranges"@, "bytes"@)]
    }));
    m.server_id = Some(simple_id(server_id));
    m.default_audio_stream_index = audio;
    m.default_subtitle_stream_index = subtitle;
    m.required_http_headers = headers;
    m.media_streams = streams;
    m
}

/// Sanitising a source for the detail view a second time changes nothing:
/// every field stays, and the headers stay empty.
pub proof fn law_detail_sanitize_idempotent(a: MediaSource, b: MediaSource, c: MediaSource)
    requires
        detail_sanitized(a, b),
        detail_sanitized(b, c),
    ensures
        c == (MediaSource { required_http_headers: c.required_http_headers, ..b }),
        c.required_http_headers@ == b.required_http_headers@,
{
    assert(c.required_http_headers@ =~= b.required_http_headers@);
}

/// A remote source is offered through the server's stream address, never
/// by its local path, and over HTTP.
pub proof fn law_remote_source_streams(
    m: MediaSource,
    item: SourceItem,
    strm_target: Option<Seq<char>>,
    target_extension: Option<Seq<char>>,
    estimate: Option<i64>,
    file_len: Option<i64>,
)
    requires
        source_fields(m, item, strm_target, target_extension, estimate, file_len),
        m.is_remote,
    ensures
        m.path@ == stream_url(
            simple_form(item.id),
            m.container@,
            "mediasource_"@ + simple_form(item.id),
        ),
        m.protocol@ == "Http"@,
{
}

} // verus!
