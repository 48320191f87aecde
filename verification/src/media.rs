//! Media facts shown to clients: MIME types, containers, stream titles,
//! languages and activity texts.

use vstd::prelude::*;
use crate::text::{
    ascii_lower_seq, int_decimal, int_decimal_padded, i64_to_padded_string, i64_to_string, is_blank,
    is_blank_str, owned, split, split_seq, str_eq, to_ascii_lowercase, to_uppercase, trim,
    trim_seq, unicode_upper, views, Separators, lemma_split_nonempty,
};

verus! {

/// MIME type of a subtitle format (matched in ASCII lower case).
pub open spec fn subtitle_mime(codec: Seq<char>) -> Seq<char> {
    let c = ascii_lower_seq(codec);
    if c == "srt"@ || c == "subrip"@ {
        "application/x-subrip"@
    } else if c == "ass"@ || c == "ssa"@ {
        "text/x-ssa"@
    } else if c == "vtt"@ || c == "webvtt"@ {
        "text/vtt"@
    } else if c == "sub"@ {
        "text/x-microdvd"@
    } else if c == "smi"@ {
        "application/smil"@
    } else if c == "ttml"@ {
        "application/ttml+xml"@
    } else if c == "lrc"@ {
        "application/x-lyrics"@
    } else {
        "application/octet-stream"@
    }
}

/// MIME type of a subtitle format, as `subtitle_mime` states.
pub fn subtitle_mime_type(codec: &str) -> (r: String)
    ensures
        r@ == subtitle_mime(codec@),
{
    let l = to_ascii_lowercase(codec);
    let c = l.as_str();
    let m = if str_eq(c, "srt") || str_eq(c, "subrip") {
        "application/x-subrip"
    } else if str_eq(c, "ass") || str_eq(c, "ssa") {
        "text/x-ssa"
    } else if str_eq(c, "vtt") || str_eq(c, "webvtt") {
        "text/vtt"
    } else if str_eq(c, "sub") {
        "text/x-microdvd"
    } else if str_eq(c, "smi") {
        "application/smil"
    } else if str_eq(c, "ttml") {
        "application/ttml+xml"
    } else if str_eq(c, "lrc") {
        "application/x-lyrics"
    } else {
        "application/octet-stream"
    };
    owned(m)
}

/// Text-based subtitle formats (matched in ASCII lower case).
pub open spec fn text_subtitle(codec: Seq<char>) -> bool {
    let c = ascii_lower_seq(codec);
    c == "srt"@ || c == "subrip"@ || c == "vtt"@ || c == "webvtt"@ || c == "ass"@ || c == "ssa"@
        || c == "smi"@ || c == "ttml"@ || c == "sub"@ || c == "lrc"@
}

/// Whether a subtitle format is text based, as `text_subtitle` states.
pub fn is_text_based_subtitle(codec: &str) -> (r: bool)
    ensures
        r == text_subtitle(codec@),
{
    let l = to_ascii_lowercase(codec);
    let c = l.as_str();
    str_eq(c, "srt") || str_eq(c, "subrip") || str_eq(c, "vtt") || str_eq(c, "webvtt") || str_eq(
        c,
        "ass",
    ) || str_eq(c, "ssa") || str_eq(c, "smi") || str_eq(c, "ttml") || str_eq(c, "sub") || str_eq(
        c,
        "lrc",
    )
}

/// MPEG transport and program stream containers (matched in ASCII lower case).
pub open spec fn transport_container(container: Seq<char>) -> bool {
    let c = ascii_lower_seq(container);
    c == "ts"@ || c == "m2ts"@ || c == "mts"@ || c == "mpegts"@ || c == "mpeg"@ || c == "mpg"@
}

/// The timestamp kind of a container: "None" for transport and program
/// streams, nothing otherwise.
pub fn infer_timestamp(container: &str) -> (r: Option<String>)
    ensures
        match r {
            Some(s) => transport_container(container@) && s@ == "None"@,
            None => !transport_container(container@),
        },
{
    let l = to_ascii_lowercase(container);
    let c = l.as_str();
    if str_eq(c, "ts") || str_eq(c, "m2ts") || str_eq(c, "mts") || str_eq(c, "mpegts") || str_eq(
        c,
        "mpeg",
    ) || str_eq(c, "mpg") {
        Some(owned("None"))
    } else {
        None
    }
}

/// `s` without leading `c` characters (`trim_start_matches`).
pub open spec fn strip_start_char(s: Seq<char>, c: char) -> Seq<char>
    decreases s.len(),
{
    if s.len() > 0 && s[0] == c {
        strip_start_char(s.drop_first(), c)
    } else {
        s
    }
}

fn strip_start_char_exec(s: &str, c: char) -> (r: &str)
    ensures
        r@ == strip_start_char(s@, c),
{
    let n = s.unicode_len();
    let mut i: usize = 0;
    assert(s@.subrange(0, n as int) =~= s@);
    loop
        invariant
            i <= n,
            n == s@.len(),
            strip_start_char(s@, c) == strip_start_char(s@.subrange(i as int, n as int), c),
        ensures
            i <= n,
            strip_start_char(s@, c) == s@.subrange(i as int, n as int),
        decreases n - i,
    {
        if i == n {
            break;
        }
        if s.get_char(i) != c {
            break;
        }
        assert(s@.subrange(i as int, n as int).drop_first() =~= s@.subrange(i + 1, n as int));
        i = i + 1;
    }
    s.substring_char(i, n)
}

/// A container-list piece as a container name: trimmed, without leading dots.
pub open spec fn container_piece(piece: Seq<char>) -> Seq<char> {
    strip_start_char(trim_seq(piece), '.')
}

/// The first of the pieces that names a container; "mp4" when none does.
pub open spec fn first_named_container(pieces: Seq<Seq<char>>) -> Seq<char>
    decreases pieces.len(),
{
    if pieces.len() == 0 {
        "mp4"@
    } else if container_piece(pieces[0]).len() > 0 {
        container_piece(pieces[0])
    } else {
        first_named_container(pieces.drop_first())
    }
}

/// The single container of a container list such as "mkv,mp4": the first
/// piece between `,`, `|` or `;` that is not empty once trimmed and
/// stripped of leading dots; "mp4" when the whole list is empty.
pub open spec fn first_container_of(value: Seq<char>) -> Seq<char> {
    first_named_container(split_seq(value, Separators::ListMarks))
}

/// The single container of a container list, as `first_container_of` states.
pub fn first_container(value: &str) -> (r: String)
    ensures
        r@ == first_container_of(value@),
{
    let pieces = split(value, Separators::ListMarks);
    let ghost pv = views(pieces@);
    let n = pieces.len();
    let mut i: usize = 0;
    assert(pv.skip(0) =~= pv);
    while i < n
        invariant
            i <= n,
            n == pieces@.len(),
            pv == views(pieces@),
            pv == split_seq(value@, Separators::ListMarks),
            first_named_container(pv) == first_named_container(pv.skip(i as int)),
        decreases n - i,
    {
        assert(pv.skip(i as int)[0] == pieces@[i as int]@);
        assert(pv.skip(i as int).drop_first() =~= pv.skip(i + 1));
        let v = strip_start_char_exec(trim(pieces[i].as_str()), '.');
        if v.unicode_len() > 0 {
            return owned(v);
        }
        i = i + 1;
    }
    assert(pv.skip(n as int).len() == 0);
    owned("mp4")
}

/// MIME type of a stream codec (trimmed, ASCII lower case); `None` for an
/// unknown codec.
pub open spec fn codec_mime(codec: Seq<char>) -> Option<Seq<char>> {
    let c = ascii_lower_seq(trim_seq(codec));
    if c == "h264"@ || c == "avc"@ {
        Some("video/avc"@)
    } else if c == "hevc"@ || c == "h265"@ {
        Some("video/hevc"@)
    } else if c == "mpeg4"@ {
        Some("video/mp4"@)
    } else if c == "vp8"@ {
        Some("video/x-vnd.on2.vp8"@)
    } else if c == "vp9"@ {
        Some("video/x-vnd.on2.vp9"@)
    } else if c == "av1"@ {
        Some("video/av1"@)
    } else if c == "aac"@ {
        Some("audio/aac"@)
    } else if c == "ac3"@ {
        Some("audio/ac3"@)
    } else if c == "eac3"@ {
        Some("audio/eac3"@)
    } else if c == "dts"@ {
        Some("audio/vnd.dts"@)
    } else if c == "truehd"@ {
        Some("audio/true-hd"@)
    } else if c == "flac"@ {
        Some("audio/flac"@)
    } else if c == "mp3"@ {
        Some("audio/mpeg"@)
    } else if c == "opus"@ {
        Some("audio/opus"@)
    } else if c == "vorbis"@ {
        Some("audio/vorbis"@)
    } else if c == "srt"@ {
        Some("application/x-subrip"@)
    } else if c == "ass"@ || c == "ssa"@ {
        Some("text/x-ssa"@)
    } else if c == "vtt"@ || c == "webvtt"@ {
        Some("text/vtt"@)
    } else if c == "subrip"@ {
        Some("application/x-subrip"@)
    } else if c == "pgssub"@ {
        Some("application/pgs"@)
    } else if c == "mjpeg"@ || c == "jpeg"@ {
        Some("image/jpeg"@)
    } else if c == "png"@ {
        Some("image/png"@)
    } else {
        None
    }
}

/// MIME type of a stream codec, as `codec_mime` states.
pub fn mime_type_for_stream_codec(codec: &str) -> (r: Option<String>)
    ensures
        match r {
            Some(s) => codec_mime(codec@) == Some(s@),
            None => codec_mime(codec@) is None,
        },
{
    let l = to_ascii_lowercase(trim(codec));
    let c = l.as_str();
    let m = if str_eq(c, "h264") || str_eq(c, "avc") {
        "video/avc"
    } else if str_eq(c, "hevc") || str_eq(c, "h265") {
        "video/hevc"
    } else if str_eq(c, "mpeg4") {
        "video/mp4"
    } else if str_eq(c, "vp8") {
        "video/x-vnd.on2.vp8"
    } else if str_eq(c, "vp9") {
        "video/x-vnd.on2.vp9"
    } else if str_eq(c, "av1") {
        "video/av1"
    } else if str_eq(c, "aac") {
        "audio/aac"
    } else if str_eq(c, "ac3") {
        "audio/ac3"
    } else if str_eq(c, "eac3") {
        "audio/eac3"
    } else if str_eq(c, "dts") {
        "audio/vnd.dts"
    } else if str_eq(c, "truehd") {
        "audio/true-hd"
    } else if str_eq(c, "flac") {
        "audio/flac"
    } else if str_eq(c, "mp3") {
        "audio/mpeg"
    } else if str_eq(c, "opus") {
        "audio/opus"
    } else if str_eq(c, "vorbis") {
        "audio/vorbis"
    } else if str_eq(c, "srt") {
        "application/x-subrip"
    } else if str_eq(c, "ass") || str_eq(c, "ssa") {
        "text/x-ssa"
    } else if str_eq(c, "vtt") || str_eq(c, "webvtt") {
        "text/vtt"
    } else if str_eq(c, "subrip") {
        "application/x-subrip"
    } else if str_eq(c, "pgssub") {
        "application/pgs"
    } else if str_eq(c, "mjpeg") || str_eq(c, "jpeg") {
        "image/jpeg"
    } else if str_eq(c, "png") {
        "image/png"
    } else {
        return None;
    };
    Some(owned(m))
}

/// The stream type stored for a reported stream type (trimmed, ASCII lower
/// case); image tracks are stored as data, unknown types not at all.
pub open spec fn db_stream_type(raw: Seq<char>) -> Option<Seq<char>> {
    let t = trim_seq(raw);
    let c = ascii_lower_seq(t);
    if t.len() == 0 {
        None
    } else if c == "video"@ {
        Some("video"@)
    } else if c == "audio"@ {
        Some("audio"@)
    } else if c == "subtitle"@ {
        Some("subtitle"@)
    } else if c == "data"@ {
        Some("data"@)
    } else if c == "attachment"@ {
        Some("attachment"@)
    } else if c == "embeddedimage"@ || c == "stillimage"@ || c == "thumbnail"@ || c == "posterimage"@
        || c == "coverart"@ {
        Some("data"@)
    } else {
        None
    }
}

/// The stream type stored for a reported one, as `db_stream_type` states.
pub fn normalize_stream_type_for_media_streams_db(raw: &str) -> (r: Option<&'static str>)
    ensures
        match r {
            Some(s) => db_stream_type(raw@) == Some(s@),
            None => db_stream_type(raw@) is None,
        },
{
    let t = trim(raw);
    if t.unicode_len() == 0 {
        return None;
    }
    let l = to_ascii_lowercase(t);
    let c = l.as_str();
    if str_eq(c, "video") {
        Some("video")
    } else if str_eq(c, "audio") {
        Some("audio")
    } else if str_eq(c, "subtitle") {
        Some("subtitle")
    } else if str_eq(c, "data") {
        Some("data")
    } else if str_eq(c, "attachment") {
        Some("attachment")
    } else if str_eq(c, "embeddedimage") || str_eq(c, "stillimage") || str_eq(c, "thumbnail")
        || str_eq(c, "posterimage") || str_eq(c, "coverart") {
        Some("data")
    } else {
        None
    }
}

/// The display name of a language code (trimmed; matched in ASCII lower
/// case); an unknown code is shown as given, a blank one not at all.
pub open spec fn language_name(language: Option<Seq<char>>) -> Option<Seq<char>> {
    match language {
        None => None,
        Some(raw) => {
            let code = trim_seq(raw);
            let c = ascii_lower_seq(code);
            if code.len() == 0 {
                None
            } else if c == "eng"@ || c == "en"@ {
                Some("English"@)
            } else if c == "chi"@ || c == "zho"@ || c == "zh"@ || c == "zh-cn"@ || c == "zh-hans"@
                || c == "zh-hant"@ || c == "cht"@ {
                Some("Chinese"@)
            } else if c == "jpn"@ || c == "ja"@ {
                Some("Japanese"@)
            } else if c == "kor"@ || c == "ko"@ {
                Some("Korean"@)
            } else if c == "fre"@ || c == "fra"@ || c == "fr"@ {
                Some("French"@)
            } else if c == "ger"@ || c == "deu"@ || c == "de"@ {
                Some("German"@)
            } else if c == "spa"@ || c == "es"@ {
                Some("Spanish"@)
            } else if c == "ita"@ || c == "it"@ {
                Some("Italian"@)
            } else if c == "rus"@ || c == "ru"@ {
                Some("Russian"@)
            } else {
                Some(code)
            }
        },
    }
}

pub open spec fn opt_str(v: Option<&str>) -> Option<Seq<char>> {
    match v {
        Some(s) => Some(s@),
        None => None,
    }
}

pub open spec fn opt_string(v: Option<String>) -> Option<Seq<char>> {
    match v {
        Some(s) => Some(s@),
        None => None,
    }
}

/// The display name of a language code, as `language_name` states.
pub fn display_language(language: Option<&str>) -> (r: Option<String>)
    ensures
        opt_string(r) == language_name(opt_str(language)),
{
    let raw = match language {
        Some(s) => s,
        None => return None,
    };
    let code = trim(raw);
    if code.unicode_len() == 0 {
        return None;
    }
    let l = to_ascii_lowercase(code);
    let c = l.as_str();
    let d = if str_eq(c, "eng") || str_eq(c, "en") {
        "English"
    } else if str_eq(c, "chi") || str_eq(c, "zho") || str_eq(c, "zh") || str_eq(c, "zh-cn")
        || str_eq(c, "zh-hans") || str_eq(c, "zh-hant") || str_eq(c, "cht") {
        "Chinese"
    } else if str_eq(c, "jpn") || str_eq(c, "ja") {
        "Japanese"
    } else if str_eq(c, "kor") || str_eq(c, "ko") {
        "Korean"
    } else if str_eq(c, "fre") || str_eq(c, "fra") || str_eq(c, "fr") {
        "French"
    } else if str_eq(c, "ger") || str_eq(c, "deu") || str_eq(c, "de") {
        "German"
    } else if str_eq(c, "spa") || str_eq(c, "es") {
        "Spanish"
    } else if str_eq(c, "ita") || str_eq(c, "it") {
        "Italian"
    } else if str_eq(c, "rus") || str_eq(c, "ru") {
        "Russian"
    } else {
        code
    };
    Some(owned(d))
}

/// The channel label of an audio stream: its layout when not blank
/// (trimmed), else a name for the channel count ("mono", "stereo", "5.1",
/// "7.1", or the count itself).
pub open spec fn channels_label(layout: Option<Seq<char>>, channels: Option<i32>) -> Option<Seq<char>> {
    match layout {
        Some(l) if trim_seq(l).len() > 0 => Some(trim_seq(l)),
        _ => match channels {
            Some(1) => Some("mono"@),
            Some(2) => Some("stereo"@),
            Some(6) => Some("5.1"@),
            Some(8) => Some("7.1"@),
            Some(n) => Some(int_decimal(n as int)),
            None => None,
        },
    }
}

/// The channel label of an audio stream, as `channels_label` states.
pub fn format_audio_channels(channel_layout: Option<&str>, channels: Option<i32>) -> (r: Option<String>)
    ensures
        opt_string(r) == channels_label(opt_str(channel_layout), channels),
{
    if let Some(layout) = channel_layout {
        let t = trim(layout);
        if t.unicode_len() != 0 {
            return Some(owned(t));
        }
    }
    match channels {
        Some(1) => Some(owned("mono")),
        Some(2) => Some(owned("stereo")),
        Some(6) => Some(owned("5.1")),
        Some(8) => Some(owned("7.1")),
        Some(n) => Some(i64_to_string(n as i64)),
        None => None,
    }
}

/// A media stream as the titles read it.
pub struct StreamInfo {
    pub codec: Option<String>,
    pub language: Option<String>,
    pub channel_layout: Option<String>,
    pub channels: Option<i32>,
    pub is_default: bool,
    pub is_forced: bool,
    pub width: Option<i32>,
    pub height: Option<i32>,
}

pub open spec fn or_unknown(v: Option<Seq<char>>) -> Seq<char> {
    match v {
        Some(s) => s,
        None => "Unknown"@,
    }
}

/// The title shown for a stream: audio as "<language> <CODEC> [<channels>]",
/// subtitles as "<language> (<CODEC>)" with " Forced", video as
/// "<width>x<height> <CODEC>" or "<CODEC>"; a default audio or subtitle
/// stream is marked " (默认)"; other stream types have no title. The codec
/// is upper-cased (Unicode); missing values read "Unknown".
pub open spec fn stream_title(stream: StreamInfo, stream_type: Seq<char>, language: Option<Seq<char>>) -> Option<
    Seq<char>,
> {
    let codec = unicode_upper(or_unknown(opt_string(stream.codec)));
    let lang = match language {
        Some(l) => l,
        None => or_unknown(opt_string(stream.language)),
    };
    if stream_type == "Audio"@ {
        let base = match channels_label(opt_string(stream.channel_layout), stream.channels) {
            Some(ch) => lang + " "@ + codec + " "@ + ch,
            None => lang + " "@ + codec,
        };
        Some(if stream.is_default { base + " (默认)"@ } else { base })
    } else if stream_type == "Subtitle"@ {
        let base = lang + " ("@ + codec + ")"@;
        let forced = if stream.is_forced { base + " Forced"@ } else { base };
        Some(if stream.is_default { forced + " (默认)"@ } else { forced })
    } else if stream_type == "Video"@ {
        match (stream.width, stream.height) {
            (Some(w), Some(h)) => Some(int_decimal(w as int) + "x"@ + int_decimal(h as int) + " "@ + codec),
            _ => Some(codec),
        }
    } else {
        None
    }
}

fn opt_as_str(v: &Option<String>) -> (r: Option<&str>)
    ensures
        opt_str(r) == opt_string(*v),
{
    match v {
        Some(s) => Some(s.as_str()),
        None => None,
    }
}

/// The title shown for a stream, as `stream_title` states.
pub fn display_title_for_stream(stream: &StreamInfo, stream_type: &str, display_language: Option<&str>) -> (r:
    Option<String>)
    ensures
        opt_string(r) == stream_title(*stream, stream_type@, opt_str(display_language)),
{
    let codec_raw: &str = match &stream.codec {
        Some(c) => c.as_str(),
        None => "Unknown",
    };
    let codec = to_uppercase(codec_raw);
    let lang: &str = match display_language {
        Some(l) => l,
        None => match &stream.language {
            Some(l) => l.as_str(),
            None => "Unknown",
        },
    };
    if str_eq(stream_type, "Audio") {
        let mut title = owned(lang);
        title.append(" ");
        title.append(codec.as_str());
        let ch = format_audio_channels(opt_as_str(&stream.channel_layout), stream.channels);
        if let Some(c) = &ch {
            title.append(" ");
            title.append(c.as_str());
        }
        if stream.is_default {
            title.append(" (默认)");
        }
        return Some(title);
    }
    if str_eq(stream_type, "Subtitle") {
        let mut title = owned(lang);
        title.append(" (");
        title.append(codec.as_str());
        title.append(")");
        if stream.is_forced {
            title.append(" Forced");
        }
        if stream.is_default {
            title.append(" (默认)");
        }
        return Some(title);
    }
    if str_eq(stream_type, "Video") {
        return match (stream.width, stream.height) {
            (Some(w), Some(h)) => {
                let mut title = i64_to_string(w as i64);
                title.append("x");
                let hs = i64_to_string(h as i64);
                title.append(hs.as_str());
                title.append(" ");
                title.append(codec.as_str());
                Some(title)
            },
            _ => Some(codec),
        };
    }
    None
}

/// Item types shown as folders.
pub open spec fn folder_type(item_type: Seq<char>) -> bool {
    item_type == "AggregateFolder"@ || item_type == "BoxSet"@ || item_type == "CollectionFolder"@
        || item_type == "Folder"@ || item_type == "Season"@ || item_type == "Series"@
}

/// Whether an item of this type is a folder, as `folder_type` states.
pub fn is_folder_item(item_type: &str) -> (r: bool)
    ensures
        r == folder_type(item_type@),
{
    str_eq(item_type, "AggregateFolder") || str_eq(item_type, "BoxSet") || str_eq(
        item_type,
        "CollectionFolder",
    ) || str_eq(item_type, "Folder") || str_eq(item_type, "Season") || str_eq(item_type, "Series")
}

/// Whether an item of this type is a folder (for list prefetching).
pub fn is_folder_item_public(item_type: &str) -> (r: bool)
    ensures
        r == folder_type(item_type@),
{
    is_folder_item(item_type)
}

/// The identity scope of an item type: series, movie, audio or item.
pub open spec fn identity_scope(item_type: Seq<char>) -> Seq<char> {
    if item_type == "Series"@ || item_type == "Season"@ || item_type == "Episode"@ {
        "series"@
    } else if item_type == "Movie"@ || item_type == "Trailer"@ || item_type == "Video"@ {
        "movie"@
    } else if item_type == "Audio"@ || item_type == "AudioBook"@ || item_type == "MusicAlbum"@
        || item_type == "MusicArtist"@ {
        "audio"@
    } else {
        "item"@
    }
}

/// The identity scope of an item type, as `identity_scope` states.
pub fn item_identity_scope(item_type: &str) -> (r: &'static str)
    ensures
        r@ == identity_scope(item_type@),
{
    if str_eq(item_type, "Series") || str_eq(item_type, "Season") || str_eq(item_type, "Episode") {
        "series"
    } else if str_eq(item_type, "Movie") || str_eq(item_type, "Trailer") || str_eq(item_type, "Video") {
        "movie"
    } else if str_eq(item_type, "Audio") || str_eq(item_type, "AudioBook") || str_eq(
        item_type,
        "MusicAlbum",
    ) || str_eq(item_type, "MusicArtist") {
        "audio"
    } else {
        "item"
    }
}

/// Integer division rounding towards zero, as Rust divides.
pub open spec fn tdiv(a: int, b: int) -> int {
    if a >= 0 {
        a / b
    } else {
        -((-a) / b)
    }
}

/// Remainder of `tdiv`, with the sign of `a`.
pub open spec fn trem(a: int, b: int) -> int {
    a - tdiv(a, b) * b
}

/// A playback position in ticks (100 ns) as "<minutes>:<seconds, two digits>".
pub open spec fn position_text(ticks: Option<i64>) -> Seq<char> {
    match ticks {
        Some(t) => {
            let total = tdiv(t as int, 10_000_000);
            int_decimal(tdiv(total, 60)) + ":"@ + int_decimal_padded(trem(total, 60), 2)
        },
        None => "0:00"@,
    }
}

fn position_parts(ticks: i64) -> (r: (i64, i64))
    ensures
        r.0 == tdiv(tdiv(ticks as int, 10_000_000), 60),
        r.1 == trem(tdiv(ticks as int, 10_000_000), 60),
{
    if ticks >= 0 {
        let total = ticks / 10_000_000;
        (total / 60, total % 60)
    } else {
        let m: i128 = -(ticks as i128);
        let q: i128 = m / 10_000_000;
        let minutes: i128 = -(q / 60);
        let seconds: i128 = -(q % 60);
        assert(tdiv(ticks as int, 10_000_000) == -q);
        assert(tdiv(-q, 60) == minutes) by {
            if q > 0 {
                assert(-q < 0);
            }
        }
        assert(trem(-q, 60) == seconds) by {
            assert((-q) - tdiv(-q, 60) * 60 == -(q - (q / 60) * 60)) by (nonlinear_arith)
                requires
                    q >= 0,
                    tdiv(-q, 60) == -(q / 60),
            ;
        }
        (minutes as i64, seconds as i64)
    }
}

fn position_string(ticks: Option<i64>) -> (r: String)
    ensures
        r@ == position_text(ticks),
{
    match ticks {
        Some(t) => {
            let (minutes, seconds) = position_parts(t);
            let mut s = i64_to_string(minutes);
            s.append(":");
            let sec = i64_to_padded_string(seconds, 2);
            s.append(sec.as_str());
            s
        },
        None => owned("0:00"),
    }
}

/// The activity-log text of a playback event.
pub open spec fn activity_text(
    user: Seq<char>,
    item: Seq<char>,
    event: Seq<char>,
    ticks: Option<i64>,
    is_paused: Option<bool>,
    completed: Option<bool>,
) -> Seq<char> {
    let position = position_text(ticks);
    if event == "Started"@ {
        user + " 开始播放 "@ + item
    } else if event == "Progress"@ && is_paused == Some(true) {
        user + " 暂停了 "@ + item + "，位置 "@ + position
    } else if event == "Progress"@ {
        user + " 正在观看 "@ + item + "，位置 "@ + position
    } else if event == "Stopped"@ && completed == Some(true) {
        user + " 播放完成 "@ + item
    } else if event == "Stopped"@ {
        user + " 停止播放 "@ + item + "，位置 "@ + position
    } else {
        user + " 发生了播放事件："@ + item
    }
}

/// The activity-log text of a playback event, as `activity_text` states.
pub fn format_activity_overview(
    user_name: &str,
    item_name: &str,
    event_type: &str,
    position_ticks: Option<i64>,
    is_paused: Option<bool>,
    played_to_completion: Option<bool>,
) -> (r: String)
    ensures
        r@ == activity_text(user_name@, item_name@, event_type@, position_ticks, is_paused, played_to_completion),
{
    let position = position_string(position_ticks);
    let mut out = owned(user_name);
    let paused = match is_paused {
        Some(b) => b,
        None => false,
    };
    let completed = match played_to_completion {
        Some(b) => b,
        None => false,
    };
    if str_eq(event_type, "Started") {
        out.append(" 开始播放 ");
        out.append(item_name);
    } else if str_eq(event_type, "Progress") && paused {
        out.append(" 暂停了 ");
        out.append(item_name);
        out.append("，位置 ");
        out.append(position.as_str());
    } else if str_eq(event_type, "Progress") {
        out.append(" 正在观看 ");
        out.append(item_name);
        out.append("，位置 ");
        out.append(position.as_str());
    } else if str_eq(event_type, "Stopped") && completed {
        out.append(" 播放完成 ");
        out.append(item_name);
    } else if str_eq(event_type, "Stopped") {
        out.append(" 停止播放 ");
        out.append(item_name);
        out.append("，位置 ");
        out.append(position.as_str());
    } else {
        out.append(" 发生了播放事件：");
        out.append(item_name);
    }
    out
}

/// The entity tag of an item: its modification time in seconds.
pub fn item_etag(date_modified_seconds: i64) -> (r: String)
    ensures
        r@ == int_decimal(date_modified_seconds as int),
{
    i64_to_string(date_modified_seconds)
}

/// The trailer links that are not blank, in order.
pub open spec fn trailer_urls(urls: Seq<Seq<char>>) -> Seq<Seq<char>>
    decreases urls.len(),
{
    if urls.len() == 0 {
        urls
    } else if is_blank(urls.last()) {
        trailer_urls(urls.drop_last())
    } else {
        trailer_urls(urls.drop_last()).push(urls.last())
    }
}

/// The remote trailers of an item: its trailer links that are not blank.
pub fn remote_trailers_from_urls(urls: &Vec<String>) -> (r: Vec<String>)
    ensures
        views(r@) == trailer_urls(views(urls@)),
{
    let ghost uv = views(urls@);
    let mut out: Vec<String> = Vec::new();
    let n = urls.len();
    let mut i: usize = 0;
    assert(uv.take(0) =~= Seq::<Seq<char>>::empty());
    while i < n
        invariant
            i <= n,
            n == urls@.len(),
            uv == views(urls@),
            views(out@) == trailer_urls(uv.take(i as int)),
        decreases n - i,
    {
        proof {
            assert(uv.take(i + 1).drop_last() =~= uv.take(i as int));
            assert(uv.take(i + 1).last() == uv[i as int]);
        }
        if !is_blank_str(urls[i].as_str()) {
            out.push(urls[i].clone());
            assert(views(out@) =~= views(out@).drop_last().push(uv[i as int]));
        }
        i = i + 1;
    }
    assert(uv.take(n as int) =~= uv);
    out
}

} // verus!
