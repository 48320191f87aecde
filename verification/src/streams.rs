//! Media streams of an item (video, audio, subtitle tracks) as shown to
//! clients: their type, titles, delivery and format.

use vstd::prelude::*;
use crate::ids::{simple_form, simple_id};
use crate::media::{
    codec_mime, display_language, display_title_for_stream, is_text_based_subtitle, language_name,
    mime_type_for_stream_codec, opt_str, opt_string, stream_title, text_subtitle, StreamInfo,
};
use crate::text::{i64_to_string, int_decimal, owned, str_eq};

verus! {

/// A stored stream of an item.
pub struct StreamRow {
    pub index: i32,
    /// The stored type: `video`, `audio`, `subtitle` or another word.
    pub stream_type: String,
    pub info: StreamInfo,
    pub is_external: bool,
    pub is_text_subtitle_stream: Option<bool>,
}

/// The decided fields of a stream as shown to clients.
pub struct StreamView {
    pub index: i32,
    pub stream_type: String,
    pub codec: Option<String>,
    pub language: Option<String>,
    pub display_language: Option<String>,
    pub display_title: Option<String>,
    pub is_default: bool,
    pub is_forced: bool,
    pub is_external: bool,
    pub width: Option<i32>,
    pub height: Option<i32>,
    pub delivery_method: Option<String>,
    pub delivery_url: Option<String>,
    pub subtitle_location_type: Option<String>,
    pub supports_external_stream: bool,
    pub is_text_subtitle_stream: Option<bool>,
    pub protocol: Option<String>,
    pub item_id: Option<String>,
    pub server_id: Option<String>,
    pub mime_type: Option<String>,
}

/// The type name shown for a stored stream type.
pub open spec fn shown_type(raw: Seq<char>) -> Seq<char> {
    if raw == "video"@ {
        "Video"@
    } else if raw == "audio"@ {
        "Audio"@
    } else if raw == "subtitle"@ {
        "Subtitle"@
    } else {
        raw
    }
}

/// Whether a stream's codec is a text subtitle format.
pub open spec fn text_codec(codec: Option<String>) -> bool {
    codec is Some && text_subtitle(codec->0@)
}

/// The address an external subtitle is fetched from.
pub open spec fn subtitle_url(item_id: u128, index: i32, codec: Option<String>) -> Seq<char> {
    let emby = simple_form(item_id);
    "/Videos/"@ + emby + "/mediasource_"@ + emby + "/Subtitles/"@ + int_decimal(index as int) + "/Stream."@
        + (match codec { Some(c) => c@, None => "sub"@ })
}

/// Whether `v` shows the stored stream `s` of item `item_id`.
pub open spec fn is_stream_view(v: StreamView, s: StreamRow, item_id: u128, server_id: u128, is_remote: bool) -> bool {
    let t = shown_type(s.stream_type@);
    let lang = language_name(opt_string(s.info.language));
    let subtitle = t == "Subtitle"@;
    &&& v.index == s.index
    &&& v.stream_type@ == t
    &&& opt_string(v.codec) == opt_string(s.info.codec)
    &&& opt_string(v.language) == opt_string(s.info.language)
    &&& opt_string(v.display_language) == lang
    &&& opt_string(v.display_title) == stream_title(s.info, t, lang)
    &&& v.is_default == s.info.is_default
    &&& v.is_forced == s.info.is_forced
    &&& v.is_external == s.is_external
    &&& v.width == s.info.width
    &&& v.height == s.info.height
    &&& opt_string(v.delivery_method) == (if !subtitle {
        None
    } else if s.is_external {
        Some("External"@)
    } else {
        Some("Embed"@)
    })
    &&& opt_string(v.delivery_url) == (if subtitle && s.is_external {
        Some(subtitle_url(item_id, s.index, s.info.codec))
    } else {
        None
    })
    &&& opt_string(v.subtitle_location_type) == (if !subtitle {
        None
    } else if s.is_external {
        Some("External"@)
    } else {
        Some("InternalStream"@)
    })
    &&& v.supports_external_stream == (s.is_external || text_codec(s.info.codec))
    &&& v.is_text_subtitle_stream == (match s.is_text_subtitle_stream {
        Some(b) => Some(b),
        None => if subtitle { Some(text_codec(s.info.codec)) } else { None },
    })
    &&& opt_string(v.protocol) == Some(if is_remote { "Http"@ } else { "File"@ })
    &&& opt_string(v.item_id) == Some(simple_form(item_id))
    &&& opt_string(v.server_id) == Some(simple_form(server_id))
    &&& opt_string(v.mime_type) == (match s.info.codec { Some(c) => codec_mime(c@), None => None })
}

fn copy_opt(v: &Option<String>) -> (r: Option<String>)
    ensures
        opt_string(r) == opt_string(*v),
{
    match v {
        Some(s) => Some(s.clone()),
        None => None,
    }
}

fn as_opt_str(v: &Option<String>) -> (r: Option<&str>)
    ensures
        opt_str(r) == opt_string(*v),
{
    match v {
        Some(s) => Some(s.as_str()),
        None => None,
    }
}

fn codec_is_text(codec: &Option<String>) -> (r: bool)
    ensures
        r == text_codec(*codec),
{
    match codec {
        Some(c) => is_text_based_subtitle(c.as_str()),
        None => false,
    }
}

/// A stored stream as shown to clients, as `is_stream_view` states.
pub fn stream_to_view(s: &StreamRow, item_id: u128, server_id: u128, is_remote: bool) -> (r: StreamView)
    ensures
        is_stream_view(r, *s, item_id, server_id, is_remote),
{
    let raw = s.stream_type.as_str();
    let t = if str_eq(raw, "video") {
        owned("Video")
    } else if str_eq(raw, "audio") {
        owned("Audio")
    } else if str_eq(raw, "subtitle") {
        owned("Subtitle")
    } else {
        owned(raw)
    };
    let subtitle = str_eq(t.as_str(), "Subtitle");
    let lang = display_language(as_opt_str(&s.info.language));
    let title = display_title_for_stream(&s.info, t.as_str(), as_opt_str(&lang));
    let (method, url, location) = if subtitle {
        if s.is_external {
            let emby = simple_id(item_id);
            let mut u = owned("/Videos/");
            u.append(emby.as_str());
            u.append("/mediasource_");
            u.append(emby.as_str());
            u.append("/Subtitles/");
            let idx = i64_to_string(s.index as i64);
            u.append(idx.as_str());
            u.append("/Stream.");
            match &s.info.codec {
                Some(c) => u.append(c.as_str()),
                None => u.append("sub"),
            }
            (Some(owned("External")), Some(u), Some(owned("External")))
        } else {
            (Some(owned("Embed")), None, Some(owned("InternalStream")))
        }
    } else {
        (None, None, None)
    };
    let text = codec_is_text(&s.info.codec);
    let is_text_subtitle_stream = match s.is_text_subtitle_stream {
        Some(b) => Some(b),
        None => if subtitle { Some(text) } else { None },
    };
    let mime = match &s.info.codec {
        Some(c) => mime_type_for_stream_codec(c.as_str()),
        None => None,
    };
    StreamView {
        index: s.index,
        stream_type: t,
        codec: copy_opt(&s.info.codec),
        language: copy_opt(&s.info.language),
        display_language: lang,
        display_title: title,
        is_default: s.info.is_default,
        is_forced: s.info.is_forced,
        is_external: s.is_external,
        width: s.info.width,
        height: s.info.height,
        delivery_method: method,
        delivery_url: url,
        subtitle_location_type: location,
        supports_external_stream: s.is_external || text,
        is_text_subtitle_stream,
        protocol: Some(if is_remote { owned("Http") } else { owned("File") }),
        item_id: Some(simple_id(item_id)),
        server_id: Some(simple_id(server_id)),
        mime_type: mime,
    }
}

/// The stored streams of an item as shown to clients, in order.
pub fn convert_db_streams_to_dto(item_id: u128, db_streams: &Vec<StreamRow>, server_id: u128, is_remote: bool) -> (r: Vec<StreamView>)
    ensures
        r@.len() == db_streams@.len(),
        forall|i: int| 0 <= i < r@.len() ==> #[trigger] is_stream_view(r@[i], db_streams@[i], item_id, server_id, is_remote),
{
    let mut out: Vec<StreamView> = Vec::new();
    let n = db_streams.len();
    let mut i: usize = 0;
    while i < n
        invariant
            i <= n,
            n == db_streams@.len(),
            out@.len() == i,
            forall|j: int| 0 <= j < i ==> #[trigger] is_stream_view(out@[j], db_streams@[j], item_id, server_id, is_remote),
        decreases n - i,
    {
        let v = stream_to_view(&db_streams[i], item_id, server_id, is_remote);
        out.push(v);
        i = i + 1;
    }
    out
}

} // verus!
