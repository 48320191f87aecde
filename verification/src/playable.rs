//! The source offered for playing an item together with what is found
//! beside it: the sidecar subtitle files, listed after the stored streams,
//! and the item's chapters.

use vstd::prelude::*;
use crate::detail::{chapter_view, shows_chapter, ChapterView};
use crate::ids::{simple_form, simple_id};
use crate::media::{subtitle_mime, text_subtitle};
use crate::source::{
    first_stream, first_stream_exec, is_source_with_streams, legacy_remote_path, provider_remote, media_source_for_item_with_db_streams, opt_str_text, opt_text,
    source_fields, MediaSource, SourceItem,
};
use crate::streams::{is_stream_view, StreamView};
use crate::text::owned;
use crate::streams::StreamRow;
use crate::subtitles::{delivery_url, indices_fit, shows_sidecar, sidecar_index, sidecar_streams, SidecarStream, SidecarSubtitle};

verus! {

/// A stored chapter of an item.
pub struct ChapterRow {
    pub start_position_ticks: i64,
    pub name: Option<String>,
    pub chapter_index: i32,
    pub has_image: bool,
    /// When the chapter was last changed, in seconds since the Unix epoch.
    pub updated_seconds: i64,
    pub marker_type: Option<String>,
}

/// What is offered for playing an item: the source, whose streams are the
/// stored ones followed by the sidecar subtitles, and the chapters.
pub struct PlayableSource {
    pub source: MediaSource,
    pub chapters: Vec<ChapterView>,
}

/// Whether `v` lists the sidecar file `sub` at `offset` among a source's
/// streams: an external `Subtitle` stream numbered after the stored ones,
/// delivered over its own address, never the default nor forced.
pub open spec fn lists_sidecar(
    v: StreamView,
    sub: SidecarSubtitle,
    max_db_index: i32,
    offset: int,
    item_id: Seq<char>,
    server_id: Seq<char>,
) -> bool {
    let index = sidecar_index(max_db_index, offset);
    &&& v.index == index
    &&& v.stream_type@ == "Subtitle"@
    &&& opt_text(v.codec) == Some(sub.format@)
    &&& opt_text(v.language) == opt_text(sub.language)
    &&& v.display_language is None
    &&& opt_text(v.display_title) == Some(sub.title@)
    &&& !v.is_default && !v.is_forced && v.is_external
    &&& v.width is None && v.height is None
    &&& opt_text(v.delivery_method) == Some("External"@)
    &&& opt_text(v.delivery_url) == Some(delivery_url(item_id, index, sub.format@))
    &&& opt_text(v.subtitle_location_type) == Some("External"@)
    &&& v.supports_external_stream
    &&& v.is_text_subtitle_stream == Some(text_subtitle(sub.format@))
    &&& opt_text(v.protocol) == Some("File"@)
    &&& opt_text(v.item_id) == Some(item_id)
    &&& opt_text(v.server_id) == Some(server_id)
    &&& opt_text(v.mime_type) == Some(subtitle_mime(sub.format@))
}

/// A copy of a text that may be absent.
fn copy_opt(v: &Option<String>) -> (r: Option<String>)
    ensures
        opt_text(r) == opt_text(*v),
{
    match v {
        Some(s) => Some(s.clone()),
        None => None,
    }
}

/// A sidecar subtitle as one of the source's streams.
fn sidecar_view(s: &SidecarStream) -> (v: StreamView)
    ensures
        forall|sub: SidecarSubtitle, max: i32, offset: int, item_id: Seq<char>, server_id: Seq<char>|
            #[trigger] shows_sidecar(*s, sub, max, offset, item_id, server_id) ==> lists_sidecar(
                v,
                sub,
                max,
                offset,
                item_id,
                server_id,
            ),
{
    StreamView {
        index: s.index,
        stream_type: owned("Subtitle"),
        codec: Some(s.codec.clone()),
        language: copy_opt(&s.language),
        display_language: None,
        display_title: Some(s.display_title.clone()),
        is_default: false,
        is_forced: false,
        is_external: true,
        width: None,
        height: None,
        delivery_method: Some(owned("External")),
        delivery_url: Some(s.delivery_url.clone()),
        subtitle_location_type: Some(owned("External")),
        supports_external_stream: true,
        is_text_subtitle_stream: Some(s.is_text_subtitle_stream),
        protocol: Some(owned("File")),
        item_id: Some(s.item_id.clone()),
        server_id: Some(s.server_id.clone()),
        mime_type: Some(s.mime_type.clone()),
    }
}

/// The largest stored stream index (of at least one stream).
pub open spec fn max_index(rows: Seq<StreamRow>) -> int
    decreases rows.len(),
{
    if rows.len() <= 1 {
        if rows.len() == 1 { rows[0].index as int } else { 0 }
    } else {
        let prev = max_index(rows.drop_last());
        if rows.last().index > prev { rows.last().index as int } else { prev }
    }
}

/// The largest stored stream index, as `max_index` states.
fn max_stream_index(rows: &Vec<StreamRow>) -> (r: i32)
    requires
        rows@.len() > 0,
    ensures
        r == max_index(rows@),
{
    let mut best = rows[0].index;
    let n = rows.len();
    let mut i: usize = 1;
    assert(rows@.take(1) =~= seq![rows@[0]]);
    while i < n
        invariant
            1 <= i <= n,
            n == rows@.len(),
            best == max_index(rows@.take(i as int)),
        decreases n - i,
    {
        assert(rows@.take(i + 1).drop_last() =~= rows@.take(i as int));
        assert(rows@.take(i + 1).last() == rows@[i as int]);
        if rows[i].index > best {
            best = rows[i].index;
        }
        i = i + 1;
    }
    assert(rows@.take(n as int) =~= rows@);
    best
}

/// What is offered for playing an item. Without stored streams: the plain
/// source (as `is_source_with_streams` states). With them: the source whose
/// streams are the stored ones (shown as `is_stream_view` states) followed
/// by the sidecar files as external subtitle streams numbered after the
/// largest stored index, in file order; its default audio and subtitle
/// streams are chosen over that whole list. And each chapter in order.
pub fn media_source_with_streams(
    item: &SourceItem,
    server_id: u128,
    db_streams: &Vec<StreamRow>,
    strm_target: Option<&str>,
    target_extension: Option<&str>,
    estimate: Option<i64>,
    file_len: Option<i64>,
    subtitles: Vec<SidecarSubtitle>,
    chapters: &Vec<ChapterRow>,
) -> (r: PlayableSource)
    requires
        db_streams@.len() > 0 ==> indices_fit(max_index(db_streams@) as i32, subtitles@.len()),
    ensures
        db_streams@.len() == 0 ==> is_source_with_streams(
            r.source,
            *item,
            server_id,
            db_streams@,
            opt_str_text(strm_target),
            opt_str_text(target_extension),
            estimate,
            file_len,
        ),
        db_streams@.len() > 0 ==> {
            let ms = r.source.media_streams@;
            let n = db_streams@.len();
            &&& opt_text(r.source.server_id) == Some(simple_form(server_id))
            &&& source_fields(
                r.source,
                *item,
                opt_str_text(strm_target),
                opt_str_text(target_extension),
                estimate,
                file_len,
            )
            &&& ms.len() == n + subtitles@.len()
            &&& forall|i: int|
                0 <= i < n ==> #[trigger] is_stream_view(ms[i], db_streams@[i], item.id, server_id, r.source.is_remote)
            &&& forall|j: int|
                0 <= j < subtitles@.len() ==> lists_sidecar(
                    #[trigger] ms[n + j],
                    subtitles@[j],
                    max_index(db_streams@) as i32,
                    j,
                    simple_form(item.id),
                    simple_form(server_id),
                )
            &&& r.source.default_audio_stream_index == (match first_stream(ms, "Audio"@, true) {
                Some(i) => Some(i),
                None => first_stream(ms, "Audio"@, false),
            })
            &&& r.source.default_subtitle_stream_index == first_stream(ms, "Subtitle"@, true)
            &&& r.source.required_http_headers@.map_values(|h: (String, String)| (h.0@, h.1@)) == (if r.source.is_remote {
                Seq::empty()
            } else {
                seq![("Accept-Ranges"@, "bytes"@)]
            })
        },
        r.chapters@.len() == chapters@.len(),
        forall|k: int|
            0 <= k < chapters@.len() ==> shows_chapter(
                #[trigger] r.chapters@[k],
                chapters@[k].start_position_ticks,
                chapters@[k].name,
                chapters@[k].chapter_index,
                chapters@[k].has_image,
                chapters@[k].updated_seconds,
                chapters@[k].marker_type,
            ),
{
    let mut shown: Vec<ChapterView> = Vec::new();
    let n = chapters.len();
    let mut i: usize = 0;
    while i < n
        invariant
            i <= n,
            n == chapters@.len(),
            shown@.len() == i,
            forall|k: int|
                0 <= k < i ==> shows_chapter(
                    #[trigger] shown@[k],
                    chapters@[k].start_position_ticks,
                    chapters@[k].name,
                    chapters@[k].chapter_index,
                    chapters@[k].has_image,
                    chapters@[k].updated_seconds,
                    chapters@[k].marker_type,
                ),
        decreases n - i,
    {
        let c = &chapters[i];
        let name = match &c.name {
            Some(s) => Some(s.clone()),
            None => None,
        };
        let marker = match &c.marker_type {
            Some(s) => Some(s.clone()),
            None => None,
        };
        let v = chapter_view(c.start_position_ticks, name, c.chapter_index, c.has_image, c.updated_seconds, marker);
        shown.push(v);
        i = i + 1;
    }
    let mut source = media_source_for_item_with_db_streams(
        item,
        server_id,
        db_streams,
        strm_target,
        target_extension,
        estimate,
        file_len,
    );
    if db_streams.len() > 0 {
        let top = max_stream_index(db_streams);
        let item_id = simple_id(item.id);
        let server = simple_id(server_id);
        let ghost subs = subtitles@;
        let sidecars = sidecar_streams(subtitles, top, item_id.as_str(), server.as_str());
        let ghost stored = source.media_streams@;
        let nd = source.media_streams.len();
        let mut streams = source.media_streams;
        let m = sidecars.len();
        let mut j: usize = 0;
        while j < m
            invariant
                j <= m,
                m == sidecars@.len(),
                m == subs.len(),
                nd == stored.len(),
                streams@.len() == nd + j,
                forall|i: int| 0 <= i < nd ==> #[trigger] streams@[i] == stored[i],
                forall|k: int|
                    0 <= k < sidecars@.len() ==> shows_sidecar(
                        #[trigger] sidecars@[k],
                        subs[k],
                        top,
                        k,
                        item_id@,
                        server@,
                    ),
                forall|k: int|
                    0 <= k < j ==> lists_sidecar(#[trigger] streams@[nd + k], subs[k], top, k, item_id@, server@),
            decreases m - j,
        {
            let v = sidecar_view(&sidecars[j]);
            proof {
                assert(shows_sidecar(sidecars@[j as int], subs[j as int], top, j as int, item_id@, server@));
            }
            let ghost before = streams@;
            streams.push(v);
            proof {
                assert forall|k: int| 0 <= k < j + 1 implies lists_sidecar(#[trigger] streams@[nd + k], subs[k], top, k, item_id@, server@) by {
                    if k < j {
                        assert(streams@[nd + k] == before[nd + k]);
                    }
                }
            }
            j = j + 1;
        }
        let audio = match first_stream_exec(&streams, "Audio", true) {
            Some(i) => Some(i),
            None => first_stream_exec(&streams, "Audio", false),
        };
        let subtitle = first_stream_exec(&streams, "Subtitle", true);
        proof {
            assert(nd == db_streams@.len());
            assert(max_index(db_streams@) as i32 == top);
            assert forall|k: int| 0 <= k < subs.len() implies lists_sidecar(
                #[trigger] streams@[db_streams@.len() + k],
                subs[k],
                max_index(db_streams@) as i32,
                k,
                simple_form(item.id),
                simple_form(server_id),
            ) by {
                assert(lists_sidecar(streams@[nd + k], subs[k], top, k, item_id@, server@));
            }
        }
        source.media_streams = streams;
        source.default_audio_stream_index = audio;
        source.default_subtitle_stream_index = subtitle;
        assert(forall|j: int|
            0 <= j < subs.len() ==> lists_sidecar(
                #[trigger] source.media_streams@[db_streams@.len() + j],
                subs[j],
                max_index(db_streams@) as i32,
                j,
                simple_form(item.id),
                simple_form(server_id),
            ));
    }
    PlayableSource { source, chapters: shown }
}

} // verus!
