//! Subtitle files next to a video: the stream indices they are listed
//! under, after the streams stored for the item, and how they are shown.

use vstd::prelude::*;
use crate::media::{is_text_based_subtitle, subtitle_mime, subtitle_mime_type, text_subtitle};
use crate::text::{i64_to_string, int_decimal, owned, str_eq, views};

verus! {

/// Whether the sidecar indices of `count` files after streams up to
/// `max_db_index` fit in an `i32`.
pub open spec fn indices_fit(max_db_index: i32, count: nat) -> bool {
    max_db_index + count < i32::MAX
}

/// The stream index of the sidecar file at `offset`: one past the largest
/// stored index, then in file order.
pub open spec fn sidecar_index(max_db_index: i32, offset: int) -> int {
    max_db_index + 1 + offset
}

/// The file position a stream index names, if it names one of `count`
/// sidecar files.
pub open spec fn sidecar_offset(max_db_index: i32, count: nat, stream_index: i32) -> Option<int> {
    let offset = stream_index - (max_db_index + 1);
    if 0 <= offset < count {
        Some(offset)
    } else {
        None
    }
}

/// The first position of `path` among the files.
pub open spec fn first_position(paths: Seq<Seq<char>>, path: Seq<char>) -> Option<int>
    decreases paths.len(),
{
    if paths.len() == 0 {
        None
    } else {
        match first_position(paths.drop_last(), path) {
            Some(p) => Some(p),
            None => if paths.last() == path {
                Some(paths.len() - 1)
            } else {
                None
            },
        }
    }
}

/// The position of the sidecar file a stream index names (see
/// `sidecar_offset`).
pub fn sidecar_position_for_index(max_db_index: i32, count: usize, stream_index: i32) -> (r: Option<usize>)
    requires
        max_db_index < i32::MAX,
    ensures
        match r {
            Some(p) => sidecar_offset(max_db_index, count as nat, stream_index) == Some(p as int),
            None => sidecar_offset(max_db_index, count as nat, stream_index) is None,
        },
{
    let offset: i64 = stream_index as i64 - (max_db_index as i64 + 1);
    if offset >= 0 && (offset as u64) < (count as u64) {
        Some(offset as usize)
    } else {
        None
    }
}

/// The stream index of a sidecar file, found by its full path among the
/// files (the first match).
pub fn sidecar_index_for_path(max_db_index: i32, paths: &Vec<String>, path: &str) -> (r: Option<i32>)
    requires
        indices_fit(max_db_index, paths@.len()),
    ensures
        match first_position(views(paths@), path@) {
            Some(p) => r == Some(sidecar_index(max_db_index, p) as i32),
            None => r is None,
        },
{
    let ghost ps = views(paths@);
    let n = paths.len();
    let mut i: usize = 0;
    while i < n
        invariant
            i <= n,
            n == paths@.len(),
            ps == views(paths@),
            indices_fit(max_db_index, n as nat),
            first_position(ps.take(i as int), path@) is None,
        decreases n - i,
    {
        proof {
            assert(ps.take(i + 1).drop_last() =~= ps.take(i as int));
            assert(ps.take(i + 1).last() == paths@[i as int]@);
        }
        if str_eq(paths[i].as_str(), path) {
            assert(first_position(ps.take(i + 1), path@) == Some(i as int));
            proof {
                lemma_first_position_prefix(ps, path@, i + 1);
            }
            let index: i64 = max_db_index as i64 + 1 + i as i64;
            return Some(index as i32);
        }
        i = i + 1;
    }
    assert(ps.take(n as int) =~= ps);
    None
}

proof fn lemma_first_position_prefix(paths: Seq<Seq<char>>, path: Seq<char>, k: int)
    requires
        0 <= k <= paths.len(),
        first_position(paths.take(k), path) is Some,
    ensures
        first_position(paths, path) == first_position(paths.take(k), path),
    decreases paths.len() - k,
{
    if k < paths.len() {
        assert(paths.take(k + 1).drop_last() =~= paths.take(k));
        lemma_first_position_prefix(paths, path, k + 1);
    } else {
        assert(paths.take(k) =~= paths);
    }
}

proof fn lemma_first_position_found(paths: Seq<Seq<char>>, path: Seq<char>)
    ensures
        match first_position(paths, path) {
            Some(p) => 0 <= p < paths.len() && paths[p] == path,
            None => !paths.contains(path),
        },
    decreases paths.len(),
{
    if paths.len() > 0 {
        lemma_first_position_found(paths.drop_last(), path);
        if first_position(paths.drop_last(), path) is None && paths.last() != path {
            assert forall|j: int| 0 <= j < paths.len() implies paths[j] != path by {
                if j < paths.len() - 1 {
                    assert(paths.drop_last()[j] == paths[j]);
                }
            }
        }
    }
}

/// Looking up the index a sidecar file is listed under gives back that
/// file: the index names the file's first position, which holds the file.
pub proof fn law_sidecar_index_roundtrip(max_db_index: i32, paths: Seq<Seq<char>>, path: Seq<char>)
    requires
        indices_fit(max_db_index, paths.len()),
        paths.contains(path),
    ensures
        first_position(paths, path) is Some,
        sidecar_offset(
            max_db_index,
            paths.len(),
            sidecar_index(max_db_index, first_position(paths, path)->0) as i32,
        ) == first_position(paths, path),
        paths[first_position(paths, path)->0] == path,
{
    lemma_first_position_found(paths, path);
}

/// A subtitle file found next to a video.
pub struct SidecarSubtitle {
    pub format: String,
    pub language: Option<String>,
    pub title: String,
}

/// A sidecar subtitle as a stream of the item.
pub struct SidecarStream {
    pub index: i32,
    pub codec: String,
    pub language: Option<String>,
    pub display_title: String,
    pub delivery_url: String,
    pub is_text_subtitle_stream: bool,
    pub mime_type: String,
    pub item_id: String,
    pub server_id: String,
}

/// The address a sidecar subtitle is fetched from.
pub open spec fn delivery_url(item_id: Seq<char>, index: int, format: Seq<char>) -> Seq<char> {
    "/Videos/"@ + item_id + "/mediasource_"@ + item_id + "/Subtitles/"@ + int_decimal(index) + "/Stream."@ + format
}

/// Whether `s` shows the sidecar file `sub` at `offset` for the item with id
/// `item_id`: external and delivered over its own address, text or not by
/// its format.
pub open spec fn shows_sidecar(
    s: SidecarStream,
    sub: SidecarSubtitle,
    max_db_index: i32,
    offset: int,
    item_id: Seq<char>,
    server_id: Seq<char>,
) -> bool {
    let index = sidecar_index(max_db_index, offset);
    &&& s.index == index
    &&& s.codec@ == sub.format@
    &&& s.language == sub.language
    &&& s.display_title@ == sub.title@
    &&& s.delivery_url@ == delivery_url(item_id, index, sub.format@)
    &&& s.is_text_subtitle_stream == text_subtitle(sub.format@)
    &&& s.mime_type@ == subtitle_mime(sub.format@)
    &&& s.item_id@ == item_id
    &&& s.server_id@ == server_id
}

/// The streams of the sidecar subtitles of an item, numbered after the
/// stored streams (see `shows_sidecar`).
pub fn sidecar_streams(subtitles: Vec<SidecarSubtitle>, max_db_index: i32, item_id: &str, server_id: &str) -> (r: Vec<
    SidecarStream,
>)
    requires
        indices_fit(max_db_index, subtitles@.len()),
    ensures
        r@.len() == subtitles@.len(),
        forall|k: int|
            0 <= k < r@.len() ==> shows_sidecar(
                #[trigger] r@[k],
                subtitles@[k],
                max_db_index,
                k,
                item_id@,
                server_id@,
            ),
{
    let ghost subs = subtitles@;
    let mut out: Vec<SidecarStream> = Vec::new();
    let n = subtitles.len();
    let mut i: usize = 0;
    while i < n
        invariant
            i <= n,
            n == subs.len(),
            subs == subtitles@,
            indices_fit(max_db_index, n as nat),
            out@.len() == i,
            forall|k: int|
                0 <= k < i ==> shows_sidecar(#[trigger] out@[k], subs[k], max_db_index, k, item_id@, server_id@),
        decreases n - i,
    {
        let sub = &subtitles[i];
        let index: i32 = (max_db_index as i64 + 1 + i as i64) as i32;
        let mut url = owned("/Videos/");
        url.append(item_id);
        url.append("/mediasource_");
        url.append(item_id);
        url.append("/Subtitles/");
        let number = i64_to_string(index as i64);
        url.append(number.as_str());
        url.append("/Stream.");
        url.append(sub.format.as_str());
        let stream = SidecarStream {
            index,
            codec: sub.format.clone(),
            language: match &sub.language {
                Some(l) => Some(l.clone()),
                None => None,
            },
            display_title: sub.title.clone(),
            delivery_url: url,
            is_text_subtitle_stream: is_text_based_subtitle(sub.format.as_str()),
            mime_type: subtitle_mime_type(sub.format.as_str()),
            item_id: owned(item_id),
            server_id: owned(server_id),
        };
        out.push(stream);
        i = i + 1;
    }
    out
}

} // verus!
