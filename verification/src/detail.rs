//! What an item's detail view takes from its parent, its series and its
//! media sources.

use vstd::prelude::*;
use crate::ids::{simple_form, simple_id};
use crate::source::MediaSource;
use crate::streams::StreamView;
use crate::userdata::{is_empty_data, list_user_data, shows_row, UserItemData, UserItemRow};
use crate::text::{
    eq_ignore_ascii_case, eq_ignore_case_seq, i64_to_padded_string, i64_to_string, int_decimal, int_decimal_padded, owned,
    str_eq, views,
};

verus! {

/// What the detail view reads of an item's parent or series.
pub struct RelatedItem {
    pub id: u128,
    pub name: String,
    pub item_type: String,
    pub has_primary_image: bool,
    pub has_logo: bool,
    pub has_backdrop: bool,
    /// How many further backdrop images it has.
    pub extra_backdrops: usize,
    pub has_thumb: bool,
    /// Seconds since the Unix epoch of its last change.
    pub date_modified: i64,
}

/// The fields a detail view inherits.
pub struct Inherited {
    pub parent_logo_item_id: Option<String>,
    pub parent_logo_image_tag: Option<String>,
    pub parent_backdrop_item_id: Option<String>,
    pub parent_backdrop_image_tags: Vec<String>,
    pub parent_thumb_item_id: Option<String>,
    pub parent_thumb_image_tag: Option<String>,
    pub series_primary_image_tag: Option<String>,
    pub series_name: Option<String>,
    pub season_name: Option<String>,
}

/// The text of an optional string.
pub open spec fn opt_view(v: Option<String>) -> Option<Seq<char>> {
    match v {
        Some(s) => Some(s@),
        None => None,
    }
}

/// The image kinds an item may pass on.
#[derive(Clone, Copy, PartialEq, Eq, Structural)]
pub enum ImageKind {
    Logo,
    Backdrop,
    Thumb,
}

pub open spec fn has_kind(r: RelatedItem, kind: ImageKind) -> bool {
    match kind {
        ImageKind::Logo => r.has_logo,
        ImageKind::Backdrop => r.has_backdrop,
        ImageKind::Thumb => r.has_thumb,
    }
}

/// The item an image kind is inherited from: the parent when it has such
/// an image, else the series when it has one.
pub open spec fn image_source(parent: Option<RelatedItem>, series: Option<RelatedItem>, kind: ImageKind) -> Option<RelatedItem> {
    if parent is Some && has_kind(parent->0, kind) {
        parent
    } else if series is Some && has_kind(series->0, kind) {
        series
    } else {
        None
    }
}

pub open spec fn source_id(r: Option<RelatedItem>) -> Option<Seq<char>> {
    match r {
        Some(x) => Some(simple_form(x.id)),
        None => None,
    }
}

pub open spec fn source_tag(r: Option<RelatedItem>) -> Option<Seq<char>> {
    match r {
        Some(x) => Some(int_decimal(x.date_modified as int)),
        None => None,
    }
}

/// Whether `r` holds what an item with the given series and season names
/// inherits from its parent and series: logo, backdrops and thumb from the
/// first of them that has such an image (all its backdrops, tagged with its
/// change time), the series' primary image tag, the series' name when the
/// item has none, and the parent's name as season name when the parent is a
/// season and the item has none.
pub open spec fn is_inherited(
    r: Inherited,
    series_name: Option<String>,
    season_name: Option<String>,
    parent: Option<RelatedItem>,
    series: Option<RelatedItem>,
) -> bool {
    let logo = image_source(parent, series, ImageKind::Logo);
    let backdrop = image_source(parent, series, ImageKind::Backdrop);
    let thumb = image_source(parent, series, ImageKind::Thumb);
    &&& opt_view(r.parent_logo_item_id) == source_id(logo)
    &&& opt_view(r.parent_logo_image_tag) == source_tag(logo)
    &&& opt_view(r.parent_backdrop_item_id) == source_id(backdrop)
    &&& views(r.parent_backdrop_image_tags@) == (match backdrop {
        Some(b) => Seq::new((b.extra_backdrops + 1) as nat, |i: int| int_decimal(b.date_modified as int)),
        None => Seq::empty(),
    })
    &&& opt_view(r.parent_thumb_item_id) == source_id(thumb)
    &&& opt_view(r.parent_thumb_image_tag) == source_tag(thumb)
    &&& opt_view(r.series_primary_image_tag) == (match series {
        Some(s) => if s.has_primary_image { Some(int_decimal(s.date_modified as int)) } else { None },
        None => None,
    })
    &&& opt_view(r.series_name) == (match series_name {
        Some(n) => Some(n@),
        None => match series {
            Some(s) => Some(s.name@),
            None => None,
        },
    })
    &&& opt_view(r.season_name) == (match season_name {
        Some(n) => Some(n@),
        None => match parent {
            Some(p) => if eq_ignore_case_seq(p.item_type@, "Season"@) { Some(p.name@) } else { None },
            None => None,
        },
    })
}

fn pick_source<'a>(parent: Option<&'a RelatedItem>, series: Option<&'a RelatedItem>, kind: ImageKind) -> (r: Option<
    &'a RelatedItem,
>)
    ensures
        match r {
            Some(x) => image_source(
                match parent { Some(p) => Some(*p), None => None },
                match series { Some(s) => Some(*s), None => None },
                kind,
            ) == Some(*x),
            None => image_source(
                match parent { Some(p) => Some(*p), None => None },
                match series { Some(s) => Some(*s), None => None },
                kind,
            ) is None,
        },
{
    let has = |r: &RelatedItem| -> (b: bool)
        ensures
            b == has_kind(*r, kind),
        {
            match kind {
                ImageKind::Logo => r.has_logo,
                ImageKind::Backdrop => r.has_backdrop,
                ImageKind::Thumb => r.has_thumb,
            }
        };
    if let Some(p) = parent {
        if has(p) {
            return Some(p);
        }
    }
    if let Some(s) = series {
        if has(s) {
            return Some(s);
        }
    }
    None
}

fn copy_opt(v: &Option<String>) -> (r: Option<String>)
    ensures
        opt_view(r) == opt_view(*v),
{
    match v {
        Some(s) => Some(s.clone()),
        None => None,
    }
}

/// What an item's detail view inherits, as `is_inherited` states.
pub fn inherited_fields(
    series_name: &Option<String>,
    season_name: &Option<String>,
    parent: Option<&RelatedItem>,
    series: Option<&RelatedItem>,
) -> (r: Inherited)
    requires
        match parent { Some(p) => p.extra_backdrops < usize::MAX, None => true },
        match series { Some(s) => s.extra_backdrops < usize::MAX, None => true },
    ensures
        is_inherited(
            r,
            *series_name,
            *season_name,
            match parent { Some(p) => Some(*p), None => None },
            match series { Some(s) => Some(*s), None => None },
        ),
{
    let logo = pick_source(parent, series, ImageKind::Logo);
    let backdrop = pick_source(parent, series, ImageKind::Backdrop);
    let thumb = pick_source(parent, series, ImageKind::Thumb);
    let mut backdrop_tags: Vec<String> = Vec::new();
    if let Some(b) = backdrop {
        let tag = i64_to_string(b.date_modified);
        let count = b.extra_backdrops + 1;
        let mut i: usize = 0;
        while i < count
            invariant
                i <= count,
                views(backdrop_tags@) =~= Seq::new(i as nat, |j: int| tag@),
            decreases count - i,
        {
            let ghost before = backdrop_tags@;
            backdrop_tags.push(tag.clone());
            assert(views(backdrop_tags@) =~= views(before).push(tag@));
            i = i + 1;
        }
    }
    assert(backdrop is None ==> views(backdrop_tags@) =~= Seq::<Seq<char>>::empty());
    let series_primary = match series {
        Some(s) => if s.has_primary_image { Some(i64_to_string(s.date_modified)) } else { None },
        None => None,
    };
    let resolved_series_name = match series_name {
        Some(n) => Some(n.clone()),
        None => match series {
            Some(s) => Some(s.name.clone()),
            None => None,
        },
    };
    let resolved_season_name = match season_name {
        Some(n) => Some(n.clone()),
        None => match parent {
            Some(p) => if eq_ignore_ascii_case(p.item_type.as_str(), "Season") { Some(p.name.clone()) } else { None },
            None => None,
        },
    };
    Inherited {
        parent_logo_item_id: match logo { Some(x) => Some(simple_id(x.id)), None => None },
        parent_logo_image_tag: match logo { Some(x) => Some(i64_to_string(x.date_modified)), None => None },
        parent_backdrop_item_id: match backdrop { Some(x) => Some(simple_id(x.id)), None => None },
        parent_backdrop_image_tags: backdrop_tags,
        parent_thumb_item_id: match thumb { Some(x) => Some(simple_id(x.id)), None => None },
        parent_thumb_image_tag: match thumb { Some(x) => Some(i64_to_string(x.date_modified)), None => None },
        series_primary_image_tag: series_primary,
        series_name: resolved_series_name,
        season_name: resolved_season_name,
    }
}

/// The index of the first source of type `Default`.
pub open spec fn first_default(sources: Seq<MediaSource>) -> Option<int>
    decreases sources.len(),
{
    if sources.len() == 0 {
        None
    } else if sources[0].source_type@ == "Default"@ {
        Some(0)
    } else {
        match first_default(sources.drop_first()) {
            Some(i) => Some(i + 1),
            None => None,
        }
    }
}

/// The first video stream (type `Video`, ASCII case ignored).
pub open spec fn first_video(streams: Seq<StreamView>) -> Option<StreamView>
    decreases streams.len(),
{
    if streams.len() == 0 {
        None
    } else if eq_ignore_case_seq(streams[0].stream_type@, "Video"@) {
        Some(streams[0])
    } else {
        first_video(streams.drop_first())
    }
}

/// The streams the detail view shows: those of the first `Default` source,
/// else of the first source; none without sources.
pub open spec fn shown_streams(sources: Seq<MediaSource>) -> Seq<StreamView> {
    match first_default(sources) {
        Some(i) => sources[i].media_streams@,
        None => if sources.len() > 0 { sources[0].media_streams@ } else { Seq::empty() },
    }
}

proof fn lemma_first_default_bound(sources: Seq<MediaSource>)
    ensures
        match first_default(sources) {
            Some(i) => 0 <= i < sources.len() && sources[i].source_type@ == "Default"@,
            None => true,
        },
    decreases sources.len(),
{
    if sources.len() > 0 {
        lemma_first_default_bound(sources.drop_first());
    }
}

/// The width and height the detail view shows: the item's own, else those
/// of the first video stream of the shown streams.
pub fn detail_dimensions(width: Option<i32>, height: Option<i32>, sources: &Vec<MediaSource>) -> (r: (Option<i32>, Option<i32>))
    ensures
        r.0 == (if width is Some {
            width
        } else {
            match first_video(shown_streams(sources@)) {
                Some(v) => v.width,
                None => None,
            }
        }),
        r.1 == (if height is Some {
            height
        } else {
            match first_video(shown_streams(sources@)) {
                Some(v) => v.height,
                None => None,
            }
        }),
{
    proof {
        lemma_first_default_bound(sources@);
    }
    let index: Option<usize> = match first_default_index(sources) {
        Some(k) => Some(k),
        None => if sources.len() > 0 { Some(0) } else { None },
    };
    let video: Option<(Option<i32>, Option<i32>)> = match index {
        Some(k) => first_video_dims(&sources[k].media_streams),
        None => None,
    };
    let w = match width {
        Some(x) => Some(x),
        None => match video { Some(v) => v.0, None => None },
    };
    let h = match height {
        Some(x) => Some(x),
        None => match video { Some(v) => v.1, None => None },
    };
    (w, h)
}

/// The index of the first source of type `Default`, as `first_default` states.
fn first_default_index(sources: &Vec<MediaSource>) -> (r: Option<usize>)
    ensures
        match r {
            Some(k) => first_default(sources@) == Some(k as int),
            None => first_default(sources@) is None,
        },
{
    let n = sources.len();
    let mut i: usize = 0;
    assert(sources@.subrange(0, n as int) =~= sources@);
    while i < n
        invariant
            i <= n,
            n == sources@.len(),
            first_default(sources@) == match first_default(sources@.subrange(i as int, n as int)) {
                Some(k) => Some(k + i),
                None => None,
            },
        decreases n - i,
    {
        assert(sources@.subrange(i as int, n as int).drop_first() =~= sources@.subrange(i + 1, n as int));
        assert(sources@.subrange(i as int, n as int)[0] == sources@[i as int]);
        if str_eq(sources[i].source_type.as_str(), "Default") {
            return Some(i);
        }
        i = i + 1;
    }
    None
}

/// The width and height of the first video stream.
fn first_video_dims(streams: &Vec<StreamView>) -> (r: Option<(Option<i32>, Option<i32>)>)
    ensures
        match first_video(streams@) {
            Some(v) => r == Some((v.width, v.height)),
            None => r is None,
        },
{
    let n = streams.len();
    let mut i: usize = 0;
    assert(streams@.subrange(0, n as int) =~= streams@);
    while i < n
        invariant
            i <= n,
            n == streams@.len(),
            first_video(streams@) == first_video(streams@.subrange(i as int, n as int)),
        decreases n - i,
    {
        assert(streams@.subrange(i as int, n as int).drop_first() =~= streams@.subrange(i + 1, n as int));
        if eq_ignore_ascii_case(streams[i].stream_type.as_str(), "Video") {
            return Some((streams[i].width, streams[i].height));
        }
        i = i + 1;
    }
    None
}

/// A chapter of an item as shown to clients.
pub struct ChapterView {
    pub start_position_ticks: i64,
    pub name: String,
    pub image_tag: Option<String>,
    pub marker_type: String,
    pub chapter_index: i32,
}

/// Whether `v` shows a chapter: its stored name, else `第 NN 章` with its
/// number (index + 1, at least two digits); its change time as image tag
/// when it has an image; its marker type, else `Chapter`.
pub open spec fn shows_chapter(
    v: ChapterView,
    start_position_ticks: i64,
    name: Option<String>,
    chapter_index: i32,
    has_image: bool,
    updated_seconds: i64,
    marker_type: Option<String>,
) -> bool {
    &&& v.start_position_ticks == start_position_ticks
    &&& v.name@ == (match name {
        Some(n) => n@,
        None => "第 "@ + int_decimal_padded(chapter_index + 1, 2) + " 章"@,
    })
    &&& opt_view(v.image_tag) == (if has_image {
        Some(int_decimal(updated_seconds as int))
    } else {
        None
    })
    &&& v.marker_type@ == (match marker_type {
        Some(m) => m@,
        None => "Chapter"@,
    })
    &&& v.chapter_index == chapter_index
}

/// A chapter of an item as shown to clients (see `shows_chapter`).
pub fn chapter_view(
    start_position_ticks: i64,
    name: Option<String>,
    chapter_index: i32,
    has_image: bool,
    updated_seconds: i64,
    marker_type: Option<String>,
) -> (r: ChapterView)
    ensures
        shows_chapter(r, start_position_ticks, name, chapter_index, has_image, updated_seconds, marker_type),
{
    let shown_name = match name {
        Some(n) => n,
        None => {
            let mut t = owned("第 ");
            let number = i64_to_padded_string(chapter_index as i64 + 1, 2);
            t.append(number.as_str());
            t.append(" 章");
            t
        },
    };
    ChapterView {
        start_position_ticks,
        name: shown_name,
        image_tag: if has_image {
            Some(i64_to_string(updated_seconds))
        } else {
            None
        },
        marker_type: match marker_type {
            Some(m) => m,
            None => owned("Chapter"),
        },
        chapter_index,
    }
}

/// The source type of each version of an item: `Default` for the item
/// itself, `Grouping` for the others.
pub fn version_source_types(item_id: u128, version_ids: &Vec<u128>) -> (r: Vec<&'static str>)
    ensures
        r@.len() == version_ids@.len(),
        forall|k: int|
            0 <= k < version_ids@.len() ==> (#[trigger] r@[k])@ == (if version_ids@[k] == item_id {
                "Default"@
            } else {
                "Grouping"@
            }),
{
    let mut out: Vec<&'static str> = Vec::new();
    let n = version_ids.len();
    let mut i: usize = 0;
    while i < n
        invariant
            i <= n,
            n == version_ids@.len(),
            out@.len() == i,
            forall|k: int|
                0 <= k < i ==> (#[trigger] out@[k])@ == (if version_ids@[k] == item_id {
                    "Default"@
                } else {
                    "Grouping"@
                }),
        decreases n - i,
    {
        out.push(if version_ids[i] == item_id {
            "Default"
        } else {
            "Grouping"
        });
        i = i + 1;
    }
    out
}

/// The other versions of an item (all versions but the item, in order).
pub open spec fn other_versions(version_ids: Seq<u128>, item_id: u128) -> Seq<u128>
    decreases version_ids.len(),
{
    if version_ids.len() == 0 {
        Seq::empty()
    } else {
        let prev = other_versions(version_ids.drop_last(), item_id);
        if version_ids.last() != item_id {
            prev.push(version_ids.last())
        } else {
            prev
        }
    }
}

/// The page of an item's other versions: the others skipped by the start
/// (at least 0), then at most `limit` kept within 1..=200; with how many
/// others there are.
pub fn additional_parts_page(version_ids: &Vec<u128>, item_id: u128, start_index: i64, limit: i64) -> (r: (
    Vec<u128>,
    usize,
))
    ensures
        r.1 == other_versions(version_ids@, item_id).len(),
        ({
            let others = other_versions(version_ids@, item_id);
            let start: int = if start_index < 0 { 0 } else { start_index as int };
            let take: int = if limit < 1 { 1 } else if limit > 200 { 200 } else { limit as int };
            r.0@ == if start >= others.len() {
                Seq::<u128>::empty()
            } else if start + take < others.len() {
                others.subrange(start, start + take)
            } else {
                others.subrange(start, others.len() as int)
            }
        }),
{
    let mut others: Vec<u128> = Vec::new();
    let n = version_ids.len();
    let mut i: usize = 0;
    while i < n
        invariant
            i <= n,
            n == version_ids@.len(),
            others@ == other_versions(version_ids@.take(i as int), item_id),
        decreases n - i,
    {
        assert(version_ids@.take(i + 1).drop_last() =~= version_ids@.take(i as int));
        if version_ids[i] != item_id {
            others.push(version_ids[i]);
        }
        i = i + 1;
    }
    assert(version_ids@.take(n as int) =~= version_ids@);
    let total = others.len();
    let start: i128 = if start_index < 0 {
        0
    } else {
        start_index as i128
    };
    let take: i128 = if limit < 1 {
        1
    } else if limit > 200 {
        200
    } else {
        limit as i128
    };
    let mut page: Vec<u128> = Vec::new();
    if start < total as i128 {
        let end: usize = if start + take < total as i128 {
            (start + take) as usize
        } else {
            total
        };
        let mut k: usize = start as usize;
        while k < end
            invariant
                0 <= start,
                start as int <= k <= end <= total,
                total == others@.len(),
                page@ == others@.subrange(start as int, k as int),
            decreases end - k,
        {
            page.push(others[k]);
            assert(page@ =~= others@.subrange(start as int, k + 1));
            k = k + 1;
        }
    }
    (page, total)
}

/// What the series and season lookup reads of an episode's parent.
pub struct ParentRow {
    pub id: u128,
    pub item_type: String,
    pub parent_id: Option<u128>,
}

/// The series and season an item belongs to: a season's series is its
/// parent; an episode's season is its parent, and its series is that
/// season's parent, or the parent itself when that is a series; other
/// items belong to none.
pub open spec fn series_and_season(
    item_type: Seq<char>,
    parent_id: Option<u128>,
    parent: Option<ParentRow>,
) -> (Option<u128>, Option<u128>) {
    if item_type == "Season"@ {
        (parent_id, None)
    } else if item_type == "Episode"@ {
        match parent_id {
            None => (None, None),
            Some(_) => (
                match parent {
                    Some(p) => if p.item_type@ == "Season"@ {
                        p.parent_id
                    } else if p.item_type@ == "Series"@ {
                        Some(p.id)
                    } else {
                        None
                    },
                    None => None,
                },
                parent_id,
            ),
        }
    } else {
        (None, None)
    }
}

/// The series and season an item belongs to (see `series_and_season`);
/// `parent` is the row of the item's parent, when the caller found one.
pub fn resolve_series_and_season_ids(item_type: &str, parent_id: Option<u128>, parent: &Option<ParentRow>) -> (r: (
    Option<u128>,
    Option<u128>,
))
    ensures
        r == series_and_season(item_type@, parent_id, *parent),
{
    if str_eq(item_type, "Season") {
        (parent_id, None)
    } else if str_eq(item_type, "Episode") {
        match parent_id {
            None => (None, None),
            Some(_) => {
                let series = match parent {
                    Some(p) => if str_eq(p.item_type.as_str(), "Season") {
                        p.parent_id
                    } else if str_eq(p.item_type.as_str(), "Series") {
                        Some(p.id)
                    } else {
                        None
                    },
                    None => None,
                };
                (series, parent_id)
            },
        }
    } else {
        (None, None)
    }
}

/// Where a resumed view fetch starts: the stored position, but only when
/// it was stored for the same incremental window (its start time, in
/// microseconds since the Unix epoch, or none for a full fetch).
pub open spec fn resume_of(stored: Option<(i64, Option<i64>)>, incremental_since: Option<i64>) -> Option<i64> {
    match stored {
        Some((start, since)) => if since == incremental_since {
            Some(start)
        } else {
            None
        },
        None => None,
    }
}

/// Where a resumed view fetch starts, as `resume_of` states.
pub fn resume_position(stored: Option<(i64, Option<i64>)>, incremental_since: Option<i64>) -> (r: Option<i64>)
    ensures
        r == resume_of(stored, incremental_since),
{
    match stored {
        Some((start, since)) => if since == incremental_since {
            Some(start)
        } else {
            None
        },
        None => None,
    }
}

/// A saved view position is read back for the same window, not for
/// another, and not after it was cleared (a cleared position is stored as
/// nothing).
pub proof fn law_resume_reads_back(start: i64, since: Option<i64>, other: Option<i64>)
    ensures
        resume_of(Some((start, since)), since) == Some(start),
        other != since ==> resume_of(Some((start, since)), other) is None,
        resume_of(None, since) is None,
{
}

/// The user whose stored play state a detail view reads: the viewing user,
/// when one is known and no state was prefetched for the item.
pub fn user_data_to_fetch(user_id: Option<u128>, prefetched: &Option<Option<UserItemRow>>) -> (r: Option<u128>)
    ensures
        r == (match (user_id, prefetched) {
            (Some(u), None) => Some(u),
            _ => None,
        }),
{
    match (user_id, prefetched) {
        (Some(u), None) => Some(u),
        _ => None,
    }
}

/// The stored play state a detail view shows: the prefetched one when
/// there was a prefetch (none when it found none), else the one read for
/// the user.
pub open spec fn chosen_row(prefetched: Option<Option<UserItemRow>>, fetched: Option<UserItemRow>) -> Option<UserItemRow> {
    match prefetched {
        Some(p) => p,
        None => fetched,
    }
}

/// The play state a detail view shows: the chosen stored state (with the
/// item's running time), else the empty state; keyed by the item's id,
/// carrying the server's id, and for a folder the count of its items the
/// user has not played, when counted.
pub fn detail_user_data(
    prefetched: Option<Option<UserItemRow>>,
    fetched: Option<UserItemRow>,
    item_id: u128,
    runtime_ticks: Option<i64>,
    server_id: u128,
    is_folder: bool,
    unplayed: Option<i64>,
) -> (r: UserItemData)
    ensures
        match chosen_row(prefetched, fetched) {
            Some(row) => shows_row(
                UserItemData { key: None, item_id: None, server_id: None, unplayed_item_count: None, ..r },
                row,
                runtime_ticks,
            ),
            None => is_empty_data(UserItemData { key: None, item_id: None, server_id: None, unplayed_item_count: None, ..r }),
        },
        crate::userdata::opt_view(r.key) == Some(simple_form(item_id)),
        crate::userdata::opt_view(r.item_id) == Some(simple_form(item_id)),
        crate::userdata::opt_view(r.server_id) == Some(simple_form(server_id)),
        r.unplayed_item_count == (if is_folder && unplayed is Some {
            Some(unplayed->0 as i32)
        } else {
            None
        }),
{
    let row = match prefetched {
        Some(p) => p,
        None => fetched,
    };
    let mut data = list_user_data(Some(row), item_id, runtime_ticks, server_id);
    if is_folder {
        match unplayed {
            Some(n) => {
                data.unplayed_item_count = Some(#[verifier::truncate] (n as i32));
            },
            None => {},
        }
    }
    data
}

} // verus!
