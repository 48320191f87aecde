//! The shape of a catalogue item in list views: which images it has,
//! which ids it points to and which counts it shows, decided from the
//! item's own fields and counts fetched ahead.

use vstd::prelude::*;
use crate::counts::DtoCountPrefetch;
use crate::ids::{simple_form, simple_id};
use crate::media::{folder_type, is_folder_item};
use crate::source::MediaSource;
use crate::userdata::{is_empty_data, list_user_data, shows_row, UserItemData, UserItemRow};
use crate::text::{
    eq_ignore_ascii_case, eq_ignore_case_seq, i64_to_string, int_decimal, owned, starts_with,
    starts_with_seq, str_eq, views,
};

verus! {

/// What the list view reads of a catalogue item.
pub struct ListItem {
    pub id: u128,
    pub item_type: String,
    pub media_type: String,
    pub path: String,
    pub parent_id: Option<u128>,
    pub series_id: Option<u128>,
    pub has_primary_image: bool,
    pub has_logo: bool,
    pub has_thumb: bool,
    pub has_banner: bool,
    pub has_disc: bool,
    pub has_art: bool,
    pub has_backdrop: bool,
    /// How many further backdrop images the item has.
    pub extra_backdrops: usize,
    pub width: Option<i32>,
    pub height: Option<i32>,
    /// Seconds since the Unix epoch of the last change; image tags are its
    /// decimal text.
    pub date_modified: i64,
    pub studios: Vec<String>,
    pub lock_data: bool,
    /// The running time in 100-nanosecond ticks, if known.
    pub runtime_ticks: Option<i64>,
}

/// The decided fields of an item in a list view.
pub struct ListShape {
    pub id: String,
    pub server_id: String,
    pub etag: String,
    pub is_folder: bool,
    pub can_download: bool,
    pub supports_resume: bool,
    pub media_type: Option<String>,
    pub location_type: String,
    pub parent_id: Option<String>,
    /// Image kind and tag, ordered by kind name.
    pub image_tags: Vec<(String, String)>,
    pub primary_image_tag: Option<String>,
    pub thumb_image_tag: Option<String>,
    pub backdrop_image_tags: Vec<String>,
    pub child_count: Option<i64>,
    pub recursive_item_count: Option<i64>,
    pub season_count: Option<i32>,
    pub series_id: Option<String>,
    pub season_id: Option<String>,
    pub series_primary_image_tag: Option<String>,
    pub parent_backdrop_item_id: Option<String>,
    pub parent_backdrop_image_tags: Vec<String>,
    pub primary_image_item_id: Option<String>,
    pub series_studio: Option<String>,
    pub part_count: i32,
    pub is_movie: bool,
    pub is_series: bool,
    pub lock_data: bool,
    /// The primary image's aspect ratio as a fraction (numerator, denominator).
    pub aspect_ratio: Option<(i32, i32)>,
    /// The playable versions shown with the item: none in a list.
    pub media_sources: Vec<MediaSource>,
    /// The user's play state of the item.
    pub user_data: UserItemData,
}

/// The text of an optional string.
pub open spec fn opt_view(v: Option<String>) -> Option<Seq<char>> {
    match v {
        Some(s) => Some(s@),
        None => None,
    }
}

/// The 32-digit form of an optional id.
pub open spec fn opt_guid(v: Option<u128>) -> Option<Seq<char>> {
    match v {
        Some(id) => Some(simple_form(id)),
        None => None,
    }
}

/// The aspect ratio of an item's primary image: 2:3 for posters of
/// movies, series, seasons, box sets and collection folders that have one,
/// 16:9 for episodes with a primary or thumb image, else the item's own
/// width and height when both are positive.
pub open spec fn aspect_fraction(
    item_type: Seq<char>,
    has_primary: bool,
    has_thumb: bool,
    width: Option<i32>,
    height: Option<i32>,
) -> Option<(i32, i32)> {
    if item_type == "Movie"@ || item_type == "Series"@ || item_type == "Season"@ || item_type == "BoxSet"@
        || item_type == "CollectionFolder"@ {
        if has_primary {
            Some((2i32, 3i32))
        } else {
            None
        }
    } else if item_type == "Episode"@ {
        if has_primary || has_thumb {
            Some((16i32, 9i32))
        } else {
            None
        }
    } else {
        match (width, height) {
            (Some(w), Some(h)) => if w > 0 && h > 0 {
                Some((w, h))
            } else {
                None
            },
            _ => None,
        }
    }
}

/// The aspect ratio of an item's primary image, as `aspect_fraction` states.
pub fn infer_primary_image_aspect_ratio(
    item_type: &str,
    has_primary: bool,
    has_thumb: bool,
    width: Option<i32>,
    height: Option<i32>,
) -> (r: Option<(i32, i32)>)
    ensures
        r == aspect_fraction(item_type@, has_primary, has_thumb, width, height),
{
    if str_eq(item_type, "Movie") || str_eq(item_type, "Series") || str_eq(item_type, "Season") || str_eq(
        item_type,
        "BoxSet",
    ) || str_eq(item_type, "CollectionFolder") {
        if has_primary {
            Some((2, 3))
        } else {
            None
        }
    } else if str_eq(item_type, "Episode") {
        if has_primary || has_thumb {
            Some((16, 9))
        } else {
            None
        }
    } else {
        match (width, height) {
            (Some(w), Some(h)) => if w > 0 && h > 0 {
                Some((w, h))
            } else {
                None
            },
            _ => None,
        }
    }
}

/// The image kinds an item has, ordered by name.
pub open spec fn image_kinds(item: ListItem) -> Seq<Seq<char>> {
    (if item.has_art { seq!["Art"@] } else { Seq::empty() })
        + (if item.has_banner { seq!["Banner"@] } else { Seq::empty() })
        + (if item.has_disc { seq!["Disc"@] } else { Seq::empty() })
        + (if item.has_logo { seq!["Logo"@] } else { Seq::empty() })
        + (if item.has_primary_image { seq!["Primary"@] } else { Seq::empty() })
        + (if item.has_thumb { seq!["Thumb"@] } else { Seq::empty() })
}

/// (kind, tag) texts.
pub open spec fn tag_views(v: Seq<(String, String)>) -> Seq<(Seq<char>, Seq<char>)> {
    v.map_values(|p: (String, String)| (p.0@, p.1@))
}

/// The series an episode or season belongs to for inherited images: its
/// series, or for a season its parent.
pub open spec fn resolved_series(item: ListItem) -> Option<u128> {
    if item.series_id is Some {
        item.series_id
    } else if eq_ignore_case_seq(item.item_type@, "Season"@) {
        item.parent_id
    } else {
        None
    }
}

/// Whether `s` is the list shape of `item`, with `server` the server id.
pub open spec fn is_list_shape(s: ListShape, item: ListItem, server: u128, counts: DtoCountPrefetch) -> bool {
    let t = item.item_type@;
    let folder = folder_type(t);
    let tag = int_decimal(item.date_modified as int);
    let ep_or_season = eq_ignore_case_seq(t, "Episode"@) || eq_ignore_case_seq(t, "Season"@);
    let resolved = if ep_or_season { resolved_series(item) } else { None };
    &&& s.id@ == simple_form(item.id)
    &&& s.server_id@ == simple_form(server)
    &&& s.etag@ == tag
    &&& s.is_folder == folder
    &&& s.can_download == !folder
    &&& s.supports_resume == !folder
    &&& opt_view(s.media_type) == (if folder { None } else { Some(item.media_type@) })
    &&& s.location_type@ == (if starts_with_seq(item.path@, "http://"@) || starts_with_seq(item.path@, "https://"@) {
        "Remote"@
    } else {
        "FileSystem"@
    })
    &&& opt_view(s.parent_id) == opt_guid(item.parent_id)
    &&& tag_views(s.image_tags@) == image_kinds(item).map_values(|k: Seq<char>| (k, tag))
    &&& opt_view(s.primary_image_tag) == (if item.has_primary_image { Some(tag) } else { None })
    &&& opt_view(s.thumb_image_tag) == (if item.has_thumb { Some(tag) } else { None })
    &&& views(s.backdrop_image_tags@) == Seq::new(
        (if item.has_backdrop { item.extra_backdrops + 1 } else { item.extra_backdrops as int }) as nat,
        |i: int| tag,
    )
    &&& s.child_count == (if folder {
        Some(match counts.child_count { Some(c) => c, None => 0 })
    } else {
        None
    })
    &&& s.recursive_item_count == (if folder {
        Some(match counts.recursive_item_count { Some(c) => c, None => 0 })
    } else {
        None
    })
    &&& s.season_count == (if eq_ignore_case_seq(t, "Series"@) {
        Some(match counts.season_count { Some(c) => c, None => 0i32 })
    } else {
        None
    })
    &&& opt_view(s.series_id) == (if t == "Season"@ {
        opt_guid(if item.series_id is Some { item.series_id } else { item.parent_id })
    } else if t == "Episode"@ {
        opt_guid(item.series_id)
    } else {
        None
    })
    &&& opt_view(s.season_id) == (if t == "Episode"@ { opt_guid(item.parent_id) } else { None })
    &&& opt_view(s.series_primary_image_tag) == (if resolved is Some { Some(tag) } else { None })
    &&& opt_view(s.parent_backdrop_item_id) == opt_guid(resolved)
    &&& views(s.parent_backdrop_image_tags@) == (if resolved is Some { seq![tag] } else { Seq::empty() })
    &&& opt_view(s.primary_image_item_id) == (if item.has_primary_image {
        Some(simple_form(item.id))
    } else {
        opt_guid(resolved)
    })
    &&& opt_view(s.series_studio) == (if item.studios@.len() > 0 { Some(item.studios@[0]@) } else { None })
    &&& s.part_count == (if folder { 0i32 } else { 1i32 })
    &&& s.is_movie == eq_ignore_case_seq(t, "Movie"@)
    &&& s.is_series == eq_ignore_case_seq(t, "Series"@)
    &&& s.lock_data == item.lock_data
    &&& s.aspect_ratio == aspect_fraction(t, item.has_primary_image, item.has_thumb, item.width, item.height)
}

fn opt_guid_text(v: Option<u128>) -> (r: Option<String>)
    ensures
        opt_view(r) == opt_guid(v),
{
    match v {
        Some(id) => Some(simple_id(id)),
        None => None,
    }
}

fn push_kind(tags: &mut Vec<(String, String)>, present: bool, kind: &str, tag: &String, Ghost(kinds): Ghost<Seq<Seq<char>>>)
    requires
        tag_views(old(tags)@) == kinds.map_values(|k: Seq<char>| (k, tag@)),
    ensures
        tag_views(final(tags)@) == (kinds + (if present { seq![kind@] } else { Seq::empty() })).map_values(
            |k: Seq<char>| (k, tag@),
        ),
{
    let ghost before = tags@;
    if present {
        tags.push((owned(kind), tag.clone()));
        assert(tag_views(tags@) =~= tag_views(before).push((kind@, tag@)));
        assert((kinds + seq![kind@]).map_values(|k: Seq<char>| (k, tag@)) =~= kinds.map_values(
            |k: Seq<char>| (k, tag@),
        ).push((kind@, tag@)));
    } else {
        assert(kinds + Seq::<Seq<char>>::empty() =~= kinds);
    }
}

/// The list shape of an item, as `is_list_shape` states.
/// The play state is the prefetched row's (with the item's running time),
/// else the empty state, keyed by the item's id and carrying the server's.
pub fn media_item_to_dto_for_list(
    item: &ListItem,
    server_id: u128,
    prefetched_user_data: Option<Option<UserItemRow>>,
    counts: DtoCountPrefetch,
) -> (r: ListShape)
    requires
        item.extra_backdrops < usize::MAX,
    ensures
        is_list_shape(r, *item, server_id, counts),
        r.media_sources@.len() == 0,
        match prefetched_user_data {
            Some(Some(row)) => shows_row(
                UserItemData { key: None, item_id: None, server_id: None, ..r.user_data },
                row,
                item.runtime_ticks,
            ),
            _ => is_empty_data(UserItemData { key: None, item_id: None, server_id: None, ..r.user_data }),
        },
        crate::userdata::opt_view(r.user_data.key) == Some(simple_form(item.id)),
        crate::userdata::opt_view(r.user_data.item_id) == Some(simple_form(item.id)),
        crate::userdata::opt_view(r.user_data.server_id) == Some(simple_form(server_id)),
{
    let t = item.item_type.as_str();
    let folder = is_folder_item(t);
    let tag = i64_to_string(item.date_modified);
    let mut image_tags: Vec<(String, String)> = Vec::new();
    let ghost k0 = Seq::<Seq<char>>::empty();
    assert(tag_views(image_tags@) =~= k0.map_values(|k: Seq<char>| (k, tag@)));
    push_kind(&mut image_tags, item.has_art, "Art", &tag, Ghost(k0));
    let ghost k1 = k0 + (if item.has_art { seq!["Art"@] } else { Seq::empty() });
    push_kind(&mut image_tags, item.has_banner, "Banner", &tag, Ghost(k1));
    let ghost k2 = k1 + (if item.has_banner { seq!["Banner"@] } else { Seq::empty() });
    push_kind(&mut image_tags, item.has_disc, "Disc", &tag, Ghost(k2));
    let ghost k3 = k2 + (if item.has_disc { seq!["Disc"@] } else { Seq::empty() });
    push_kind(&mut image_tags, item.has_logo, "Logo", &tag, Ghost(k3));
    let ghost k4 = k3 + (if item.has_logo { seq!["Logo"@] } else { Seq::empty() });
    push_kind(&mut image_tags, item.has_primary_image, "Primary", &tag, Ghost(k4));
    let ghost k5 = k4 + (if item.has_primary_image { seq!["Primary"@] } else { Seq::empty() });
    push_kind(&mut image_tags, item.has_thumb, "Thumb", &tag, Ghost(k5));
    proof {
        let k6 = k5 + (if item.has_thumb { seq!["Thumb"@] } else { Seq::empty() });
        assert(k6 =~= image_kinds(*item));
    }

    let count: usize = if item.has_backdrop { item.extra_backdrops + 1 } else { item.extra_backdrops };
    let mut backdrops: Vec<String> = Vec::new();
    let mut i: usize = 0;
    while i < count
        invariant
            i <= count,
            views(backdrops@) =~= Seq::new(i as nat, |j: int| tag@),
        decreases count - i,
    {
        let ghost before = backdrops@;
        let copy = tag.clone();
        backdrops.push(copy);
        assert(views(backdrops@) =~= views(before).push(tag@));
        i = i + 1;
    }

    let primary_tag = if item.has_primary_image { Some(tag.clone()) } else { None };
    let thumb_tag = if item.has_thumb { Some(tag.clone()) } else { None };
    let child_count = if folder {
        Some(match counts.child_count { Some(c) => c, None => 0 })
    } else {
        None
    };
    let recursive_item_count = if folder {
        Some(match counts.recursive_item_count { Some(c) => c, None => 0 })
    } else {
        None
    };
    let season_count = if eq_ignore_ascii_case(t, "Series") {
        Some(match counts.season_count { Some(c) => c, None => 0 })
    } else {
        None
    };
    let series_id = if str_eq(t, "Season") {
        opt_guid_text(if item.series_id.is_some() { item.series_id } else { item.parent_id })
    } else if str_eq(t, "Episode") {
        opt_guid_text(item.series_id)
    } else {
        None
    };
    let season_id = if str_eq(t, "Episode") {
        opt_guid_text(item.parent_id)
    } else {
        None
    };
    let ep_or_season = eq_ignore_ascii_case(t, "Episode") || eq_ignore_ascii_case(t, "Season");
    let resolved: Option<u128> = if ep_or_season {
        if item.series_id.is_some() {
            item.series_id
        } else if eq_ignore_ascii_case(t, "Season") {
            item.parent_id
        } else {
            None
        }
    } else {
        None
    };
    let series_primary_image_tag = if resolved.is_some() { Some(tag.clone()) } else { None };
    let parent_backdrop_image_tags = if resolved.is_some() { vec![tag.clone()] } else { Vec::new() };
    assert(views(parent_backdrop_image_tags@) =~= (if resolved is Some { seq![tag@] } else { Seq::empty() }));
    let primary_image_item_id = if item.has_primary_image {
        Some(simple_id(item.id))
    } else {
        opt_guid_text(resolved)
    };
    let series_studio = if item.studios.len() > 0 { Some(item.studios[0].clone()) } else { None };
    let remote = starts_with(item.path.as_str(), "http://") || starts_with(item.path.as_str(), "https://");
    let media_sources: Vec<MediaSource> = Vec::new();
    let user_data = list_user_data(prefetched_user_data, item.id, item.runtime_ticks, server_id);
    ListShape {
        user_data,
        media_sources,
        id: simple_id(item.id),
        server_id: simple_id(server_id),
        etag: tag.clone(),
        is_folder: folder,
        can_download: !folder,
        supports_resume: !folder,
        media_type: if folder { None } else { Some(item.media_type.clone()) },
        location_type: if remote { owned("Remote") } else { owned("FileSystem") },
        parent_id: opt_guid_text(item.parent_id),
        image_tags,
        primary_image_tag: primary_tag,
        thumb_image_tag: thumb_tag,
        backdrop_image_tags: backdrops,
        child_count,
        recursive_item_count,
        season_count,
        series_id,
        season_id,
        series_primary_image_tag,
        parent_backdrop_item_id: opt_guid_text(resolved),
        parent_backdrop_image_tags,
        primary_image_item_id,
        series_studio,
        part_count: if folder { 0 } else { 1 },
        is_movie: eq_ignore_ascii_case(t, "Movie"),
        is_series: eq_ignore_ascii_case(t, "Series"),
        lock_data: item.lock_data,
        aspect_ratio: infer_primary_image_aspect_ratio(t, item.has_primary_image, item.has_thumb, item.width, item.height),
    }
}

} // verus!
