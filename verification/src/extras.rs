//! The additional fields of an item's detail view: metadata preferences,
//! sort numbers, rating, 3D format, artists, composers and album.

use vstd::prelude::*;
use crate::ids::{simple_form, simple_id};
use crate::text::{
    ascii_lower_seq, eq_ignore_ascii_case, eq_ignore_case_seq, i64_to_string, int_decimal, is_blank,
    is_blank_str, str_eq, to_ascii_lowercase, trim, trim_seq,
};

verus! {

/// A person credited on an item.
pub struct Person {
    pub name: String,
    pub id: String,
    pub person_type: Option<String>,
}

/// The parent of an item, as the album fields read it.
pub struct ParentItem {
    pub id: u128,
    pub name: String,
    pub item_type: String,
    pub has_primary_image: bool,
    /// Seconds since the Unix epoch of the last change.
    pub date_modified: i64,
}

/// The server's preferred metadata language and country code.
pub struct MetadataPreferences {
    pub language: String,
    pub country_code: String,
}

/// The additional detail fields of an item; an absent value is a field
/// not written. The fields CanMakePublic, CanManageAccess and
/// CanLeaveContent are always written as false.
pub struct ExtraFields {
    pub preferred_metadata_language: Option<String>,
    pub preferred_metadata_country_code: Option<String>,
    pub sort_index_number: Option<i32>,
    pub sort_parent_index_number: Option<i32>,
    pub custom_rating: Option<String>,
    pub video_3d_format: Option<String>,
    /// Artists as (name, id); written as Artists and ArtistItems when any.
    pub artists: Vec<(String, String)>,
    /// Composers as (name, id); written when any.
    pub composers: Vec<(String, String)>,
    pub album: Option<String>,
    pub album_id: Option<String>,
    pub album_primary_image_tag: Option<String>,
    pub album_artist: Option<String>,
    /// Album artists as (name, id); written when any.
    pub album_artists: Vec<(String, String)>,
    /// `CanMakePublic`: always false.
    pub can_make_public: bool,
    /// `CanManageAccess`: always false.
    pub can_manage_access: bool,
    /// `CanLeaveContent`: always false.
    pub can_leave_content: bool,
}

/// The kinds of credit the artist, composer and album-artist fields select.
#[derive(Clone, Copy, PartialEq, Eq, Structural)]
pub enum CreditKind {
    Artist,
    Composer,
    AlbumArtist,
}

/// Whether a person's kind text is of the given credit kind: artist,
/// album artist or music artist for `Artist`, composer for `Composer`,
/// album artist for `AlbumArtist` (ASCII case ignored).
pub open spec fn kind_matches(kind: Seq<char>, which: CreditKind) -> bool {
    let k = ascii_lower_seq(kind);
    match which {
        CreditKind::Artist => k == "artist"@ || k == "albumartist"@ || k == "musicartist"@,
        CreditKind::Composer => k == "composer"@,
        CreditKind::AlbumArtist => k == "albumartist"@,
    }
}

/// The (name, id) of the people credited as `which`, in order.
pub open spec fn credited(people: Seq<Person>, which: CreditKind) -> Seq<(Seq<char>, Seq<char>)>
    decreases people.len(),
{
    if people.len() == 0 {
        Seq::empty()
    } else {
        let prev = credited(people.drop_last(), which);
        let p = people.last();
        if p.person_type is Some && kind_matches(p.person_type->0@, which) {
            prev.push((p.name@, p.id@))
        } else {
            prev
        }
    }
}

/// The 3D format a tag names: side by side for `3d`, `sbs` and `hsbs`,
/// top and bottom for `tab` and `htab` (trimmed, ASCII case ignored).
pub open spec fn tag_3d_format(tag: Seq<char>) -> Option<Seq<char>> {
    let t = ascii_lower_seq(trim_seq(tag));
    if t == "3d"@ || t == "sbs"@ || t == "hsbs"@ {
        Some("HalfSideBySide"@)
    } else if t == "tab"@ || t == "htab"@ {
        Some("HalfTopAndBottom"@)
    } else {
        None
    }
}

/// The 3D format named by the first tag that names one.
pub open spec fn first_3d_format(tags: Seq<String>) -> Option<Seq<char>>
    decreases tags.len(),
{
    if tags.len() == 0 {
        None
    } else {
        match tag_3d_format(tags[0]@) {
            Some(f) => Some(f),
            None => first_3d_format(tags.drop_first()),
        }
    }
}

/// The text of an optional string.
pub open spec fn opt_view(v: Option<String>) -> Option<Seq<char>> {
    match v {
        Some(s) => Some(s@),
        None => None,
    }
}

/// (name, id) texts.
pub open spec fn pair_views(v: Seq<(String, String)>) -> Seq<(Seq<char>, Seq<char>)> {
    v.map_values(|p: (String, String)| (p.0@, p.1@))
}

/// Whether a parent is an album.
pub open spec fn is_album(parent: ParentItem) -> bool {
    let t = ascii_lower_seq(parent.item_type@);
    t == "album"@ || t == "musicalbum"@
}

/// Whether `f` holds the additional fields of an item with the given sort
/// numbers, rating, tags, people, parent and preferences.
pub open spec fn is_extra_fields(
    f: ExtraFields,
    index_number: Option<i32>,
    parent_index_number: Option<i32>,
    official_rating: Option<String>,
    tags: Seq<String>,
    people: Seq<Person>,
    parent: Option<ParentItem>,
    preferences: Option<MetadataPreferences>,
) -> bool {
    let album = match parent {
        Some(p) => if is_album(p) { Some(p) } else { None },
        None => None,
    };
    let album_artists = credited(people, CreditKind::AlbumArtist);
    &&& opt_view(f.preferred_metadata_language) == (match preferences {
        Some(p) => if !is_blank(p.language@) { Some(p.language@) } else { None },
        None => None,
    })
    &&& opt_view(f.preferred_metadata_country_code) == (match preferences {
        Some(p) => if !is_blank(p.country_code@) { Some(p.country_code@) } else { None },
        None => None,
    })
    &&& !f.can_make_public && !f.can_manage_access && !f.can_leave_content
    &&& f.sort_index_number == index_number
    &&& f.sort_parent_index_number == parent_index_number
    &&& opt_view(f.custom_rating) == (match official_rating {
        Some(r) => if !is_blank(r@) { Some(r@) } else { None },
        None => None,
    })
    &&& opt_view(f.video_3d_format) == first_3d_format(tags)
    &&& pair_views(f.artists@) == credited(people, CreditKind::Artist)
    &&& pair_views(f.composers@) == credited(people, CreditKind::Composer)
    &&& opt_view(f.album) == (match album { Some(a) => Some(a.name@), None => None })
    &&& opt_view(f.album_id) == (match album { Some(a) => Some(simple_form(a.id)), None => None })
    &&& opt_view(f.album_primary_image_tag) == (match album {
        Some(a) => if a.has_primary_image { Some(int_decimal(a.date_modified as int)) } else { None },
        None => None,
    })
    &&& opt_view(f.album_artist) == (if album is Some && album_artists.len() > 0 {
        Some(album_artists[0].0)
    } else {
        None
    })
    &&& pair_views(f.album_artists@) == (if album is Some { album_artists } else { Seq::empty() })
}

fn kind_matches_exec(kind: &str, which: CreditKind) -> (r: bool)
    ensures
        r == kind_matches(kind@, which),
{
    let k = to_ascii_lowercase(kind);
    let k = k.as_str();
    match which {
        CreditKind::Artist => str_eq(k, "artist") || str_eq(k, "albumartist") || str_eq(k, "musicartist"),
        CreditKind::Composer => str_eq(k, "composer"),
        CreditKind::AlbumArtist => str_eq(k, "albumartist"),
    }
}

/// The (name, id) of the people credited as `which`, as `credited` states.
pub fn credited_people(people: &Vec<Person>, which: CreditKind) -> (r: Vec<(String, String)>)
    ensures
        pair_views(r@) == credited(people@, which),
{
    let mut out: Vec<(String, String)> = Vec::new();
    let n = people.len();
    let mut i: usize = 0;
    while i < n
        invariant
            i <= n,
            n == people@.len(),
            pair_views(out@) == credited(people@.take(i as int), which),
        decreases n - i,
    {
        assert(people@.take(i + 1).drop_last() =~= people@.take(i as int));
        let p = &people[i];
        let selected = match &p.person_type {
            Some(k) => kind_matches_exec(k.as_str(), which),
            None => false,
        };
        if selected {
            let ghost before = out@;
            out.push((p.name.clone(), p.id.clone()));
            assert(pair_views(out@) =~= pair_views(before).push((p.name@, p.id@)));
        }
        i = i + 1;
    }
    assert(people@.take(n as int) =~= people@);
    out
}

fn tag_3d_format_exec(tag: &str) -> (r: Option<String>)
    ensures
        opt_view(r) == tag_3d_format(tag@),
{
    let l = to_ascii_lowercase(trim(tag));
    let t = l.as_str();
    if str_eq(t, "3d") || str_eq(t, "sbs") || str_eq(t, "hsbs") {
        Some(crate::text::owned("HalfSideBySide"))
    } else if str_eq(t, "tab") || str_eq(t, "htab") {
        Some(crate::text::owned("HalfTopAndBottom"))
    } else {
        None
    }
}

/// The 3D format named by the first tag that names one.
pub fn video_3d_format_of_tags(tags: &Vec<String>) -> (r: Option<String>)
    ensures
        opt_view(r) == first_3d_format(tags@),
{
    let n = tags.len();
    let mut i: usize = 0;
    assert(tags@.subrange(0, n as int) =~= tags@);
    while i < n
        invariant
            i <= n,
            n == tags@.len(),
            first_3d_format(tags@) == first_3d_format(tags@.subrange(i as int, n as int)),
        decreases n - i,
    {
        assert(tags@.subrange(i as int, n as int).drop_first() =~= tags@.subrange(i + 1, n as int));
        if let Some(f) = tag_3d_format_exec(tags[i].as_str()) {
            return Some(f);
        }
        i = i + 1;
    }
    None
}

fn non_blank_copy(v: &Option<String>) -> (r: Option<String>)
    ensures
        opt_view(r) == (match *v {
            Some(s) => if !is_blank(s@) { Some(s@) } else { None },
            None => None,
        }),
{
    match v {
        Some(s) => if !is_blank_str(s.as_str()) {
            Some(s.clone())
        } else {
            None
        },
        None => None,
    }
}

/// The additional detail fields of an item, as `is_extra_fields` states.
pub fn emby_extra_fields(
    index_number: Option<i32>,
    parent_index_number: Option<i32>,
    official_rating: &Option<String>,
    tags: &Vec<String>,
    people: &Vec<Person>,
    parent: Option<&ParentItem>,
    preferences: Option<&MetadataPreferences>,
) -> (r: ExtraFields)
    ensures
        is_extra_fields(
            r,
            index_number,
            parent_index_number,
            *official_rating,
            tags@,
            people@,
            match parent { Some(p) => Some(*p), None => None },
            match preferences { Some(p) => Some(*p), None => None },
        ),
{
    let (language, country) = match preferences {
        Some(p) => (
            if !is_blank_str(p.language.as_str()) { Some(p.language.clone()) } else { None },
            if !is_blank_str(p.country_code.as_str()) { Some(p.country_code.clone()) } else { None },
        ),
        None => (None, None),
    };
    let artists = credited_people(people, CreditKind::Artist);
    let composers = credited_people(people, CreditKind::Composer);
    let album = match parent {
        Some(p) => {
            let t = to_ascii_lowercase(p.item_type.as_str());
            if str_eq(t.as_str(), "album") || str_eq(t.as_str(), "musicalbum") {
                Some(p)
            } else {
                None
            }
        },
        None => None,
    };
    let (album_name, album_id, album_tag, album_artist, album_artists) = match album {
        Some(a) => {
            let listed = credited_people(people, CreditKind::AlbumArtist);
            let first = if listed.len() > 0 { Some(listed[0].0.clone()) } else { None };
            assert(listed@.len() > 0 ==> pair_views(listed@)[0].0 == listed@[0].0@);
            (
                Some(a.name.clone()),
                Some(simple_id(a.id)),
                if a.has_primary_image { Some(i64_to_string(a.date_modified)) } else { None },
                first,
                listed,
            )
        },
        None => (None, None, None, None, Vec::new()),
    };
    assert(album is None ==> pair_views(album_artists@) =~= Seq::<(Seq<char>, Seq<char>)>::empty());
    ExtraFields {
        preferred_metadata_language: language,
        preferred_metadata_country_code: country,
        sort_index_number: index_number,
        sort_parent_index_number: parent_index_number,
        custom_rating: non_blank_copy(official_rating),
        video_3d_format: video_3d_format_of_tags(tags),
        artists,
        composers,
        album: album_name,
        album_id,
        album_primary_image_tag: album_tag,
        album_artist,
        album_artists,
        can_make_public: false,
        can_manage_access: false,
        can_leave_content: false,
    }
}

/// The image fields of a person: the primary and backdrop tags (the
/// decimal change time, for the images the person has), and the image-tag
/// table, present only with a primary image.
pub struct PersonImages {
    pub primary_image_tag: Option<String>,
    pub backdrop_image_tag: Option<String>,
    /// (kind, tag) pairs: `Primary`, then `Backdrop` when there is one.
    pub image_tags: Option<Vec<(String, String)>>,
    /// The birth place as the person's single production location, when
    /// not blank.
    pub production_locations: Option<Vec<String>>,
}

/// The image fields and locations of a person, as `PersonImages` describes.
pub fn person_images(
    has_primary_image: bool,
    has_backdrop_image: bool,
    updated_at: i64,
    place_of_birth: &Option<String>,
) -> (r: PersonImages)
    ensures
        opt_view(r.primary_image_tag) == (if has_primary_image { Some(int_decimal(updated_at as int)) } else { None }),
        opt_view(r.backdrop_image_tag) == (if has_backdrop_image { Some(int_decimal(updated_at as int)) } else { None }),
        match r.image_tags {
            Some(t) => has_primary_image && pair_views(t@) == (if has_backdrop_image {
                seq![("Primary"@, int_decimal(updated_at as int)), ("Backdrop"@, int_decimal(updated_at as int))]
            } else {
                seq![("Primary"@, int_decimal(updated_at as int))]
            }),
            None => !has_primary_image,
        },
        match r.production_locations {
            Some(l) => place_of_birth is Some && !is_blank(place_of_birth->0@) && crate::text::views(l@)
                == seq![place_of_birth->0@],
            None => !(place_of_birth is Some && !is_blank(place_of_birth->0@)),
        },
{
    let tag = i64_to_string(updated_at);
    let primary = if has_primary_image { Some(tag.clone()) } else { None };
    let backdrop = if has_backdrop_image { Some(tag.clone()) } else { None };
    let image_tags = if has_primary_image {
        let mut t = vec![(crate::text::owned("Primary"), tag.clone())];
        if has_backdrop_image {
            t.push((crate::text::owned("Backdrop"), tag.clone()));
        }
        assert(pair_views(t@) =~= (if has_backdrop_image {
            seq![("Primary"@, tag@), ("Backdrop"@, tag@)]
        } else {
            seq![("Primary"@, tag@)]
        }));
        Some(t)
    } else {
        None
    };
    let locations = match place_of_birth {
        Some(p) => if !is_blank_str(p.as_str()) {
            let l = vec![p.clone()];
            assert(crate::text::views(l@) =~= seq![p@]);
            Some(l)
        } else {
            None
        },
        None => None,
    };
    PersonImages {
        primary_image_tag: primary,
        backdrop_image_tag: backdrop,
        image_tags,
        production_locations: locations,
    }
}

/// A stored person. Dates are seconds since the Unix epoch.
pub struct PersonRecord {
    pub id: u128,
    pub name: String,
    pub sort_name: Option<String>,
    pub overview: Option<String>,
    pub external_url: Option<String>,
    pub has_primary_image: bool,
    pub has_backdrop_image: bool,
    pub updated_at: i64,
    pub premiere_date: Option<i64>,
    pub death_date: Option<i64>,
    pub production_year: Option<i32>,
    pub place_of_birth: Option<String>,
    pub homepage_url: Option<String>,
}

/// A person as shown to clients (without role, kind or provider ids).
pub struct PersonView {
    pub name: String,
    pub id: String,
    pub images: PersonImages,
    pub sort_name: Option<String>,
    pub overview: Option<String>,
    pub external_url: Option<String>,
    pub premiere_date: Option<i64>,
    pub end_date: Option<i64>,
    pub production_year: Option<i32>,
    pub homepage_url: Option<String>,
}

/// A stored person as shown to clients: its texts and dates as stored (the
/// death date as end date), its id in 32-digit form, and its images as
/// `person_images` gives them.
pub fn db_person_to_dto(person: PersonRecord) -> (r: PersonView)
    ensures
        r.name == person.name,
        r.id@ == simple_form(person.id),
        r.sort_name == person.sort_name,
        r.overview == person.overview,
        r.external_url == person.external_url,
        r.premiere_date == person.premiere_date,
        r.end_date == person.death_date,
        r.production_year == person.production_year,
        r.homepage_url == person.homepage_url,
        opt_view(r.images.primary_image_tag) == (if person.has_primary_image {
            Some(int_decimal(person.updated_at as int))
        } else {
            None
        }),
        opt_view(r.images.backdrop_image_tag) == (if person.has_backdrop_image {
            Some(int_decimal(person.updated_at as int))
        } else {
            None
        }),
        (r.images.image_tags is Some) == person.has_primary_image,
        match r.images.production_locations {
            Some(l) => person.place_of_birth is Some && !is_blank(person.place_of_birth->0@) && crate::text::views(l@)
                == seq![person.place_of_birth->0@],
            None => !(person.place_of_birth is Some && !is_blank(person.place_of_birth->0@)),
        },
{
    let images = person_images(
        person.has_primary_image,
        person.has_backdrop_image,
        person.updated_at,
        &person.place_of_birth,
    );
    PersonView {
        name: person.name,
        id: simple_id(person.id),
        images,
        sort_name: person.sort_name,
        overview: person.overview,
        external_url: person.external_url,
        premiere_date: person.premiere_date,
        end_date: person.death_date,
        production_year: person.production_year,
        homepage_url: person.homepage_url,
    }
}

} // verus!
