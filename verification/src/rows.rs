//! Which catalogue rows an item list or count keeps: the row conditions
//! that every list query adds for its options, as a predicate on one row.

use vstd::prelude::*;
use crate::access::{item_admitted, list_admits};
use crate::filters::{clean_pieces, lowercase_list};
use crate::text::{ascii_lower_seq, str_eq, to_ascii_lowercase, trim_seq, views};

verus! {

/// What the row conditions read of one catalogue row. `ancestors` lists the
/// row's parent, then that parent's parent, and so on up to the root;
/// `provider_keys` are the keys of its provider-id object.
pub struct ItemRow {
    pub library_id: Option<u128>,
    pub ancestors: Vec<u128>,
    pub item_type: String,
    pub genres: Vec<String>,
    pub tags: Vec<String>,
    pub studios: Vec<String>,
    pub production_year: Option<i32>,
    pub official_rating: Option<String>,
    pub width: Option<i32>,
    pub height: Option<i32>,
    pub provider_keys: Vec<String>,
    pub status: Option<String>,
    pub parental_rating_value: Option<i32>,
    /// The premiere date, as a day count from 1970-01-01.
    pub premiere_day: Option<i32>,
}

/// The list options that the row conditions read.
pub struct RowConditions {
    pub library_id: Option<u128>,
    pub parent_id: Option<u128>,
    pub recursive: bool,
    pub include_types: Vec<String>,
    pub exclude_types: Vec<String>,
    pub genres: Vec<String>,
    pub tags: Vec<String>,
    pub years: Vec<i32>,
    pub studios: Vec<String>,
    pub official_ratings: Vec<String>,
    pub project_to_media: bool,
    pub is_folder: Option<bool>,
    pub is_hd: Option<bool>,
    pub has_tmdb_id: Option<bool>,
    pub has_imdb_id: Option<bool>,
    pub series_status: Vec<String>,
    pub policy_max_parental_rating: Option<i32>,
    pub policy_blocked_tags: Vec<String>,
    pub policy_block_unrated_items: Vec<String>,
    pub excluded_library_ids: Vec<u128>,
    /// The earliest and latest premiere dates asked for, as day counts from
    /// 1970-01-01 (the UTC date of the time given).
    pub min_premiere_day: Option<i32>,
    pub max_premiere_day: Option<i32>,
}

/// A date bound: none given, or a known date on the right side of it.
pub open spec fn day_ok(day: Option<i32>, bound: Option<i32>, at_least: bool) -> bool {
    match bound {
        Some(b) => day matches Some(d) && (if at_least { d >= b } else { d <= b }),
        None => true,
    }
}

/// Whether two lists of texts have an element in common (the array
/// operator `&&`).
pub open spec fn overlaps(a: Seq<Seq<char>>, b: Seq<Seq<char>>) -> bool {
    exists|i: int, j: int| 0 <= i < a.len() && 0 <= j < b.len() && a[i] == b[j]
}

/// The parent condition: below `parent_id` at any depth when the listing is
/// recursive, its direct child otherwise; with no parent, a non-recursive
/// listing keeps only top-level rows.
pub open spec fn parent_ok(ancestors: Seq<u128>, parent_id: Option<u128>, recursive: bool) -> bool {
    match parent_id {
        Some(p) => if recursive {
            ancestors.contains(p)
        } else {
            ancestors.len() > 0 && ancestors[0] == p
        },
        None => recursive || ancestors.len() == 0,
    }
}

/// The types that never count as media when a listing projects to media.
pub open spec fn is_container_type(t: Seq<char>) -> bool {
    t == "CollectionFolder"@ || t == "Folder"@ || t == "BoxSet"@
}

/// The types that count as folders.
pub open spec fn is_folder_type(t: Seq<char>) -> bool {
    t == "Series"@ || t == "Season"@ || t == "BoxSet"@ || t == "Folder"@ || t == "CollectionFolder"@
}

/// Whether a row is high definition: at least 1280 wide or 720 high, an
/// unknown size counting as 0.
pub open spec fn is_hd_row(width: Option<i32>, height: Option<i32>) -> bool {
    (match width { Some(w) => w as int, None => 0 }) >= 1280
        || (match height { Some(h) => h as int, None => 0 }) >= 720
}

/// Whether the provider ids hold a TMDb key, in one of its three spellings.
pub open spec fn has_tmdb_key(keys: Seq<Seq<char>>) -> bool {
    keys.contains("Tmdb"@) || keys.contains("TMDb"@) || keys.contains("tmdb"@)
}

/// Whether the provider ids hold an IMDb key, in one of its three spellings.
pub open spec fn has_imdb_key(keys: Seq<Seq<char>>) -> bool {
    keys.contains("Imdb"@) || keys.contains("IMDb"@) || keys.contains("imdb"@)
}

/// A condition on a flag: none asked, or the flag as asked.
pub open spec fn flag_ok(asked: Option<bool>, holds: bool) -> bool {
    match asked {
        Some(b) => holds == b,
        None => true,
    }
}

/// A status text, an absent one read as empty.
pub open spec fn status_text(s: Option<String>) -> Seq<char> {
    match s {
        Some(t) => t@,
        None => Seq::empty(),
    }
}

/// Whether the row conditions of a listing keep a row. A list of values
/// given in the options restricts the rows only when it is not empty; type
/// and status lists are compared trimmed and ASCII lower-cased, their blank
/// entries dropped (so a list of blanks keeps no row).
pub open spec fn row_kept(row: ItemRow, c: RowConditions) -> bool {
    let lower_type = ascii_lower_seq(row.item_type@);
    &&& (c.library_id matches Some(l) ==> row.library_id == Some(l))
    &&& parent_ok(row.ancestors@, c.parent_id, c.recursive)
    &&& (c.include_types@.len() > 0 ==> clean_pieces(views(c.include_types@), true).contains(lower_type))
    &&& (c.exclude_types@.len() > 0 ==> !clean_pieces(views(c.exclude_types@), true).contains(lower_type))
    &&& (c.genres@.len() > 0 ==> overlaps(views(row.genres@), views(c.genres@)))
    &&& (c.tags@.len() > 0 ==> overlaps(views(row.tags@), views(c.tags@)))
    &&& (c.years@.len() > 0 ==> (row.production_year matches Some(y) && c.years@.contains(y)))
    &&& (c.studios@.len() > 0 ==> overlaps(views(row.studios@), views(c.studios@)))
    &&& (c.official_ratings@.len() > 0 ==> (row.official_rating matches Some(r)
        && views(c.official_ratings@).contains(r@)))
    &&& (c.project_to_media ==> !is_container_type(row.item_type@))
    &&& flag_ok(c.is_folder, is_folder_type(row.item_type@))
    &&& flag_ok(c.is_hd, is_hd_row(row.width, row.height))
    &&& flag_ok(c.has_tmdb_id, has_tmdb_key(views(row.provider_keys@)))
    &&& flag_ok(c.has_imdb_id, has_imdb_key(views(row.provider_keys@)))
    &&& (c.series_status@.len() > 0 ==> clean_pieces(views(c.series_status@), true).contains(
        ascii_lower_seq(status_text(row.status))))
    &&& (c.policy_max_parental_rating matches Some(m) ==> (row.parental_rating_value matches Some(v) ==> v <= m))
    &&& (c.policy_blocked_tags@.len() > 0 ==> !overlaps(views(row.tags@), views(c.policy_blocked_tags@)))
    &&& (c.policy_block_unrated_items@.len() > 0 ==> !(row.parental_rating_value is None
        && clean_pieces(views(c.policy_block_unrated_items@), true).contains(lower_type)))
    &&& (c.excluded_library_ids@.len() > 0 ==> (row.library_id matches Some(l) ==> !c.excluded_library_ids@.contains(l)))
    &&& day_ok(row.premiere_day, c.min_premiere_day, true)
    &&& day_ok(row.premiere_day, c.max_premiere_day, false)
}

fn day_matches(day: Option<i32>, bound: Option<i32>, at_least: bool) -> (r: bool)
    ensures
        r == day_ok(day, bound, at_least),
{
    match bound {
        Some(b) => match day {
            Some(d) => if at_least { d >= b } else { d <= b },
            None => false,
        },
        None => true,
    }
}

fn has_text(list: &Vec<String>, x: &str) -> (r: bool)
    ensures
        r == views(list@).contains(x@),
{
    let n = list.len();
    let mut i: usize = 0;
    while i < n
        invariant
            i <= n,
            n == list@.len(),
            forall|j: int| 0 <= j < i ==> list@[j]@ != x@,
        decreases n - i,
    {
        if str_eq(list[i].as_str(), x) {
            assert(views(list@)[i as int] == x@);
            return true;
        }
        i = i + 1;
    }
    assert forall|j: int| 0 <= j < views(list@).len() implies views(list@)[j] != x@ by {
        assert(views(list@)[j] == list@[j]@);
    }
    false
}

fn overlap(a: &Vec<String>, b: &Vec<String>) -> (r: bool)
    ensures
        r == overlaps(views(a@), views(b@)),
{
    let n = a.len();
    let mut i: usize = 0;
    while i < n
        invariant
            i <= n,
            n == a@.len(),
            forall|k: int| 0 <= k < i ==> !views(b@).contains(#[trigger] views(a@)[k]),
        decreases n - i,
    {
        if has_text(b, a[i].as_str()) {
            assert(views(a@)[i as int] == a@[i as int]@);
            let ghost j = choose|j: int| 0 <= j < views(b@).len() && views(b@)[j] == a@[i as int]@;
            assert(views(a@)[i as int] == views(b@)[j]);
            return true;
        }
        assert(views(a@)[i as int] == a@[i as int]@);
        i = i + 1;
    }
    assert(!overlaps(views(a@), views(b@))) by {
        assert forall|k: int, j: int| 0 <= k < views(a@).len() && 0 <= j < views(b@).len()
            implies views(a@)[k] != views(b@)[j] by {
            assert(!views(b@).contains(views(a@)[k]));
        }
    }
    false
}

fn has_id(list: &Vec<u128>, x: u128) -> (r: bool)
    ensures
        r == list@.contains(x),
{
    let n = list.len();
    let mut i: usize = 0;
    while i < n
        invariant
            i <= n,
            n == list@.len(),
            forall|j: int| 0 <= j < i ==> list@[j] != x,
        decreases n - i,
    {
        if list[i] == x {
            assert(list@[i as int] == x);
            return true;
        }
        i = i + 1;
    }
    false
}

fn has_year(list: &Vec<i32>, x: i32) -> (r: bool)
    ensures
        r == list@.contains(x),
{
    let n = list.len();
    let mut i: usize = 0;
    while i < n
        invariant
            i <= n,
            n == list@.len(),
            forall|j: int| 0 <= j < i ==> list@[j] != x,
        decreases n - i,
    {
        if list[i] == x {
            assert(list@[i as int] == x);
            return true;
        }
        i = i + 1;
    }
    false
}

fn container_type(t: &str) -> (r: bool)
    ensures
        r == is_container_type(t@),
{
    str_eq(t, "CollectionFolder") || str_eq(t, "Folder") || str_eq(t, "BoxSet")
}

fn folder_type(t: &str) -> (r: bool)
    ensures
        r == is_folder_type(t@),
{
    str_eq(t, "Series") || str_eq(t, "Season") || str_eq(t, "BoxSet") || str_eq(t, "Folder")
        || str_eq(t, "CollectionFolder")
}

fn parent_matches(ancestors: &Vec<u128>, parent_id: Option<u128>, recursive: bool) -> (r: bool)
    ensures
        r == parent_ok(ancestors@, parent_id, recursive),
{
    match parent_id {
        Some(p) => if recursive {
            has_id(ancestors, p)
        } else {
            ancestors.len() > 0 && ancestors[0] == p
        },
        None => recursive || ancestors.len() == 0,
    }
}

fn hd_row(width: Option<i32>, height: Option<i32>) -> (r: bool)
    ensures
        r == is_hd_row(width, height),
{
    let w: i32 = match width {
        Some(w) => w,
        None => 0,
    };
    let h: i32 = match height {
        Some(h) => h,
        None => 0,
    };
    w >= 1280 || h >= 720
}

fn flag_matches(asked: Option<bool>, holds: bool) -> (r: bool)
    ensures
        r == flag_ok(asked, holds),
{
    match asked {
        Some(b) => holds == b,
        None => true,
    }
}

fn type_and_media_ok(row: &ItemRow, c: &RowConditions) -> (r: bool)
    ensures
        r == {
            let lower_type = ascii_lower_seq(row.item_type@);
            &&& (c.include_types@.len() > 0 ==> clean_pieces(views(c.include_types@), true).contains(lower_type))
            &&& (c.exclude_types@.len() > 0 ==> !clean_pieces(views(c.exclude_types@), true).contains(lower_type))
            &&& (c.project_to_media ==> !is_container_type(row.item_type@))
            &&& flag_ok(c.is_folder, is_folder_type(row.item_type@))
            &&& (c.policy_block_unrated_items@.len() > 0 ==> !(row.parental_rating_value is None
                && clean_pieces(views(c.policy_block_unrated_items@), true).contains(lower_type)))
        },
{
    let lower = to_ascii_lowercase(row.item_type.as_str());
    if c.include_types.len() > 0 {
        let wanted = lowercase_list(&c.include_types);
        if !has_text(&wanted, lower.as_str()) {
            return false;
        }
    }
    if c.exclude_types.len() > 0 {
        let unwanted = lowercase_list(&c.exclude_types);
        if has_text(&unwanted, lower.as_str()) {
            return false;
        }
    }
    if c.project_to_media && container_type(row.item_type.as_str()) {
        return false;
    }
    if !flag_matches(c.is_folder, folder_type(row.item_type.as_str())) {
        return false;
    }
    if c.policy_block_unrated_items.len() > 0 && row.parental_rating_value.is_none() {
        let blocked = lowercase_list(&c.policy_block_unrated_items);
        if has_text(&blocked, lower.as_str()) {
            return false;
        }
    }
    true
}

fn values_ok(row: &ItemRow, c: &RowConditions) -> (r: bool)
    ensures
        r == {
            &&& (c.genres@.len() > 0 ==> overlaps(views(row.genres@), views(c.genres@)))
            &&& (c.tags@.len() > 0 ==> overlaps(views(row.tags@), views(c.tags@)))
            &&& (c.years@.len() > 0 ==> (row.production_year matches Some(y) && c.years@.contains(y)))
            &&& (c.studios@.len() > 0 ==> overlaps(views(row.studios@), views(c.studios@)))
            &&& (c.official_ratings@.len() > 0 ==> (row.official_rating matches Some(r)
                && views(c.official_ratings@).contains(r@)))
            &&& (c.series_status@.len() > 0 ==> clean_pieces(views(c.series_status@), true).contains(
                ascii_lower_seq(status_text(row.status))))
            &&& (c.policy_blocked_tags@.len() > 0 ==> !overlaps(views(row.tags@), views(c.policy_blocked_tags@)))
        },
{
    if c.genres.len() > 0 && !overlap(&row.genres, &c.genres) {
        return false;
    }
    if c.tags.len() > 0 && !overlap(&row.tags, &c.tags) {
        return false;
    }
    if c.years.len() > 0 {
        match row.production_year {
            Some(y) => if !has_year(&c.years, y) {
                return false;
            },
            None => return false,
        }
    }
    if c.studios.len() > 0 && !overlap(&row.studios, &c.studios) {
        return false;
    }
    if c.official_ratings.len() > 0 {
        match &row.official_rating {
            Some(r) => if !has_text(&c.official_ratings, r.as_str()) {
                return false;
            },
            None => return false,
        }
    }
    if c.series_status.len() > 0 {
        let wanted = lowercase_list(&c.series_status);
        let status = match &row.status {
            Some(s) => to_ascii_lowercase(s.as_str()),
            None => {
                proof {
                    reveal_strlit("");
                }
                let e = to_ascii_lowercase("");
                assert(""@ =~= Seq::<char>::empty());
                e
            },
        };
        assert(status@ == ascii_lower_seq(status_text(row.status)));
        if !has_text(&wanted, status.as_str()) {
            return false;
        }
    }
    if c.policy_blocked_tags.len() > 0 && overlap(&row.tags, &c.policy_blocked_tags) {
        return false;
    }
    true
}

/// Whether the row conditions of a listing keep a row, as `row_kept`
/// states.
pub fn row_matches(row: &ItemRow, c: &RowConditions) -> (r: bool)
    ensures
        r == row_kept(*row, *c),
{
    if let Some(l) = c.library_id {
        if row.library_id != Some(l) {
            return false;
        }
    }
    if !parent_matches(&row.ancestors, c.parent_id, c.recursive) {
        return false;
    }
    if !type_and_media_ok(row, c) {
        return false;
    }
    if !values_ok(row, c) {
        return false;
    }
    if !flag_matches(c.is_hd, hd_row(row.width, row.height)) {
        return false;
    }
    let tmdb = has_text(&row.provider_keys, "Tmdb") || has_text(&row.provider_keys, "TMDb")
        || has_text(&row.provider_keys, "tmdb");
    if !flag_matches(c.has_tmdb_id, tmdb) {
        return false;
    }
    let imdb = has_text(&row.provider_keys, "Imdb") || has_text(&row.provider_keys, "IMDb")
        || has_text(&row.provider_keys, "imdb");
    if !flag_matches(c.has_imdb_id, imdb) {
        return false;
    }
    if let Some(m) = c.policy_max_parental_rating {
        if let Some(v) = row.parental_rating_value {
            if v > m {
                return false;
            }
        }
    }
    if c.excluded_library_ids.len() > 0 {
        if let Some(l) = row.library_id {
            if has_id(&c.excluded_library_ids, l) {
                return false;
            }
        }
    }
    day_matches(row.premiere_day, c.min_premiere_day, true) && day_matches(row.premiere_day, c.max_premiere_day, false)
}

/// Whether an item list shows a row: the request may list rows at all and
/// admits the row's library (`list_admits`), and the row conditions keep it.
pub fn row_listed(row: &ItemRow, c: &RowConditions, allowed_library_ids: &Option<Vec<u128>>) -> (r: bool)
    ensures
        r == (list_admits(
            match allowed_library_ids { Some(v) => Some(v@), None => None },
            c.library_id,
            row.library_id,
        ) && row_kept(*row, *c)),
{
    item_admitted(allowed_library_ids, c.library_id, row.library_id) && row_matches(row, c)
}

/// A listed row never breaks the user's policy: its parental rating, when
/// known, is within the limit; it carries no blocked tag; it belongs to no
/// library excluded from the listing; and an unrated row is not of a type
/// whose unrated items are blocked.
pub proof fn law_listed_rows_keep_policy(
    row: ItemRow,
    c: RowConditions,
    allowed: Option<Seq<u128>>,
)
    requires
        list_admits(allowed, c.library_id, row.library_id),
        row_kept(row, c),
    ensures
        c.policy_max_parental_rating matches Some(m) ==> (row.parental_rating_value matches Some(v) ==> v <= m),
        forall|i: int, j: int| 0 <= i < row.tags@.len() && 0 <= j < c.policy_blocked_tags@.len()
            ==> row.tags@[i]@ != c.policy_blocked_tags@[j]@,
        row.library_id matches Some(l) ==> !c.excluded_library_ids@.contains(l),
        row.parental_rating_value is None ==> !clean_pieces(views(c.policy_block_unrated_items@), true).contains(
            ascii_lower_seq(row.item_type@)),
        allowed matches Some(a) ==> (row.library_id matches Some(l) && a.contains(l)),
{
    if c.policy_blocked_tags@.len() > 0 {
        assert forall|i: int, j: int| 0 <= i < row.tags@.len() && 0 <= j < c.policy_blocked_tags@.len()
            implies row.tags@[i]@ != c.policy_blocked_tags@[j]@ by {
            assert(views(row.tags@)[i] == row.tags@[i]@);
            assert(views(c.policy_blocked_tags@)[j] == c.policy_blocked_tags@[j]@);
        }
    }
    if c.policy_block_unrated_items@.len() == 0 {
        assert(clean_pieces(views(c.policy_block_unrated_items@), true) =~= Seq::<Seq<char>>::empty()) by {
            assert(views(c.policy_block_unrated_items@).len() == 0);
        }
    }
}

/// What a kept row satisfies: it is of the library asked for, under the
/// parent asked for (a direct child unless the listing is recursive, a
/// top-level row when no parent is given to a non-recursive listing), of a
/// year, genre, tag and studio asked for, of the size, folder kind and
/// premiere dates asked for, and never of a container type when the
/// listing projects to media.
pub proof fn law_kept_rows_meet_the_request(row: ItemRow, c: RowConditions)
    requires
        row_kept(row, c),
    ensures
        c.library_id matches Some(l) ==> row.library_id == Some(l),
        c.parent_id matches Some(p) ==> (if c.recursive {
            row.ancestors@.contains(p)
        } else {
            row.ancestors@.len() > 0 && row.ancestors@[0] == p
        }),
        c.parent_id is None && !c.recursive ==> row.ancestors@.len() == 0,
        c.years@.len() > 0 ==> exists|i: int| 0 <= i < c.years@.len() && row.production_year == Some(c.years@[i]),
        c.genres@.len() > 0 ==> exists|i: int, j: int|
            0 <= i < row.genres@.len() && 0 <= j < c.genres@.len() && row.genres@[i]@ == c.genres@[j]@,
        c.tags@.len() > 0 ==> exists|i: int, j: int|
            0 <= i < row.tags@.len() && 0 <= j < c.tags@.len() && row.tags@[i]@ == c.tags@[j]@,
        c.studios@.len() > 0 ==> exists|i: int, j: int|
            0 <= i < row.studios@.len() && 0 <= j < c.studios@.len() && row.studios@[i]@ == c.studios@[j]@,
        c.official_ratings@.len() > 0 ==> exists|j: int|
            0 <= j < c.official_ratings@.len() && (row.official_rating matches Some(r) && r@ == (#[trigger] c.official_ratings@[j])@),
        c.is_hd == Some(true) ==> (row.width matches Some(w) && w >= 1280) || (row.height matches Some(h) && h >= 720),
        c.is_hd == Some(false) ==> (row.width matches Some(w) ==> w < 1280) && (row.height matches Some(h) ==> h < 720),
        c.project_to_media ==> row.item_type@ != "BoxSet"@ && row.item_type@ != "Folder"@
            && row.item_type@ != "CollectionFolder"@,
        c.is_folder == Some(false) ==> row.item_type@ != "Series"@ && row.item_type@ != "Season"@
            && row.item_type@ != "BoxSet"@ && row.item_type@ != "Folder"@ && row.item_type@ != "CollectionFolder"@,
        c.is_folder == Some(true) ==> row.item_type@ == "Series"@ || row.item_type@ == "Season"@
            || row.item_type@ == "BoxSet"@ || row.item_type@ == "Folder"@ || row.item_type@ == "CollectionFolder"@,
        c.min_premiere_day matches Some(b) ==> (row.premiere_day matches Some(d) && d >= b),
        c.max_premiere_day matches Some(b) ==> (row.premiere_day matches Some(d) && d <= b),
        c.policy_max_parental_rating matches Some(m) ==> (row.parental_rating_value matches Some(v) ==> v <= m),
        c.has_tmdb_id == Some(true) ==> exists|i: int| 0 <= i < row.provider_keys@.len()
            && (row.provider_keys@[i]@ == "Tmdb"@ || row.provider_keys@[i]@ == "TMDb"@ || row.provider_keys@[i]@ == "tmdb"@),
        c.has_imdb_id == Some(true) ==> exists|i: int| 0 <= i < row.provider_keys@.len()
            && (row.provider_keys@[i]@ == "Imdb"@ || row.provider_keys@[i]@ == "IMDb"@ || row.provider_keys@[i]@ == "imdb"@),
{
    if c.years@.len() > 0 {
        let y = row.production_year->0;
        let i = choose|i: int| 0 <= i < c.years@.len() && c.years@[i] == y;
        assert(row.production_year == Some(c.years@[i]));
    }
    if c.genres@.len() > 0 {
        let (i, j) = choose|i: int, j: int| 0 <= i < views(row.genres@).len() && 0 <= j < views(c.genres@).len()
            && views(row.genres@)[i] == views(c.genres@)[j];
        assert(row.genres@[i]@ == c.genres@[j]@);
    }
    if c.tags@.len() > 0 {
        let (i, j) = choose|i: int, j: int| 0 <= i < views(row.tags@).len() && 0 <= j < views(c.tags@).len()
            && views(row.tags@)[i] == views(c.tags@)[j];
        assert(row.tags@[i]@ == c.tags@[j]@);
    }
    if c.studios@.len() > 0 {
        let (i, j) = choose|i: int, j: int| 0 <= i < views(row.studios@).len() && 0 <= j < views(c.studios@).len()
            && views(row.studios@)[i] == views(c.studios@)[j];
        assert(row.studios@[i]@ == c.studios@[j]@);
    }
    if c.official_ratings@.len() > 0 {
        let r = row.official_rating->0;
        let j = choose|j: int| 0 <= j < views(c.official_ratings@).len() && views(c.official_ratings@)[j] == r@;
        assert(c.official_ratings@[j]@ == r@);
    }
    let keys = views(row.provider_keys@);
    if c.has_tmdb_id == Some(true) {
        let k = if keys.contains("Tmdb"@) { "Tmdb"@ } else if keys.contains("TMDb"@) { "TMDb"@ } else { "tmdb"@ };
        let i = choose|i: int| 0 <= i < keys.len() && keys[i] == k;
        assert(row.provider_keys@[i]@ == k);
    }
    if c.has_imdb_id == Some(true) {
        let k = if keys.contains("Imdb"@) { "Imdb"@ } else if keys.contains("IMDb"@) { "IMDb"@ } else { "imdb"@ };
        let i = choose|i: int| 0 <= i < keys.len() && keys[i] == k;
        assert(row.provider_keys@[i]@ == k);
    }
}

/// A listing with no conditions (recursive, no library or parent, no lists,
/// no flags, no policy) keeps every row.
pub proof fn law_no_conditions_keep_every_row(row: ItemRow, c: RowConditions)
    requires
        c.library_id is None,
        c.parent_id is None,
        c.recursive,
        c.include_types@.len() == 0,
        c.exclude_types@.len() == 0,
        c.genres@.len() == 0,
        c.tags@.len() == 0,
        c.years@.len() == 0,
        c.studios@.len() == 0,
        c.official_ratings@.len() == 0,
        !c.project_to_media,
        c.is_folder is None,
        c.is_hd is None,
        c.has_tmdb_id is None,
        c.has_imdb_id is None,
        c.series_status@.len() == 0,
        c.policy_max_parental_rating is None,
        c.policy_blocked_tags@.len() == 0,
        c.policy_block_unrated_items@.len() == 0,
        c.excluded_library_ids@.len() == 0,
        c.min_premiere_day is None,
        c.max_premiere_day is None,
    ensures
        row_kept(row, c),
{
}

/// A row of the library asked for, at any depth below the parent asked for
/// (or anywhere when none is), meeting no other condition, is kept; a row of
/// another library or outside the parent never is.
pub proof fn law_library_and_parent_decide(row: ItemRow, c: RowConditions, l: u128, p: u128)
    requires
        c.library_id == Some(l),
        c.parent_id == Some(p),
        c.recursive,
        c.include_types@.len() == 0,
        c.exclude_types@.len() == 0,
        c.genres@.len() == 0,
        c.tags@.len() == 0,
        c.years@.len() == 0,
        c.studios@.len() == 0,
        c.official_ratings@.len() == 0,
        !c.project_to_media,
        c.is_folder is None,
        c.is_hd is None,
        c.has_tmdb_id is None,
        c.has_imdb_id is None,
        c.series_status@.len() == 0,
        c.policy_max_parental_rating is None,
        c.policy_blocked_tags@.len() == 0,
        c.policy_block_unrated_items@.len() == 0,
        c.excluded_library_ids@.len() == 0,
        c.min_premiere_day is None,
        c.max_premiere_day is None,
    ensures
        row_kept(row, c) <==> (row.library_id == Some(l) && row.ancestors@.contains(p)),
{
}

/// A cleaned, lower-cased list holds exactly the trimmed, lower-cased forms
/// of its non-blank entries.
proof fn lemma_clean_lower_contains(pieces: Seq<Seq<char>>, x: Seq<char>)
    ensures
        clean_pieces(pieces, true).contains(x) <==> exists|i: int|
            0 <= i < pieces.len() && trim_seq(#[trigger] pieces[i]).len() > 0 && ascii_lower_seq(trim_seq(pieces[i])) == x,
    decreases pieces.len(),
{
    if pieces.len() > 0 {
        let init = pieces.drop_last();
        lemma_clean_lower_contains(init, x);
        let prev = clean_pieces(init, true);
        let t = trim_seq(pieces.last());
        if clean_pieces(pieces, true).contains(x) {
            let k = choose|k: int| 0 <= k < clean_pieces(pieces, true).len() && clean_pieces(pieces, true)[k] == x;
            if t.len() > 0 && k == prev.len() {
                assert(pieces[pieces.len() - 1] == pieces.last());
            } else {
                assert(prev[k] == x);
                assert(prev.contains(x));
                let i = choose|i: int| 0 <= i < init.len() && trim_seq(#[trigger] init[i]).len() > 0
                    && ascii_lower_seq(trim_seq(init[i])) == x;
                assert(pieces[i] == init[i]);
            }
        }
        if exists|i: int| 0 <= i < pieces.len() && trim_seq(#[trigger] pieces[i]).len() > 0
            && ascii_lower_seq(trim_seq(pieces[i])) == x {
            let i = choose|i: int| 0 <= i < pieces.len() && trim_seq(#[trigger] pieces[i]).len() > 0
                && ascii_lower_seq(trim_seq(pieces[i])) == x;
            if i == pieces.len() - 1 {
                let r = clean_pieces(pieces, true);
                assert(r[r.len() - 1] == x);
            } else {
                assert(init[i] == pieces[i]);
                let k = choose|k: int| 0 <= k < prev.len() && prev[k] == x;
                let r = clean_pieces(pieces, true);
                assert(r[k] == x);
            }
        }
    }
}

/// Type and status lists are matched by their trimmed, ASCII lower-cased
/// non-blank entries: a kept row's type is one that some include entry
/// names and no exclude entry names, and its status one that some status
/// entry names.
pub proof fn law_kept_rows_match_type_lists(row: ItemRow, c: RowConditions)
    requires
        row_kept(row, c),
    ensures
        c.include_types@.len() > 0 ==> exists|i: int| 0 <= i < c.include_types@.len()
            && trim_seq((#[trigger] c.include_types@[i])@).len() > 0
            && ascii_lower_seq(trim_seq(c.include_types@[i]@)) == ascii_lower_seq(row.item_type@),
        forall|i: int| 0 <= i < c.exclude_types@.len() && trim_seq((#[trigger] c.exclude_types@[i])@).len() > 0
            ==> ascii_lower_seq(trim_seq(c.exclude_types@[i]@)) != ascii_lower_seq(row.item_type@),
        c.series_status@.len() > 0 ==> exists|i: int| 0 <= i < c.series_status@.len()
            && trim_seq((#[trigger] c.series_status@[i])@).len() > 0
            && ascii_lower_seq(trim_seq(c.series_status@[i]@)) == ascii_lower_seq(status_text(row.status)),
{
    let lt = ascii_lower_seq(row.item_type@);
    lemma_clean_lower_contains(views(c.include_types@), lt);
    lemma_clean_lower_contains(views(c.exclude_types@), lt);
    lemma_clean_lower_contains(views(c.series_status@), ascii_lower_seq(status_text(row.status)));
    if c.include_types@.len() > 0 {
        let i = choose|i: int| 0 <= i < views(c.include_types@).len()
            && trim_seq(#[trigger] views(c.include_types@)[i]).len() > 0
            && ascii_lower_seq(trim_seq(views(c.include_types@)[i])) == lt;
        assert(views(c.include_types@)[i] == c.include_types@[i]@);
    }
    if c.series_status@.len() > 0 {
        let x = ascii_lower_seq(status_text(row.status));
        let i = choose|i: int| 0 <= i < views(c.series_status@).len()
            && trim_seq(#[trigger] views(c.series_status@)[i]).len() > 0
            && ascii_lower_seq(trim_seq(views(c.series_status@)[i])) == x;
        assert(views(c.series_status@)[i] == c.series_status@[i]@);
    }
    assert forall|i: int| 0 <= i < c.exclude_types@.len() && trim_seq((#[trigger] c.exclude_types@[i])@).len() > 0
        implies ascii_lower_seq(trim_seq(c.exclude_types@[i]@)) != lt by {
        assert(views(c.exclude_types@)[i] == c.exclude_types@[i]@);
    }
}

} // verus!
