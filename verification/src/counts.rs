//! Item and library counters.

use vstd::prelude::*;
use crate::text::str_eq;

verus! {

/// An `i64` count narrowed to `i32`; a count that does not fit becomes `i32::MAX`.
pub open spec fn clamp_count(v: i64) -> i32 {
    if i32::MIN <= v && v <= i32::MAX {
        v as i32
    } else {
        i32::MAX
    }
}

/// Addition that stops at the bounds of `i32`.
pub open spec fn sat_add_i32(a: i32, b: i32) -> i32 {
    if a + b > i32::MAX {
        i32::MAX
    } else if a + b < i32::MIN {
        i32::MIN
    } else {
        (a + b) as i32
    }
}

/// Narrows a count to `i32`, `i32::MAX` when it does not fit.
pub fn i64_to_i32_count(value: i64) -> (r: i32)
    ensures
        r == clamp_count(value),
{
    if i32::MIN as i64 <= value && value <= i32::MAX as i64 {
        value as i32
    } else {
        i32::MAX
    }
}

fn sat_add_i32_exec(a: i32, b: i32) -> (r: i32)
    ensures
        r == sat_add_i32(a, b),
{
    let s: i64 = a as i64 + b as i64;
    if s > i32::MAX as i64 {
        i32::MAX
    } else if s < i32::MIN as i64 {
        i32::MIN
    } else {
        s as i32
    }
}

/// Number of catalogue items of each kind.
#[derive(Clone, Copy, Debug, PartialEq, Eq, Structural)]
pub struct ItemCounts {
    pub movie_count: i32,
    pub series_count: i32,
    pub episode_count: i32,
    pub trailer_count: i32,
    pub box_set_count: i32,
    pub book_count: i32,
    pub music_video_count: i32,
    pub song_count: i32,
    pub album_count: i32,
    pub item_count: i32,
}

pub open spec fn zero_counts() -> ItemCounts {
    ItemCounts {
        movie_count: 0,
        series_count: 0,
        episode_count: 0,
        trailer_count: 0,
        box_set_count: 0,
        book_count: 0,
        music_video_count: 0,
        song_count: 0,
        album_count: 0,
        item_count: 0,
    }
}

/// The counters after one `(item type, count)` row: the row's count, narrowed,
/// replaces the counter of its kind and is added (saturating) to the total.
pub open spec fn count_row(c: ItemCounts, item_type: Seq<char>, n: i64) -> ItemCounts {
    let k = clamp_count(n);
    let c2 = if item_type == "Movie"@ {
        ItemCounts { movie_count: k, ..c }
    } else if item_type == "Series"@ {
        ItemCounts { series_count: k, ..c }
    } else if item_type == "Episode"@ {
        ItemCounts { episode_count: k, ..c }
    } else if item_type == "Trailer"@ {
        ItemCounts { trailer_count: k, ..c }
    } else if item_type == "BoxSet"@ {
        ItemCounts { box_set_count: k, ..c }
    } else if item_type == "Book"@ {
        ItemCounts { book_count: k, ..c }
    } else if item_type == "MusicVideo"@ {
        ItemCounts { music_video_count: k, ..c }
    } else if item_type == "Audio"@ || item_type == "AudioItem"@ || item_type == "Song"@ {
        ItemCounts { song_count: k, ..c }
    } else if item_type == "MusicAlbum"@ || item_type == "Album"@ {
        ItemCounts { album_count: k, ..c }
    } else {
        c
    };
    ItemCounts { item_count: sat_add_i32(c2.item_count, k), ..c2 }
}

/// The counters after all rows, in order.
pub open spec fn tally(rows: Seq<(Seq<char>, i64)>) -> ItemCounts
    decreases rows.len(),
{
    if rows.len() == 0 {
        zero_counts()
    } else {
        count_row(tally(rows.drop_last()), rows.last().0, rows.last().1)
    }
}

pub open spec fn type_count_rows(rows: Seq<(String, i64)>) -> Seq<(Seq<char>, i64)> {
    rows.map_values(|r: (String, i64)| (r.0@, r.1))
}

fn count_row_exec(c: ItemCounts, item_type: &str, n: i64) -> (r: ItemCounts)
    ensures
        r == count_row(c, item_type@, n),
{
    let k = i64_to_i32_count(n);
    let mut c2 = c;
    if str_eq(item_type, "Movie") {
        c2.movie_count = k;
    } else if str_eq(item_type, "Series") {
        c2.series_count = k;
    } else if str_eq(item_type, "Episode") {
        c2.episode_count = k;
    } else if str_eq(item_type, "Trailer") {
        c2.trailer_count = k;
    } else if str_eq(item_type, "BoxSet") {
        c2.box_set_count = k;
    } else if str_eq(item_type, "Book") {
        c2.book_count = k;
    } else if str_eq(item_type, "MusicVideo") {
        c2.music_video_count = k;
    } else if str_eq(item_type, "Audio") || str_eq(item_type, "AudioItem") || str_eq(
        item_type,
        "Song",
    ) {
        c2.song_count = k;
    } else if str_eq(item_type, "MusicAlbum") || str_eq(item_type, "Album") {
        c2.album_count = k;
    }
    c2.item_count = sat_add_i32_exec(c2.item_count, k);
    c2
}

/// Item counters from `(item type, count)` rows, as `tally` states.
pub fn tally_item_counts(rows: &Vec<(String, i64)>) -> (r: ItemCounts)
    ensures
        r == tally(type_count_rows(rows@)),
{
    let mut c = ItemCounts {
        movie_count: 0,
        series_count: 0,
        episode_count: 0,
        trailer_count: 0,
        box_set_count: 0,
        book_count: 0,
        music_video_count: 0,
        song_count: 0,
        album_count: 0,
        item_count: 0,
    };
    let n = rows.len();
    let mut i: usize = 0;
    while i < n
        invariant
            i <= n,
            n == rows@.len(),
            c == tally(type_count_rows(rows@).take(i as int)),
        decreases n - i,
    {
        proof {
            let t = type_count_rows(rows@).take(i + 1);
            assert(t.drop_last() =~= type_count_rows(rows@).take(i as int));
        }
        c = count_row_exec(c, rows[i].0.as_str(), rows[i].1);
        i = i + 1;
    }
    assert(type_count_rows(rows@).take(n as int) =~= type_count_rows(rows@));
    c
}

/// Per-library counters: top-level children (movies, series, box sets and
/// folders), all items, movies and series.
#[derive(Clone, Copy, Debug, PartialEq, Eq, Structural)]
pub struct LibraryStats {
    pub child_count: i64,
    pub recursive_item_count: i64,
    pub movie_count: i32,
    pub series_count: i32,
}

/// Counters of one library from `(library, item type, count)` rows, in
/// unbounded integers: (children, all items, movies, series).
pub open spec fn stats_fold(id: u128, rows: Seq<(u128, Option<Seq<char>>, i64)>) -> (
    int,
    int,
    i32,
    i32,
)
    decreases rows.len(),
{
    if rows.len() == 0 {
        (0, 0, 0, 0)
    } else {
        let p = stats_fold(id, rows.drop_last());
        let (lib, t, n) = rows.last();
        if lib != id {
            p
        } else if t == Some("Movie"@) {
            (p.0 + n, p.1 + n, n as i32, p.3)
        } else if t == Some("Series"@) {
            (p.0 + n, p.1 + n, p.2, n as i32)
        } else if t == Some("BoxSet"@) || t == Some("Folder"@) {
            (p.0 + n, p.1 + n, p.2, p.3)
        } else {
            (p.0, p.1 + n, p.2, p.3)
        }
    }
}

pub open spec fn fits_i64(v: int) -> bool {
    i64::MIN <= v <= i64::MAX
}

/// No running total of the library overflows `i64`.
pub open spec fn stats_fit(id: u128, rows: Seq<(u128, Option<Seq<char>>, i64)>) -> bool {
    forall|k: int|
        0 <= k <= rows.len() ==> fits_i64(#[trigger] stats_fold(id, rows.take(k)).0) && fits_i64(
            stats_fold(id, rows.take(k)).1,
        )
}

pub open spec fn library_rows(rows: Seq<(u128, Option<String>, i64)>) -> Seq<
    (u128, Option<Seq<char>>, i64),
> {
    rows.map_values(
        |r: (u128, Option<String>, i64)|
            (
                r.0,
                match r.1 {
                    Some(s) => Some(s@),
                    None => None,
                },
                r.2,
            ),
    )
}

pub open spec fn stats_of(t: (int, int, i32, i32)) -> LibraryStats {
    LibraryStats {
        child_count: t.0 as i64,
        recursive_item_count: t.1 as i64,
        movie_count: t.2,
        series_count: t.3,
    }
}

fn is_type(t: &Option<String>, name: &str) -> (r: bool)
    ensures
        r == (match t {
            Some(s) => s@ == name@,
            None => false,
        }),
{
    match t {
        Some(s) => str_eq(s.as_str(), name),
        None => false,
    }
}

/// Counters of the library `id` from `(library, item type, count)` rows.
pub fn stats_for_library(id: u128, rows: &Vec<(u128, Option<String>, i64)>) -> (r: LibraryStats)
    requires
        stats_fit(id, library_rows(rows@)),
    ensures
        r == stats_of(stats_fold(id, library_rows(rows@))),
{
    let ghost lr = library_rows(rows@);
    let mut s = LibraryStats { child_count: 0, recursive_item_count: 0, movie_count: 0, series_count: 0 };
    let n = rows.len();
    let mut i: usize = 0;
    assert(lr.take(0) =~= Seq::<(u128, Option<Seq<char>>, i64)>::empty());
    while i < n
        invariant
            i <= n,
            n == rows@.len(),
            lr == library_rows(rows@),
            stats_fit(id, lr),
            s == stats_of(stats_fold(id, lr.take(i as int))),
            stats_fold(id, lr.take(i as int)).0 == s.child_count,
            stats_fold(id, lr.take(i as int)).1 == s.recursive_item_count,
        decreases n - i,
    {
        proof {
            assert(lr.take(i + 1).drop_last() =~= lr.take(i as int));
            assert(fits_i64(stats_fold(id, lr.take(i + 1)).0));
            assert(fits_i64(stats_fold(id, lr.take(i + 1)).1));
        }
        let row = &rows[i];
        if row.0 == id {
            let count = row.2;
            s.recursive_item_count = s.recursive_item_count + count;
            if is_type(&row.1, "Movie") {
                s.movie_count = #[verifier::truncate] (count as i32);
                s.child_count = s.child_count + count;
            } else if is_type(&row.1, "Series") {
                s.series_count = #[verifier::truncate] (count as i32);
                s.child_count = s.child_count + count;
            } else if is_type(&row.1, "BoxSet") || is_type(&row.1, "Folder") {
                s.child_count = s.child_count + count;
            }
        }
        i = i + 1;
    }
    assert(lr.take(n as int) =~= lr);
    s
}

/// Counters for each library of `library_ids`, in that order, from
/// `(library, item type, count)` rows.
pub fn batch_library_stats(library_ids: &Vec<u128>, rows: &Vec<(u128, Option<String>, i64)>) -> (r:
    Vec<LibraryStats>)
    requires
        forall|k: int| 0 <= k < library_ids@.len() ==> stats_fit(#[trigger] library_ids@[k], library_rows(rows@)),
    ensures
        r@.len() == library_ids@.len(),
        forall|k: int|
            0 <= k < library_ids@.len() ==> #[trigger] r@[k] == stats_of(
                stats_fold(library_ids@[k], library_rows(rows@)),
            ),
{
    let mut out: Vec<LibraryStats> = Vec::new();
    let n = library_ids.len();
    let mut i: usize = 0;
    while i < n
        invariant
            i <= n,
            n == library_ids@.len(),
            out@.len() == i,
            forall|k: int| 0 <= k < library_ids@.len() ==> stats_fit(#[trigger] library_ids@[k], library_rows(rows@)),
            forall|k: int|
                0 <= k < i ==> #[trigger] out@[k] == stats_of(
                    stats_fold(library_ids@[k], library_rows(rows@)),
                ),
        decreases n - i,
    {
        let s = stats_for_library(library_ids[i], rows);
        out.push(s);
        i = i + 1;
    }
    out
}

/// Child counts fetched ahead for a listed folder item.
#[derive(Clone, Copy, Debug, PartialEq, Eq, Structural)]
pub struct DtoCountPrefetch {
    pub child_count: Option<i64>,
    pub recursive_item_count: Option<i64>,
    pub season_count: Option<i32>,
}

impl Default for DtoCountPrefetch {
    /// No counts fetched.
    fn default() -> (r: Self)
        ensures
            r.child_count is None && r.recursive_item_count is None && r.season_count is None,
    {
        DtoCountPrefetch { child_count: None, recursive_item_count: None, season_count: None }
    }
}

/// The counted type names, letter by letter.
proof fn reveal_type_names()
    ensures
        "Movie"@ =~= seq!['M', 'o', 'v', 'i', 'e'],
        "Series"@ =~= seq!['S', 'e', 'r', 'i', 'e', 's'],
        "Episode"@ =~= seq!['E', 'p', 'i', 's', 'o', 'd', 'e'],
        "Trailer"@ =~= seq!['T', 'r', 'a', 'i', 'l', 'e', 'r'],
        "BoxSet"@ =~= seq!['B', 'o', 'x', 'S', 'e', 't'],
        "Book"@ =~= seq!['B', 'o', 'o', 'k'],
        "MusicVideo"@ =~= seq!['M', 'u', 's', 'i', 'c', 'V', 'i', 'd', 'e', 'o'],
        "Audio"@ =~= seq!['A', 'u', 'd', 'i', 'o'],
        "AudioItem"@.len() == 9,
        "Song"@ =~= seq!['S', 'o', 'n', 'g'],
        "MusicAlbum"@ =~= seq!['M', 'u', 's', 'i', 'c', 'A', 'l', 'b', 'u', 'm'],
        "Album"@ =~= seq!['A', 'l', 'b', 'u', 'm'],
{
    reveal_strlit("Movie");
    reveal_strlit("Series");
    reveal_strlit("Episode");
    reveal_strlit("Trailer");
    reveal_strlit("BoxSet");
    reveal_strlit("Book");
    reveal_strlit("MusicVideo");
    reveal_strlit("Audio");
    reveal_strlit("AudioItem");
    reveal_strlit("Song");
    reveal_strlit("MusicAlbum");
    reveal_strlit("Album");
}

/// A row `(t, n)` sets the counter of its type to `n` (narrowed) and leaves
/// every other type's counter as it was; whatever its type, `n` is added
/// to the total.
pub proof fn law_count_row_sets_its_counter(c: ItemCounts, t: Seq<char>, n: i64)
    ensures
        ({
            let r = count_row(c, t, n);
            let k = clamp_count(n);
            &&& r.movie_count == (if t == "Movie"@ { k } else { c.movie_count })
            &&& r.series_count == (if t == "Series"@ { k } else { c.series_count })
            &&& r.episode_count == (if t == "Episode"@ { k } else { c.episode_count })
            &&& r.trailer_count == (if t == "Trailer"@ { k } else { c.trailer_count })
            &&& r.box_set_count == (if t == "BoxSet"@ { k } else { c.box_set_count })
            &&& r.book_count == (if t == "Book"@ { k } else { c.book_count })
            &&& r.music_video_count == (if t == "MusicVideo"@ { k } else { c.music_video_count })
            &&& r.song_count == (if t == "Audio"@ || t == "AudioItem"@ || t == "Song"@ { k } else { c.song_count })
            &&& r.album_count == (if t == "MusicAlbum"@ || t == "Album"@ { k } else { c.album_count })
            &&& r.item_count == sat_add_i32(c.item_count, k)
        }),
{
    reveal_type_names();
    if t == "Audio"@ {
        assert(t[0] != "Movie"@[0]);
    }
    if t == "Album"@ {
        assert(t[0] != "Movie"@[0]);
        assert(t[1] != "Audio"@[1]);
    }
    if t == "BoxSet"@ {
        assert(t[0] != "Series"@[0]);
    }
    if t == "Trailer"@ {
        assert(t[0] != "Episode"@[0]);
    }
    if t == "Song"@ {
        assert(t[0] != "Book"@[0]);
    }
    if t == "MusicAlbum"@ {
        assert(t[5] != "MusicVideo"@[5]);
    }
}

/// The counter of a type is the (narrowed) count of the last row of that
/// type: a later row of the same type replaces it, rows of other types
/// leave it alone, and the total is the saturating sum of all rows.
pub proof fn law_tally_last_row_of_type(rows: Seq<(Seq<char>, i64)>, n: i64, t: Seq<char>)
    ensures
        t == "Series"@ ==> tally(rows.push((t, n))).series_count == clamp_count(n),
        t == "Movie"@ ==> tally(rows.push((t, n))).movie_count == clamp_count(n),
        t == "Episode"@ ==> tally(rows.push((t, n))).episode_count == clamp_count(n),
        t != "Series"@ ==> tally(rows.push((t, n))).series_count == tally(rows).series_count,
        t != "Movie"@ ==> tally(rows.push((t, n))).movie_count == tally(rows).movie_count,
        t != "Episode"@ ==> tally(rows.push((t, n))).episode_count == tally(rows).episode_count,
        tally(rows.push((t, n))).item_count == sat_add_i32(tally(rows).item_count, clamp_count(n)),
{
    let s = rows.push((t, n));
    assert(s.drop_last() =~= rows);
    law_count_row_sets_its_counter(tally(rows), t, n);
}

/// One more `(library, type, count)` row changes only its own library's
/// counters: every item counts towards the library's total, only movies,
/// series, box sets and folders are top-level children, and the movie and
/// series counters take the row's count for a movie or series row.
pub proof fn law_library_stats_row(id: u128, rows: Seq<(u128, Option<Seq<char>>, i64)>, lib: u128, t: Option<Seq<char>>, n: i64)
    ensures
        ({
            let before = stats_fold(id, rows);
            let after = stats_fold(id, rows.push((lib, t, n)));
            &&& (lib != id ==> after == before)
            &&& (lib == id ==> after.1 == before.1 + n)
            &&& (lib == id ==> after.0 == before.0 + (if t == Some("Movie"@) || t == Some("Series"@)
                || t == Some("BoxSet"@) || t == Some("Folder"@) { n as int } else { 0 }))
            &&& (lib == id ==> after.2 == (if t == Some("Movie"@) { n as i32 } else { before.2 }))
            &&& (lib == id ==> after.3 == (if t == Some("Series"@) { n as i32 } else { before.3 }))
        }),
{
    reveal_type_names();
    reveal_strlit("Folder");
    assert("Folder"@.len() == 6);
    let s2 = rows.push((lib, t, n));
    assert(s2.drop_last() =~= rows);
    if t == Some("Series"@) {
        assert(t->0[0] != "BoxSet"@[0]);
    }
    if t == Some("Folder"@) {
        assert("Folder"@[0] != "Series"@[0]);
        assert("Folder"@[0] != "BoxSet"@[0]);
    }
}

} // verus!
