//! What a notice of changed media rescans, and the list of folder paths
//! the libraries use.

use vstd::prelude::*;
use crate::paths::{library_path_list, library_paths, path_matches_library, update_matches, Library};
use crate::text::{ascii_lower_seq, ends_with, ends_with_seq, eq_ignore_ascii_case, eq_ignore_case_seq, to_ascii_lowercase, trim, trim_seq, views};

verus! {

/// Whether ids are in strictly increasing order (so each occurs once).
pub open spec fn strictly_sorted(ids: Seq<u128>) -> bool {
    forall|a: int, b: int| 0 <= a < b < ids.len() ==> ids[a] < ids[b]
}

fn insert_sorted(v: &mut Vec<u128>, x: u128)
    requires
        strictly_sorted(old(v)@),
    ensures
        strictly_sorted(final(v)@),
        forall|y: u128| final(v)@.contains(y) <==> (old(v)@.contains(y) || y == x),
{
    let n = v.len();
    let mut p: usize = 0;
    while p < n && v[p] < x
        invariant
            p <= n,
            n == v@.len(),
            forall|k: int| 0 <= k < p ==> v@[k] < x,
        decreases n - p,
    {
        p = p + 1;
    }
    if p < n && v[p] == x {
        assert(v@[p as int] == x);
        assert(v@.contains(x));
        return;
    }
    let ghost before = v@;
    assert forall|k: int| p <= k < n implies x < before[k] by {
        if k > p {
            assert(before[p as int] < before[k]);
        }
    }
    v.insert(p, x);
    assert forall|a: int, b: int| 0 <= a < b < v@.len() implies v@[a] < v@[b] by {
        if a < p && b < p {
            assert(v@[a] == before[a] && v@[b] == before[b]);
        } else if a < p && b == p {
            assert(v@[a] == before[a]);
        } else if a < p {
            assert(v@[a] == before[a] && v@[b] == before[b - 1]);
        } else if a == p {
            assert(v@[b] == before[b - 1]);
        } else {
            assert(v@[a] == before[a - 1] && v@[b] == before[b - 1]);
        }
    }
    assert(before == old(v)@);
    assert forall|y: u128| v@.contains(y) <==> (old(v)@.contains(y) || y == x) by {
        if v@.contains(y) {
            let k = choose|k: int| 0 <= k < v@.len() && v@[k] == y;
            if k < p {
                assert(before[k] == y);
            } else if k > p {
                assert(before[k - 1] == y);
            }
        }
        if before.contains(y) {
            let k = choose|k: int| 0 <= k < before.len() && before[k] == y;
            if k < p {
                assert(v@[k] == y);
            } else {
                assert(v@[k + 1] == y);
            }
        }
        if y == x {
            assert(v@[p as int] == x);
        }
    }
}

/// Whether a library holds one of the updated paths (trimmed, not blank).
pub open spec fn affected(library: Library, updates: Seq<Seq<char>>) -> bool {
    exists|u: int, p: int|
        0 <= u < updates.len() && 0 <= p < library_path_list(library).len() && trim_seq(#[trigger] updates[u]).len()
            > 0 && update_matches(trim_seq(updates[u]), #[trigger] library_path_list(library)[p])
}

fn library_affected(library: &Library, updates: &Vec<String>) -> (r: bool)
    ensures
        r == affected(*library, views(updates@)),
{
    let paths = library_paths(library);
    let ghost lp = library_path_list(*library);
    let n = updates.len();
    let m = paths.len();
    let mut u: usize = 0;
    while u < n
        invariant
            u <= n,
            n == updates@.len(),
            m == paths@.len(),
            views(paths@) == lp,
            lp == library_path_list(*library),
            forall|a: int, b: int|
                0 <= a < u && 0 <= b < m ==> !(trim_seq(#[trigger] views(updates@)[a]).len() > 0 && update_matches(
                    trim_seq(views(updates@)[a]),
                    #[trigger] library_path_list(*library)[b],
                )),
        decreases n - u,
    {
        let t = trim(updates[u].as_str());
        assert(views(updates@)[u as int] == updates@[u as int]@);
        if t.unicode_len() != 0 {
            let mut p: usize = 0;
            while p < m
                invariant
                    p <= m,
                    u < n,
                    n == updates@.len(),
                    m == paths@.len(),
                    views(paths@) == lp,
                    t@ == trim_seq(views(updates@)[u as int]),
                    t@.len() > 0,
                    lp == library_path_list(*library),
                    forall|b: int| 0 <= b < p ==> !update_matches(t@, #[trigger] library_path_list(*library)[b]),
                decreases m - p,
            {
                assert(lp[p as int] == paths@[p as int]@);
                if path_matches_library(t, paths[p].as_str()) {
                    assert(trim_seq(views(updates@)[u as int]).len() > 0 && update_matches(
                        trim_seq(views(updates@)[u as int]),
                        library_path_list(*library)[p as int],
                    ));
                    return true;
                }
                p = p + 1;
            }
        }
        u = u + 1;
    }
    false
}

/// The libraries an update notice names, as sorted distinct ids: those
/// holding one of the updated paths.
pub fn libraries_for_media_updates(updates: &Vec<String>, libraries: &Vec<Library>) -> (r: Vec<u128>)
    ensures
        strictly_sorted(r@),
        forall|id: u128|
            r@.contains(id) <==> exists|k: int|
                0 <= k < libraries@.len() && (#[trigger] libraries@[k]).id == id && affected(
                    libraries@[k],
                    views(updates@),
                ),
{
    let mut out: Vec<u128> = Vec::new();
    let n = libraries.len();
    let mut i: usize = 0;
    while i < n
        invariant
            i <= n,
            n == libraries@.len(),
            strictly_sorted(out@),
            forall|id: u128|
                out@.contains(id) <==> exists|k: int|
                    0 <= k < i && (#[trigger] libraries@[k]).id == id && affected(libraries@[k], views(updates@)),
        decreases n - i,
    {
        if library_affected(&libraries[i], updates) {
            insert_sorted(&mut out, libraries[i].id);
        }
        i = i + 1;
    }
    out
}

/// The libraries of a collection type (ASCII case ignored), as sorted
/// distinct ids.
pub fn library_ids_by_collection_type(libraries: &Vec<Library>, collection_type: &str) -> (r: Vec<u128>)
    ensures
        strictly_sorted(r@),
        forall|id: u128|
            r@.contains(id) <==> exists|k: int|
                0 <= k < libraries@.len() && (#[trigger] libraries@[k]).id == id && eq_ignore_case_seq(
                    libraries@[k].collection_type@,
                    collection_type@,
                ),
{
    let mut out: Vec<u128> = Vec::new();
    let n = libraries.len();
    let mut i: usize = 0;
    while i < n
        invariant
            i <= n,
            n == libraries@.len(),
            strictly_sorted(out@),
            forall|id: u128|
                out@.contains(id) <==> exists|k: int|
                    0 <= k < i && (#[trigger] libraries@[k]).id == id && eq_ignore_case_seq(
                        libraries@[k].collection_type@,
                        collection_type@,
                    ),
        decreases n - i,
    {
        if eq_ignore_ascii_case(libraries[i].collection_type.as_str(), collection_type) {
            insert_sorted(&mut out, libraries[i].id);
        }
        i = i + 1;
    }
    out
}

/// What a notice of changed media rescans.
pub enum ScanTarget {
    /// Every library (nothing could be mapped to a library).
    All,
    /// These libraries, each once, in id order.
    Libraries(Vec<u128>),
}

/// The kind of notice a request path is: movies added or updated, series
/// added or updated (ASCII case ignored), or a list of updated paths.
pub open spec fn notice_type(path: Seq<char>) -> Option<Seq<char>> {
    let l = ascii_lower_seq(path);
    if ends_with_seq(l, "/library/movies/added"@) || ends_with_seq(l, "/library/movies/updated"@) {
        Some("movies"@)
    } else if ends_with_seq(l, "/library/series/added"@) || ends_with_seq(l, "/library/series/updated"@) {
        Some("tvshows"@)
    } else {
        None
    }
}

/// The libraries a notice names: those of the collection type its path
/// names, else those holding one of its updated paths.
pub open spec fn notice_names(library: Library, request_path: Seq<char>, updates: Seq<Seq<char>>) -> bool {
    match notice_type(request_path) {
        Some(t) => eq_ignore_case_seq(library.collection_type@, t),
        None => affected(library, updates),
    }
}

/// What a notice of changed media rescans: the libraries it names (see
/// `notice_names`), in id order and each once; every library when it names
/// none.
pub fn library_notify_targets(request_path: &str, updates: &Vec<String>, libraries: &Vec<Library>) -> (r: ScanTarget)
    ensures
        match r {
            ScanTarget::All => forall|k: int|
                0 <= k < libraries@.len() ==> !notice_names(#[trigger] libraries@[k], request_path@, views(updates@)),
            ScanTarget::Libraries(ids) => {
                &&& ids@.len() > 0
                &&& strictly_sorted(ids@)
                &&& forall|id: u128|
                    ids@.contains(id) <==> exists|k: int|
                        0 <= k < libraries@.len() && (#[trigger] libraries@[k]).id == id && notice_names(
                            libraries@[k],
                            request_path@,
                            views(updates@),
                        )
            },
        },
{
    let lower = to_ascii_lowercase(request_path);
    let l = lower.as_str();
    let ids = if ends_with(l, "/library/movies/added") || ends_with(l, "/library/movies/updated") {
        library_ids_by_collection_type(libraries, "movies")
    } else if ends_with(l, "/library/series/added") || ends_with(l, "/library/series/updated") {
        library_ids_by_collection_type(libraries, "tvshows")
    } else {
        libraries_for_media_updates(updates, libraries)
    };
    if ids.len() == 0 {
        assert forall|k: int| 0 <= k < libraries@.len() implies !notice_names(
            #[trigger] libraries@[k],
            request_path@,
            views(updates@),
        ) by {
            if notice_names(libraries@[k], request_path@, views(updates@)) {
                assert(ids@.contains(libraries@[k].id));
            }
        }
        ScanTarget::All
    } else {
        ScanTarget::Libraries(ids)
    }
}

/// Whether `a` comes before `b` in character order (the order `str`
/// comparison gives: by the first differing character, a prefix first).
pub open spec fn text_lt(a: Seq<char>, b: Seq<char>) -> bool
    decreases a.len(),
{
    if b.len() == 0 {
        false
    } else if a.len() == 0 {
        true
    } else if a[0] != b[0] {
        a[0] < b[0]
    } else {
        text_lt(a.drop_first(), b.drop_first())
    }
}

pub(crate) proof fn lemma_text_lt_irreflexive(a: Seq<char>)
    ensures
        !text_lt(a, a),
    decreases a.len(),
{
    if a.len() > 0 {
        lemma_text_lt_irreflexive(a.drop_first());
    }
}

pub(crate) proof fn lemma_text_lt_transitive(a: Seq<char>, b: Seq<char>, c: Seq<char>)
    requires
        text_lt(a, b),
        text_lt(b, c),
    ensures
        text_lt(a, c),
    decreases a.len(),
{
    if a.len() > 0 && b.len() > 0 && c.len() > 0 && a[0] == b[0] && b[0] == c[0] {
        lemma_text_lt_transitive(a.drop_first(), b.drop_first(), c.drop_first());
    }
}

pub(crate) proof fn lemma_text_lt_total(a: Seq<char>, b: Seq<char>)
    ensures
        a != b ==> text_lt(a, b) || text_lt(b, a),
    decreases a.len(),
{
    if a.len() > 0 && b.len() > 0 && a[0] == b[0] {
        lemma_text_lt_total(a.drop_first(), b.drop_first());
        if a != b {
            assert(a.drop_first() != b.drop_first()) by {
                if a.drop_first() == b.drop_first() {
                    assert(a =~= seq![a[0]] + a.drop_first());
                    assert(b =~= seq![b[0]] + b.drop_first());
                }
            }
        }
    } else if a.len() == 0 && b.len() == 0 {
        assert(a =~= b);
    }
}

/// Whether `a` comes before `b` in character order (see `text_lt`).
pub fn text_less(a: &str, b: &str) -> (r: bool)
    ensures
        r == text_lt(a@, b@),
{
    let n = a.unicode_len();
    let m = b.unicode_len();
    let mut i: usize = 0;
    assert(a@.skip(0) =~= a@ && b@.skip(0) =~= b@);
    while i < n && i < m
        invariant
            i <= n,
            i <= m,
            n == a@.len(),
            m == b@.len(),
            text_lt(a@, b@) == text_lt(a@.skip(i as int), b@.skip(i as int)),
        decreases n - i,
    {
        let x = a.get_char(i);
        let y = b.get_char(i);
        assert(a@.skip(i as int)[0] == x && b@.skip(i as int)[0] == y);
        if x != y {
            return x < y;
        }
        assert(a@.skip(i as int).drop_first() =~= a@.skip(i + 1));
        assert(b@.skip(i as int).drop_first() =~= b@.skip(i + 1));
        i = i + 1;
    }
    i == n && i < m
}

/// Whether texts are in strictly increasing character order (so each
/// occurs once).
pub open spec fn texts_sorted(v: Seq<Seq<char>>) -> bool {
    forall|a: int, b: int| 0 <= a < b < v.len() ==> text_lt(v[a], v[b])
}

fn insert_sorted_text(v: &mut Vec<String>, x: String)
    requires
        texts_sorted(views(old(v)@)),
    ensures
        texts_sorted(views(final(v)@)),
        forall|y: Seq<char>| views(final(v)@).contains(y) <==> (views(old(v)@).contains(y) || y == x@),
{
    let ghost before = views(v@);
    let n = v.len();
    let mut p: usize = 0;
    while p < n && text_less(v[p].as_str(), x.as_str())
        invariant
            p <= n,
            n == v@.len(),
            before == views(v@),
            forall|k: int| 0 <= k < p ==> text_lt(#[trigger] before[k], x@),
        decreases n - p,
    {
        assert(before[p as int] == v@[p as int]@);
        p = p + 1;
    }
    if p < n {
        assert(before[p as int] == v@[p as int]@);
        if text_less(x.as_str(), v[p].as_str()) == false {
            proof {
                lemma_text_lt_total(before[p as int], x@);
            }
            assert(before[p as int] == x@);
            assert(before.contains(x@));
            return;
        }
    }
    assert forall|k: int| p <= k < n implies text_lt(x@, #[trigger] before[k]) by {
        if k > p {
            lemma_text_lt_transitive(x@, before[p as int], before[k]);
        }
    }
    let ghost xv = x@;
    v.insert(p, x);
    let ghost after = views(v@);
    assert(after =~= before.insert(p as int, xv));
    assert forall|a: int, b: int| 0 <= a < b < after.len() implies text_lt(after[a], after[b]) by {
        if a < p && b < p {
        } else if a < p && b == p {
        } else if a < p {
            lemma_text_lt_transitive(before[a], xv, before[b - 1]);
        } else if a == p {
        } else {
        }
    }
    assert forall|y: Seq<char>| after.contains(y) <==> (before.contains(y) || y == xv) by {
        if after.contains(y) {
            let k = choose|k: int| 0 <= k < after.len() && after[k] == y;
            if k < p {
                assert(before[k] == y);
            } else if k > p {
                assert(before[k - 1] == y);
            }
        }
        if before.contains(y) {
            let k = choose|k: int| 0 <= k < before.len() && before[k] == y;
            if k < p {
                assert(after[k] == y);
            } else {
                assert(after[k + 1] == y);
            }
        }
        if y == xv {
            assert(after[p as int] == xv);
        }
    }
}

/// Whether a path is one a library uses: its own path or one of its paths.
pub open spec fn library_uses(library: Library, path: Seq<char>) -> bool {
    path == library.path@ || library_path_list(library).contains(path)
}

/// The folder paths the libraries use, in character order and each once.
pub fn physical_paths(libraries: &Vec<Library>) -> (r: Vec<String>)
    ensures
        texts_sorted(views(r@)),
        forall|p: Seq<char>|
            views(r@).contains(p) <==> exists|k: int| 0 <= k < libraries@.len() && library_uses(#[trigger] libraries@[k], p),
{
    let mut out: Vec<String> = Vec::new();
    let n = libraries.len();
    let mut i: usize = 0;
    while i < n
        invariant
            i <= n,
            n == libraries@.len(),
            texts_sorted(views(out@)),
            forall|p: Seq<char>|
                views(out@).contains(p) <==> exists|k: int| 0 <= k < i && library_uses(#[trigger] libraries@[k], p),
        decreases n - i,
    {
        let lib = &libraries[i];
        let ghost start = views(out@);
        insert_sorted_text(&mut out, lib.path.clone());
        let paths = library_paths(lib);
        let m = paths.len();
        let mut j: usize = 0;
        while j < m
            invariant
                j <= m,
                m == paths@.len(),
                i < n,
                n == libraries@.len(),
                views(paths@) == library_path_list(libraries@[i as int]),
                texts_sorted(views(out@)),
                forall|p: Seq<char>|
                    #[trigger] views(out@).contains(p) <==> (start.contains(p) || p == libraries@[i as int].path@
                        || exists|q: int| 0 <= q < j && views(paths@)[q] == p),
            decreases m - j,
        {
            let ghost pj = views(paths@)[j as int];
            assert(pj == paths@[j as int]@);
            let ghost mid = views(out@);
            assert(forall|p: Seq<char>|
                #[trigger] mid.contains(p) <==> (start.contains(p) || p == libraries@[i as int].path@ || exists|q: int|
                    0 <= q < j && views(paths@)[q] == p));
            insert_sorted_text(&mut out, paths[j].clone());
            assert forall|p: Seq<char>|
                views(out@).contains(p) <==> (start.contains(p) || p == libraries@[i as int].path@ || exists|q: int|
                    0 <= q < j + 1 && views(paths@)[q] == p) by {
                if p == pj {
                    assert(views(paths@)[j as int] == p);
                }
                if exists|q: int| 0 <= q < j + 1 && views(paths@)[q] == p {
                    let q = choose|q: int| 0 <= q < j + 1 && views(paths@)[q] == p;
                    if q < j {
                        assert(mid.contains(p));
                    }
                }
                if mid.contains(p) && !start.contains(p) && p != libraries@[i as int].path@ {
                    let q = choose|q: int| 0 <= q < j && views(paths@)[q] == p;
                    assert(0 <= q < j + 1 && views(paths@)[q] == p);
                }
            }
            j = j + 1;
        }
        assert forall|p: Seq<char>|
            views(out@).contains(p) <==> exists|k: int| 0 <= k < i + 1 && library_uses(#[trigger] libraries@[k], p) by {
            if views(out@).contains(p) && !start.contains(p) {
                if p != libraries@[i as int].path@ {
                    let q = choose|q: int| 0 <= q < m && views(paths@)[q] == p;
                    assert(library_path_list(libraries@[i as int]).contains(p));
                }
                assert(library_uses(libraries@[i as int], p));
            }
            if exists|k: int| 0 <= k < i + 1 && library_uses(#[trigger] libraries@[k], p) {
                let k = choose|k: int| 0 <= k < i + 1 && library_uses(#[trigger] libraries@[k], p);
                if k == i && !start.contains(p) && p != libraries@[i as int].path@ {
                    let q = choose|q: int| 0 <= q < library_path_list(libraries@[i as int]).len() && library_path_list(
                        libraries@[i as int],
                    )[q] == p;
                    assert(views(paths@)[q] == p);
                }
            }
        }
        i = i + 1;
    }
    out
}

} // verus!
