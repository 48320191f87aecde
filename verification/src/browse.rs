//! Server-side browsing for the administrator: which entries of a
//! directory are listed and in what order, and the order of log files.

use vstd::prelude::*;
use crate::notify::{lemma_text_lt_irreflexive, lemma_text_lt_total, lemma_text_lt_transitive, text_less, text_lt};
use crate::text::{owned, to_lowercase, unicode_lower};

verus! {

/// An entry read from a directory.
pub struct DirectoryEntry {
    pub name: String,
    pub path: String,
    pub is_dir: bool,
    pub is_file: bool,
}

/// An entry as listed.
pub struct FileSystemEntry {
    pub name: String,
    pub path: String,
    pub entry_type: String,
}

/// Whether an entry is listed: directories only when they are asked for,
/// files only when they are asked for, and nothing that is neither.
pub open spec fn listed(e: DirectoryEntry, include_files: bool, include_directories: bool) -> bool {
    !((e.is_dir && !include_directories) || (e.is_file && !include_files) || (!e.is_dir && !e.is_file))
}

/// The type an entry is listed with.
pub open spec fn entry_type_of(e: DirectoryEntry) -> Seq<char> {
    if e.is_dir {
        "Directory"@
    } else {
        "File"@
    }
}

/// Whether `a` is listed before `b` whatever their positions: directories
/// before files, then by lower-cased name.
pub open spec fn lists_before(a: DirectoryEntry, b: DirectoryEntry) -> bool {
    (a.is_dir && !b.is_dir) || (a.is_dir == b.is_dir && text_lt(unicode_lower(a.name@), unicode_lower(b.name@)))
}

/// Whether two entries sort as equals.
pub open spec fn same_rank(a: DirectoryEntry, b: DirectoryEntry) -> bool {
    a.is_dir == b.is_dir && unicode_lower(a.name@) == unicode_lower(b.name@)
}

/// `order` lists the positions of the listed entries among the first `i`,
/// each once, sorted by `lists_before`, equals in the order read.
pub open spec fn listing_upto(order: Seq<usize>, entries: Seq<DirectoryEntry>, f: bool, d: bool, i: int) -> bool {
    &&& forall|k: int| 0 <= k < order.len() ==> #[trigger] order[k] < i && listed(entries[order[k] as int], f, d)
    &&& forall|q: int| 0 <= q < i && listed(#[trigger] entries[q], f, d) ==> order.contains(q as usize)
    &&& order.no_duplicates()
    &&& forall|a: int, b: int|
        0 <= a < b < order.len() ==> lists_before(entries[#[trigger] order[a] as int], entries[#[trigger] order[b] as int])
            || (same_rank(entries[order[a] as int], entries[order[b] as int]) && order[a] < order[b])
}

/// The entry as listed.
pub open spec fn as_listed(e: DirectoryEntry, r: FileSystemEntry) -> bool {
    r.name@ == e.name@ && r.path@ == e.path@ && r.entry_type@ == entry_type_of(e)
}

proof fn lemma_rank_facts(a: DirectoryEntry, b: DirectoryEntry, c: DirectoryEntry)
    ensures
        !lists_before(a, a),
        !lists_before(a, b) ==> lists_before(b, a) || same_rank(a, b),
        lists_before(a, b) && lists_before(b, c) ==> lists_before(a, c),
        lists_before(a, b) && same_rank(b, c) ==> lists_before(a, c),
        same_rank(a, b) && lists_before(b, c) ==> lists_before(a, c),
        lists_before(a, b) ==> !same_rank(a, b),
{
    let la = unicode_lower(a.name@);
    let lb = unicode_lower(b.name@);
    let lc = unicode_lower(c.name@);
    lemma_text_lt_irreflexive(la);
    lemma_text_lt_total(la, lb);
    if text_lt(la, lb) && text_lt(lb, lc) {
        lemma_text_lt_transitive(la, lb, lc);
    }
}

proof fn lemma_insert_listed(
    before: Seq<usize>,
    entries: Seq<DirectoryEntry>,
    f: bool,
    d: bool,
    i: usize,
    p: int,
)
    requires
        i < entries.len(),
        listed(entries[i as int], f, d),
        listing_upto(before, entries, f, d, i as int),
        0 <= p <= before.len(),
        forall|k: int| 0 <= k < p ==> !lists_before(entries[i as int], #[trigger] entries[before[k] as int]),
        p < before.len() ==> lists_before(entries[i as int], entries[before[p] as int]),
    ensures
        listing_upto(before.insert(p, i), entries, f, d, i + 1),
{
    let e = entries[i as int];
    let out = before.insert(p, i);
    assert forall|k: int| p <= k < before.len() implies lists_before(e, #[trigger] entries[before[k] as int]) by {
        if k > p {
            lemma_rank_facts(e, entries[before[p] as int], entries[before[k] as int]);
        }
    }
    assert forall|k: int| 0 <= k < out.len() implies #[trigger] out[k] < i + 1 && listed(entries[out[k] as int], f, d) by {
        if k < p {
            assert(out[k] == before[k]);
        } else if k > p {
            assert(out[k] == before[k - 1]);
        }
    }
    assert forall|q: int| 0 <= q < i + 1 && listed(#[trigger] entries[q], f, d) implies out.contains(q as usize) by {
        if q < i {
            let k = choose|k: int| 0 <= k < before.len() && before[k] == q as usize;
            if k < p {
                assert(out[k] == before[k]);
            } else {
                assert(out[k + 1] == before[k]);
            }
        } else {
            assert(out[p] == i);
        }
    }
    assert forall|a: int, b: int| 0 <= a < b < out.len() implies out[a] != out[b] by {
        if a < p && b < p {
            assert(out[a] == before[a] && out[b] == before[b]);
        } else if a < p && b == p {
            assert(out[a] == before[a]);
        } else if a < p && b > p {
            assert(out[a] == before[a] && out[b] == before[b - 1]);
        } else if a == p {
            assert(out[b] == before[b - 1]);
        } else {
            assert(out[a] == before[a - 1] && out[b] == before[b - 1]);
        }
    }
    assert forall|a: int, b: int|
        0 <= a < b < out.len() implies lists_before(entries[#[trigger] out[a] as int], entries[#[trigger] out[b] as int])
        || (same_rank(entries[out[a] as int], entries[out[b] as int]) && out[a] < out[b]) by {
        if a < p && b < p {
            assert(out[a] == before[a] && out[b] == before[b]);
        } else if a < p && b == p {
            assert(out[a] == before[a]);
            lemma_rank_facts(e, entries[before[a] as int], e);
        } else if a < p && b > p {
            assert(out[a] == before[a] && out[b] == before[b - 1]);
        } else if a == p {
            assert(out[b] == before[b - 1]);
        } else {
            assert(out[a] == before[a - 1] && out[b] == before[b - 1]);
        }
    }
}

/// The entries of a directory as listed: those `listed` keeps, directories
/// before files and then by lower-cased name, equals in the order read.
pub fn directory_listing(entries: &Vec<DirectoryEntry>, include_files: bool, include_directories: bool) -> (r: Vec<
    FileSystemEntry,
>)
    ensures
        exists|order: Seq<usize>|
            #[trigger] listing_upto(order, entries@, include_files, include_directories, entries@.len() as int)
                && order.len() == r@.len() && forall|k: int|
                0 <= k < r@.len() ==> as_listed(entries@[order[k] as int], #[trigger] r@[k]),
{
    let n = entries.len();
    let mut lowered: Vec<String> = Vec::new();
    let mut out: Vec<usize> = Vec::new();
    let mut i: usize = 0;
    while i < n
        invariant
            i <= n,
            n == entries@.len(),
            lowered@.len() == i,
            forall|k: int| 0 <= k < i ==> #[trigger] lowered@[k]@ == unicode_lower(entries@[k].name@),
            listing_upto(out@, entries@, include_files, include_directories, i as int),
        decreases n - i,
    {
        let low = to_lowercase(entries[i].name.as_str());
        lowered.push(low);
        let e = &entries[i];
        let keep = !((e.is_dir && !include_directories) || (e.is_file && !include_files) || (!e.is_dir
            && !e.is_file));
        if keep {
            let len = out.len();
            let mut p: usize = 0;
            while p < len
                invariant
                    p <= len,
                    len == out@.len(),
                    n == entries@.len(),
                    i < n,
                    lowered@.len() == i + 1,
                    forall|k: int| 0 <= k <= i ==> #[trigger] lowered@[k]@ == unicode_lower(entries@[k].name@),
                    forall|k: int| 0 <= k < out@.len() ==> #[trigger] out@[k] < i,
                    forall|k: int| 0 <= k < p ==> !lists_before(entries@[i as int], #[trigger] entries@[out@[k] as int]),
                ensures
                    p <= len,
                    forall|k: int| 0 <= k < p ==> !lists_before(entries@[i as int], #[trigger] entries@[out@[k] as int]),
                    p < len ==> lists_before(entries@[i as int], entries@[out@[p as int] as int]),
                decreases len - p,
            {
                let o = out[p];
                let e = &entries[i];
                let other = &entries[o];
                let goes_before = (e.is_dir && !other.is_dir) || (e.is_dir == other.is_dir && text_less(
                    lowered[i].as_str(),
                    lowered[o].as_str(),
                ));
                if goes_before {
                    break;
                }
                p = p + 1;
            }
            proof {
                lemma_insert_listed(out@, entries@, include_files, include_directories, i, p as int);
            }
            out.insert(p, i);
        }
        i = i + 1;
    }
    let mut r: Vec<FileSystemEntry> = Vec::new();
    let m = out.len();
    let mut k: usize = 0;
    while k < m
        invariant
            k <= m,
            m == out@.len(),
            n == entries@.len(),
            forall|j: int| 0 <= j < m ==> #[trigger] out@[j] < n,
            r@.len() == k,
            forall|j: int| 0 <= j < k ==> as_listed(entries@[out@[j] as int], #[trigger] r@[j]),
        decreases m - k,
    {
        let e = &entries[out[k]];
        let entry_type = if e.is_dir {
            owned("Directory")
        } else {
            owned("File")
        };
        r.push(FileSystemEntry { name: e.name.clone(), path: e.path.clone(), entry_type });
        k = k + 1;
    }
    assert(listing_upto(out@, entries@, include_files, include_directories, entries@.len() as int));
    r
}


/// A log file: its name and when it was last written (milliseconds since
/// the epoch).
pub struct LogFile {
    pub name: String,
    pub date_modified: i64,
}

/// `order` lists the positions of the first `i` log files, each once, the
/// most recently written first, files written at the same time in the
/// order read.
pub open spec fn newest_upto(order: Seq<usize>, files: Seq<LogFile>, i: int) -> bool {
    &&& forall|k: int| 0 <= k < order.len() ==> #[trigger] order[k] < i
    &&& forall|q: int| 0 <= q < i ==> #[trigger] order.contains(q as usize)
    &&& order.no_duplicates()
    &&& forall|a: int, b: int|
        0 <= a < b < order.len() ==> files[#[trigger] order[a] as int].date_modified > files[#[trigger] order[
        b] as int].date_modified || (files[order[a] as int].date_modified == files[order[b] as int].date_modified
        && order[a] < order[b])
}

proof fn lemma_insert_newest(before: Seq<usize>, files: Seq<LogFile>, i: usize, p: int)
    requires
        i < files.len(),
        newest_upto(before, files, i as int),
        0 <= p <= before.len(),
        forall|k: int| 0 <= k < p ==> files[#[trigger] before[k] as int].date_modified >= files[i as int].date_modified,
        p < before.len() ==> files[before[p] as int].date_modified < files[i as int].date_modified,
    ensures
        newest_upto(before.insert(p, i), files, i + 1),
{
    let t = files[i as int].date_modified;
    let out = before.insert(p, i);
    assert forall|k: int| p <= k < before.len() implies files[#[trigger] before[k] as int].date_modified < t by {
        if k > p {
            assert(files[before[p] as int].date_modified >= files[before[k] as int].date_modified);
        }
    }
    assert forall|k: int| 0 <= k < out.len() implies #[trigger] out[k] < i + 1 by {
        if k < p {
            assert(out[k] == before[k]);
        } else if k > p {
            assert(out[k] == before[k - 1]);
        }
    }
    assert forall|q: int| 0 <= q < i + 1 implies #[trigger] out.contains(q as usize) by {
        if q < i {
            assert(before.contains(q as usize));
            let k = choose|k: int| 0 <= k < before.len() && before[k] == q as usize;
            if k < p {
                assert(out[k] == before[k]);
            } else {
                assert(out[k + 1] == before[k]);
            }
        } else {
            assert(out[p] == i);
        }
    }
    assert forall|a: int, b: int| 0 <= a < b < out.len() implies out[a] != out[b] by {
        if a < p && b < p {
            assert(out[a] == before[a] && out[b] == before[b]);
        } else if a < p && b == p {
            assert(out[a] == before[a]);
        } else if a < p && b > p {
            assert(out[a] == before[a] && out[b] == before[b - 1]);
        } else if a == p {
            assert(out[b] == before[b - 1]);
        } else {
            assert(out[a] == before[a - 1] && out[b] == before[b - 1]);
        }
    }
    assert forall|a: int, b: int|
        0 <= a < b < out.len() implies files[#[trigger] out[a] as int].date_modified > files[#[trigger] out[
        b] as int].date_modified || (files[out[a] as int].date_modified == files[out[b] as int].date_modified
        && out[a] < out[b]) by {
        if a < p && b < p {
            assert(out[a] == before[a] && out[b] == before[b]);
        } else if a < p && b == p {
            assert(out[a] == before[a]);
        } else if a < p && b > p {
            assert(out[a] == before[a] && out[b] == before[b - 1]);
        } else if a == p {
            assert(out[b] == before[b - 1]);
        } else {
            assert(out[a] == before[a - 1] && out[b] == before[b - 1]);
        }
    }
}

/// `listed` holds the files at the positions `order` names, in that order.
pub open spec fn files_in_order(listed: Seq<LogFile>, order: Seq<usize>, files: Seq<LogFile>) -> bool {
    &&& order.len() == listed.len()
    &&& forall|k: int|
        0 <= k < listed.len() ==> #[trigger] listed[k].name@ == files[order[k] as int].name@
            && listed[k].date_modified == files[order[k] as int].date_modified
}

/// The log files the most recently written first, files written at the
/// same time in the order read.
pub fn newest_first(files: &Vec<LogFile>) -> (r: Vec<LogFile>)
    ensures
        exists|order: Seq<usize>| #[trigger] newest_upto(order, files@, files@.len() as int) && files_in_order(r@, order, files@),
{
    let n = files.len();
    let mut out: Vec<usize> = Vec::new();
    let mut i: usize = 0;
    while i < n
        invariant
            i <= n,
            n == files@.len(),
            newest_upto(out@, files@, i as int),
        decreases n - i,
    {
        let t = files[i].date_modified;
        let len = out.len();
        let mut p: usize = 0;
        while p < len && files[out[p]].date_modified >= t
            invariant
                p <= len,
                len == out@.len(),
                n == files@.len(),
                i < n,
                t == files@[i as int].date_modified,
                forall|k: int| 0 <= k < out@.len() ==> #[trigger] out@[k] < i,
                forall|k: int| 0 <= k < p ==> files@[#[trigger] out@[k] as int].date_modified >= t,
            decreases len - p,
        {
            p = p + 1;
        }
        proof {
            lemma_insert_newest(out@, files@, i, p as int);
        }
        out.insert(p, i);
        i = i + 1;
    }
    let mut r: Vec<LogFile> = Vec::new();
    let m = out.len();
    let mut k: usize = 0;
    while k < m
        invariant
            k <= m,
            m == out@.len(),
            n == files@.len(),
            forall|j: int| 0 <= j < m ==> #[trigger] out@[j] < n,
            r@.len() == k,
            forall|j: int|
                0 <= j < k ==> #[trigger] r@[j].name@ == files@[out@[j] as int].name@ && r@[j].date_modified
                    == files@[out@[j] as int].date_modified,
        decreases m - k,
    {
        let f = &files[out[k]];
        r.push(LogFile { name: f.name.clone(), date_modified: f.date_modified });
        k = k + 1;
    }
    assert(newest_upto(out@, files@, files@.len() as int));
    assert(files_in_order(r@, out@, files@));
    r
}

} // verus!
