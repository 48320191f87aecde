//! Libraries and library paths left behind by remote sources that no longer
//! exist: which are removed at start-up, and the safety valve that stops a
//! removal of suspiciously many.

use vstd::prelude::*;
use crate::ids::{hex_digit, hex_fixed, lemma_hex_fixed_len, simple_form, simple_id};
use crate::text::{ascii_lower_seq, lower_char, owned, starts_with, starts_with_seq, str_eq, to_ascii_lowercase, trim, trim_seq};

verus! {

/// The prefix of the paths of a remote source's views.
pub open spec fn view_prefix() -> Seq<char> {
    "__remote_view_"@
}

/// The text with the prefix removed as often as it leads
/// (`trim_start_matches`).
pub open spec fn strip_prefix_all(s: Seq<char>, prefix: Seq<char>) -> Seq<char>
    decreases s.len(),
{
    if prefix.len() > 0 && starts_with_seq(s, prefix) {
        strip_prefix_all(s.skip(prefix.len() as int), prefix)
    } else {
        s
    }
}

/// The position of the first `_`.
pub open spec fn first_underscore(s: Seq<char>) -> Option<int>
    decreases s.len(),
{
    if s.len() == 0 {
        None
    } else {
        match first_underscore(s.drop_last()) {
            Some(i) => Some(i),
            None => if s.last() == '_' {
                Some(s.len() - 1)
            } else {
                None
            },
        }
    }
}

/// The source a view path (`__remote_view_<source id>_...`) belongs to:
/// after the leading prefixes, the text up to the first `_`, ASCII
/// lower-cased; none for a path that does not start with the prefix or
/// has no `_` after it.
pub open spec fn view_source_of(path: Seq<char>) -> Option<Seq<char>> {
    if !starts_with_seq(path, view_prefix()) {
        None
    } else {
        let rest = strip_prefix_all(path, view_prefix());
        match first_underscore(rest) {
            Some(i) => Some(ascii_lower_seq(rest.take(i))),
            None => None,
        }
    }
}

/// Whether a source id (32 hex digits) is one of the live sources.
pub open spec fn is_live(source: Seq<char>, live: Seq<u128>) -> bool {
    exists|k: int| 0 <= k < live.len() && simple_form(#[trigger] live[k]) == source
}

proof fn lemma_first_underscore_prefix(s: Seq<char>, k: int)
    requires
        0 <= k <= s.len(),
        first_underscore(s.take(k)) is Some,
    ensures
        first_underscore(s) == first_underscore(s.take(k)),
    decreases s.len() - k,
{
    if k < s.len() {
        assert(s.take(k + 1).drop_last() =~= s.take(k));
        lemma_first_underscore_prefix(s, k + 1);
    } else {
        assert(s.take(k) =~= s);
    }
}

/// The source a view path belongs to (see `view_source_of`).
pub fn view_source(path: &str) -> (r: Option<String>)
    ensures
        match r {
            Some(s) => view_source_of(path@) == Some(s@),
            None => view_source_of(path@) is None,
        },
{
    let mut rest: &str = path;
    proof {
        reveal_strlit("__remote_view_");
    }
    if !starts_with(path, "__remote_view_") {
        return None;
    }
    loop
        invariant
            view_prefix().len() == 14,
            starts_with_seq(path@, view_prefix()),
            strip_prefix_all(path@, view_prefix()) == strip_prefix_all(rest@, view_prefix()),
        ensures
            strip_prefix_all(path@, view_prefix()) == rest@,
        decreases rest@.len(),
    {
        if !starts_with(rest, "__remote_view_") {
            break;
        }
        rest = rest.substring_char(14, rest.unicode_len());
    }
    let n = rest.unicode_len();
    let mut i: usize = 0;
    while i < n
        invariant
            i <= n,
            n == rest@.len(),
            starts_with_seq(path@, view_prefix()),
            strip_prefix_all(path@, view_prefix()) == rest@,
            first_underscore(rest@.take(i as int)) is None,
        decreases n - i,
    {
        assert(rest@.take(i + 1).drop_last() =~= rest@.take(i as int));
        if rest.get_char(i) == '_' {
            proof {
                assert(rest@.take(i + 1).last() == '_');
                assert(first_underscore(rest@.take(i + 1)) == Some(i as int));
                lemma_first_underscore_prefix(rest@, i + 1);
            }
            let head = rest.substring_char(0, i);
            assert(head@ =~= rest@.take(i as int));
            return Some(to_ascii_lowercase(head));
        }
        i = i + 1;
    }
    assert(rest@.take(n as int) =~= rest@);
    None
}

fn live_contains(live: &Vec<u128>, source: &str) -> (r: bool)
    ensures
        r == is_live(source@, live@),
{
    let n = live.len();
    let mut k: usize = 0;
    while k < n
        invariant
            k <= n,
            n == live@.len(),
            forall|j: int| 0 <= j < k ==> simple_form(#[trigger] live@[j]) != source@,
        decreases n - k,
    {
        let id = simple_id(live[k]);
        if str_eq(id.as_str(), source) {
            return true;
        }
        k = k + 1;
    }
    false
}

/// Whether a standalone view library is left behind: its path names a
/// source that is not live.
pub open spec fn is_orphan(path: Seq<char>, live: Seq<u128>) -> bool {
    view_source_of(path) matches Some(s) && !is_live(s, live)
}

/// The standalone view libraries left behind, in order.
pub open spec fn orphans(libraries: Seq<(u128, String)>, live: Seq<u128>) -> Seq<u128>
    decreases libraries.len(),
{
    if libraries.len() == 0 {
        Seq::empty()
    } else {
        let prev = orphans(libraries.drop_last(), live);
        if is_orphan(libraries.last().1@, live) {
            prev.push(libraries.last().0)
        } else {
            prev
        }
    }
}

/// What start-up does with the standalone view libraries left behind.
pub enum OrphanPlan {
    /// Remove these libraries.
    Remove(Vec<u128>),
    /// Remove nothing: this many were found, more than 50 or at least half
    /// of all standalone view libraries.
    Abort(usize),
}

/// Whether removing `planned` of `total` standalone view libraries trips
/// the safety valve: more than 50, or at least half of them.
pub open spec fn trips_valve(planned: nat, total: nat) -> bool {
    planned > 50 || (total > 0 && 2 * planned >= total)
}

/// What start-up does with the standalone view libraries (id, path) given
/// the live sources: the orphans are removed unless their number trips the
/// safety valve. A removal is never of more than 50 libraries, nor of half
/// or more of them.
pub fn plan_orphan_cleanup(libraries: &Vec<(u128, String)>, live: &Vec<u128>) -> (r: OrphanPlan)
    ensures
        match r {
            OrphanPlan::Remove(ids) => {
                &&& ids@ == orphans(libraries@, live@)
                &&& !trips_valve(ids@.len(), libraries@.len())
                &&& ids@.len() <= 50
                &&& (libraries@.len() > 0 ==> 2 * ids@.len() < libraries@.len())
            },
            OrphanPlan::Abort(count) => count == orphans(libraries@, live@).len() && trips_valve(
                count as nat,
                libraries@.len(),
            ),
        },
{
    let mut planned: Vec<u128> = Vec::new();
    let n = libraries.len();
    let mut i: usize = 0;
    while i < n
        invariant
            i <= n,
            n == libraries@.len(),
            planned@ == orphans(libraries@.take(i as int), live@),
            planned@.len() <= i,
        decreases n - i,
    {
        assert(libraries@.take(i + 1).drop_last() =~= libraries@.take(i as int));
        assert(libraries@.take(i + 1).last() == libraries@[i as int]);
        let orphan = match view_source(libraries[i].1.as_str()) {
            Some(s) => !live_contains(live, s.as_str()),
            None => false,
        };
        if orphan {
            planned.push(libraries[i].0);
        }
        i = i + 1;
    }
    assert(libraries@.take(n as int) =~= libraries@);
    let count = planned.len();
    if count > 50 || (n > 0 && count >= n - count) {
        OrphanPlan::Abort(count)
    } else {
        OrphanPlan::Remove(planned)
    }
}

/// Whether a path entry of a library's options stays: one without a string
/// path, or not under the view prefix, stays; one under it stays when it
/// names a live source (one naming none is dropped).
pub open spec fn path_entry_stays(path: Option<Seq<char>>, live: Seq<u128>) -> bool {
    match path {
        None => true,
        Some(p) => !starts_with_seq(p, view_prefix()) || (view_source_of(p) matches Some(s) && is_live(s, live)),
    }
}

/// The source the path entry at `k` names, if it has a string path.
pub open spec fn source_at(paths: Seq<Option<String>>, k: int) -> Option<Seq<char>> {
    match paths[k] {
        Some(s) => view_source_of(s@),
        None => None,
    }
}

/// The text of the path entry at `k`, if it has a string path.
pub open spec fn path_at(paths: Seq<Option<String>>, k: int) -> Option<Seq<char>> {
    match paths[k] {
        Some(s) => Some(s@),
        None => None,
    }
}

/// Whether `source` is named by a dropped entry before `upto`.
pub open spec fn dropped_source(keep: Seq<bool>, paths: Seq<Option<String>>, source: Seq<char>, upto: int) -> bool {
    exists|k: int| 0 <= k < upto && !keep[k] && #[trigger] source_at(paths, k) == Some(source)
}

/// The path entries of a library's options that stay (see
/// `path_entry_stays`), as one flag per entry, and the sources named by
/// the entries that are dropped.
pub fn retain_live_paths(paths: &Vec<Option<String>>, live: &Vec<u128>) -> (r: (Vec<bool>, Vec<String>))
    ensures
        r.0@.len() == paths@.len(),
        forall|k: int| 0 <= k < paths@.len() ==> #[trigger] r.0@[k] == path_entry_stays(path_at(paths@, k), live@),
        forall|j: int|
            0 <= j < r.1@.len() ==> dropped_source(r.0@, paths@, #[trigger] r.1@[j]@, paths@.len() as int),
{
    let mut keep: Vec<bool> = Vec::new();
    let mut dropped: Vec<String> = Vec::new();
    let n = paths.len();
    let mut i: usize = 0;
    while i < n
        invariant
            i <= n,
            n == paths@.len(),
            keep@.len() == i,
            view_prefix() == "__remote_view_"@,
            forall|k: int| 0 <= k < i ==> #[trigger] keep@[k] == path_entry_stays(path_at(paths@, k), live@),
            forall|j: int| 0 <= j < dropped@.len() ==> dropped_source(keep@, paths@, #[trigger] dropped@[j]@, i as int),
        decreases n - i,
    {
        let ghost before_drop = dropped@;
        let ghost before_keep = keep@;
        let mut lost: Option<String> = None;
        let stays = match &paths[i] {
            None => true,
            Some(p) => {
                if !starts_with(p.as_str(), "__remote_view_") {
                    true
                } else {
                    match view_source(p.as_str()) {
                        None => false,
                        Some(src) => {
                            if live_contains(live, src.as_str()) {
                                true
                            } else {
                                lost = Some(src);
                                false
                            }
                        },
                    }
                }
            },
        };
        keep.push(stays);
        assert forall|j: int| 0 <= j < before_drop.len() implies dropped_source(keep@, paths@, #[trigger] before_drop[j]@, i + 1) by {
            assert(dropped_source(before_keep, paths@, before_drop[j]@, i as int));
            let k = choose|k: int| 0 <= k < i && !before_keep[k] && #[trigger] source_at(paths@, k) == Some(before_drop[j]@);
            assert(keep@[k] == before_keep[k]);
        }
        match lost {
            Some(src) => {
                let ghost sv = src@;
                assert(source_at(paths@, i as int) == Some(sv));
                dropped.push(src);
                assert forall|j: int| 0 <= j < dropped@.len() implies dropped_source(keep@, paths@, #[trigger] dropped@[j]@, i + 1) by {
                    if j < before_drop.len() {
                        assert(dropped@[j] == before_drop[j]);
                    } else {
                        assert(dropped@[j]@ == sv);
                        assert(!keep@[i as int]);
                    }
                }
            },
            None => {},
        }
        i = i + 1;
    }
    (keep, dropped)
}

/// The path under which a remote source's view is added to a library:
/// the view prefix, the source's id (32 hex digits), `_` and the view's id
/// trimmed.
pub open spec fn remote_view_path_of(source_id: u128, view_id: Seq<char>) -> Seq<char> {
    view_prefix() + simple_form(source_id) + "_"@ + trim_seq(view_id)
}

/// The path under which a remote source's view is added to a library (see
/// `remote_view_path_of`).
pub fn remote_view_path(source_id: u128, view_id: &str) -> (r: String)
    ensures
        r@ == remote_view_path_of(source_id, view_id@),
{
    let mut out = owned("__remote_view_");
    let id = simple_id(source_id);
    out.append(id.as_str());
    out.append("_");
    out.append(trim(view_id));
    out
}

proof fn lemma_hex_chars(n: nat, count: nat)
    ensures
        forall|i: int|
            0 <= i < hex_fixed(n, count).len() ==> {
                let c = #[trigger] hex_fixed(n, count)[i];
                ('0' <= c <= '9') || ('a' <= c <= 'f')
            },
    decreases count,
{
    if count > 0 {
        lemma_hex_chars(n / 16, (count - 1) as nat);
        let prev = hex_fixed(n / 16, (count - 1) as nat);
        assert forall|i: int| 0 <= i < hex_fixed(n, count).len() implies {
            let c = #[trigger] hex_fixed(n, count)[i];
            ('0' <= c <= '9') || ('a' <= c <= 'f')
        } by {
            if i < prev.len() {
                assert(hex_fixed(n, count)[i] == prev[i]);
            } else {
                let d = n % 16;
                assert(hex_fixed(n, count)[i] == hex_digit(d));
            }
        }
    }
}

proof fn lemma_no_underscore(s: Seq<char>)
    requires
        forall|j: int| 0 <= j < s.len() ==> s[j] != '_',
    ensures
        first_underscore(s) is None,
    decreases s.len(),
{
    if s.len() > 0 {
        lemma_no_underscore(s.drop_last());
    }
}

proof fn lemma_first_underscore_at(s: Seq<char>, i: int)
    requires
        0 <= i < s.len(),
        s[i] == '_',
        forall|j: int| 0 <= j < i ==> s[j] != '_',
    ensures
        first_underscore(s) == Some(i),
    decreases s.len(),
{
    if i == s.len() - 1 {
        lemma_no_underscore(s.drop_last());
    } else {
        lemma_first_underscore_at(s.drop_last(), i);
    }
}

/// The source of a view path built for a source's view is that source:
/// building the path and reading it back give the source's id.
pub proof fn law_view_path_names_its_source(source_id: u128, view_id: Seq<char>)
    ensures
        view_source_of(remote_view_path_of(source_id, view_id)) == Some(simple_form(source_id)),
{
    reveal_strlit("__remote_view_");
    reveal_strlit("_");
    let p = view_prefix();
    let sf = simple_form(source_id);
    lemma_hex_fixed_len(source_id as nat, 32);
    lemma_hex_chars(source_id as nat, 32);
    let rest = sf + "_"@ + trim_seq(view_id);
    let path = remote_view_path_of(source_id, view_id);
    assert(path =~= p + rest);
    assert(starts_with_seq(path, p)) by {
        assert(path.subrange(0, p.len() as int) =~= p);
    }
    assert(path.skip(p.len() as int) =~= rest);
    assert(!starts_with_seq(rest, p)) by {
        assert(rest[0] == sf[0]);
        assert(sf[0] == hex_fixed(source_id as nat, 32)[0]);
        assert(p[0] == '_');
        if starts_with_seq(rest, p) {
            assert(rest.subrange(0, p.len() as int)[0] == p[0]);
        }
    }
    assert(strip_prefix_all(rest, p) == rest);
    assert(strip_prefix_all(path, p) == rest);
    assert forall|j: int| 0 <= j < 32 implies rest[j] != '_' by {
        assert(rest[j] == sf[j]);
    }
    assert(rest[32] == '_');
    lemma_first_underscore_at(rest, 32);
    assert(rest.take(32) =~= sf);
    assert(ascii_lower_seq(sf) =~= sf) by {
        assert forall|i: int| 0 <= i < sf.len() implies ascii_lower_seq(sf)[i] == sf[i] by {
            assert(lower_char(sf[i]) == sf[i]);
        }
    }
}

/// The start of the view paths of one source: the view prefix, the
/// source's id and `_`.
pub open spec fn source_view_prefix(source_id: u128) -> Seq<char> {
    view_prefix() + simple_form(source_id) + "_"@
}

/// Which path entries of a library's options stay when a source is removed:
/// those without a string path, and those not under the source's prefix.
pub fn keep_paths_without_source(paths: &Vec<Option<String>>, source_id: u128) -> (r: Vec<bool>)
    ensures
        r@.len() == paths@.len(),
        forall|k: int|
            0 <= k < paths@.len() ==> #[trigger] r@[k] == match path_at(paths@, k) {
                Some(p) => !starts_with_seq(p, source_view_prefix(source_id)),
                None => true,
            },
{
    let mut prefix = owned("__remote_view_");
    let id = simple_id(source_id);
    prefix.append(id.as_str());
    prefix.append("_");
    let mut keep: Vec<bool> = Vec::new();
    let n = paths.len();
    let mut i: usize = 0;
    while i < n
        invariant
            i <= n,
            n == paths@.len(),
            prefix@ == source_view_prefix(source_id),
            keep@.len() == i,
            forall|k: int|
                0 <= k < i ==> #[trigger] keep@[k] == match path_at(paths@, k) {
                    Some(p) => !starts_with_seq(p, source_view_prefix(source_id)),
                    None => true,
                },
        decreases n - i,
    {
        let stays = match &paths[i] {
            Some(p) => !starts_with(p.as_str(), prefix.as_str()),
            None => true,
        };
        keep.push(stays);
        i = i + 1;
    }
    keep
}

/// The standalone libraries of a source's views, in order.
pub open spec fn source_libraries(libraries: Seq<(u128, String)>, source_id: u128) -> Seq<u128>
    decreases libraries.len(),
{
    if libraries.len() == 0 {
        Seq::empty()
    } else {
        let prev = source_libraries(libraries.drop_last(), source_id);
        if starts_with_seq(libraries.last().1@, source_view_prefix(source_id)) {
            prev.push(libraries.last().0)
        } else {
            prev
        }
    }
}

/// The libraries (id, path) deleted when a source is removed: those whose
/// path starts with the source's view prefix, in order.
pub fn libraries_of_source(libraries: &Vec<(u128, String)>, source_id: u128) -> (r: Vec<u128>)
    ensures
        r@ == source_libraries(libraries@, source_id),
{
    let mut prefix = owned("__remote_view_");
    let id = simple_id(source_id);
    prefix.append(id.as_str());
    prefix.append("_");
    let mut out: Vec<u128> = Vec::new();
    let n = libraries.len();
    let mut i: usize = 0;
    while i < n
        invariant
            i <= n,
            n == libraries@.len(),
            prefix@ == source_view_prefix(source_id),
            out@ == source_libraries(libraries@.take(i as int), source_id),
        decreases n - i,
    {
        assert(libraries@.take(i + 1).drop_last() =~= libraries@.take(i as int));
        assert(libraries@.take(i + 1).last() == libraries@[i as int]);
        if starts_with(libraries[i].1.as_str(), prefix.as_str()) {
            out.push(libraries[i].0);
        }
        i = i + 1;
    }
    assert(libraries@.take(n as int) =~= libraries@);
    out
}

/// Removing a source drops the paths of its views.
pub proof fn law_source_views_dropped(source_id: u128, view_id: Seq<char>)
    ensures
        starts_with_seq(remote_view_path_of(source_id, view_id), source_view_prefix(source_id)),
{
    let path = remote_view_path_of(source_id, view_id);
    let pre = source_view_prefix(source_id);
    assert(path =~= pre + trim_seq(view_id));
    assert(path.subrange(0, pre.len() as int) =~= pre);
}

} // verus!
