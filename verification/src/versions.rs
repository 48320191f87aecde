//! The versions of a title: which stored items count as other versions of
//! an item, and the group they form once found.

use vstd::prelude::*;
use crate::identity::{imdb_keys, provider_first, provider_of, tmdb_keys, ProviderIds};
use crate::media::opt_string;
use crate::text::{owned, str_eq};

verus! {

/// Whether items of this type are grouped into versions.
pub open spec fn groups_versions(item_type: Seq<char>) -> bool {
    item_type == "Movie"@ || item_type == "Series"@ || item_type == "Episode"@
}

/// The path pattern that marks an id in a file name, such as `%{tmdbid=603}%`.
pub open spec fn path_token(prefix: Seq<char>, id: Option<Seq<char>>) -> Option<Seq<char>> {
    match id {
        Some(v) => Some(prefix + v + "}%"@),
        None => None,
    }
}

/// What the other versions of an item are looked up by.
pub struct VersionKeys {
    pub tmdb: Option<String>,
    pub imdb: Option<String>,
    pub tmdb_path_token: Option<String>,
    pub imdb_path_token: Option<String>,
}

/// Whether an item stands alone, with no lookup of other versions: its
/// type is not grouped, or it is a movie or series without a TMDb or IMDb id.
pub open spec fn stands_alone(item_type: Seq<char>, entries: Seq<(String, String)>) -> bool {
    !groups_versions(item_type) || (item_type != "Episode"@ && provider_first(entries, tmdb_keys()) is None
        && provider_first(entries, imdb_keys()) is None)
}

/// `%{` + `prefix` + `}%` around an id.
fn token(prefix: &str, id: &Option<String>) -> (r: Option<String>)
    ensures
        opt_string(r) == path_token(prefix@, opt_string(*id)),
{
    match id {
        Some(v) => {
            let mut out = owned(prefix);
            out.append(v.as_str());
            out.append("}%");
            Some(out)
        },
        None => None,
    }
}

/// The keys by which the other versions of an item are looked up, or
/// `None` when it stands alone.
pub fn version_lookup(item_type: &str, providers: &ProviderIds) -> (r: Option<VersionKeys>)
    ensures
        r is None <==> stands_alone(item_type@, providers.entries@),
        r matches Some(k) ==> {
            &&& opt_string(k.tmdb) == provider_first(providers.entries@, tmdb_keys())
            &&& opt_string(k.imdb) == provider_first(providers.entries@, imdb_keys())
            &&& opt_string(k.tmdb_path_token) == path_token("%{tmdbid="@, provider_first(
                providers.entries@,
                tmdb_keys(),
            ))
            &&& opt_string(k.imdb_path_token) == path_token("%{imdbid="@, provider_first(
                providers.entries@,
                imdb_keys(),
            ))
        },
{
    let grouped = str_eq(item_type, "Movie") || str_eq(item_type, "Series") || str_eq(item_type, "Episode");
    if !grouped {
        return None;
    }
    let tmdb = provider_of(providers, "Tmdb", "TMDb", "tmdb");
    let imdb = provider_of(providers, "Imdb", "IMDb", "imdb");
    if !str_eq(item_type, "Episode") && tmdb.is_none() && imdb.is_none() {
        return None;
    }
    let tmdb_path_token = token("%{tmdbid=", &tmdb);
    let imdb_path_token = token("%{imdbid=", &imdb);
    Some(VersionKeys { tmdb, imdb, tmdb_path_token, imdb_path_token })
}


/// A stored item found as a version: its id and when it was added
/// (the creation time as a count of microseconds, by which versions are
/// ordered).
#[derive(Clone, Copy)]
pub struct VersionCandidate {
    pub id: u128,
    pub date_created: i64,
}

/// Whether some item of `s` has the id.
pub open spec fn has_id(s: Seq<VersionCandidate>, id: u128) -> bool {
    exists|k: int| 0 <= k < s.len() && #[trigger] s[k].id == id
}

/// The items found, with the item itself added when it was not among them.
pub open spec fn with_item(found: Seq<VersionCandidate>, item: VersionCandidate) -> Seq<VersionCandidate> {
    if has_id(found, item.id) {
        found
    } else {
        found.push(item)
    }
}

/// `order` lists the positions of `items` oldest first, items added at
/// the same time in their order (a stable sort by creation time).
pub open spec fn date_order(order: Seq<usize>, items: Seq<VersionCandidate>) -> bool {
    &&& order.len() == items.len()
    &&& sorted_upto(order, items, items.len() as int)
}

/// `date_order` over the items before `i`.
pub open spec fn sorted_upto(order: Seq<usize>, items: Seq<VersionCandidate>, i: int) -> bool {
    &&& forall|k: int| 0 <= k < order.len() ==> #[trigger] order[k] < i
    &&& forall|q: int| 0 <= q < i ==> #[trigger] order.contains(q as usize)
    &&& order.no_duplicates()
    &&& forall|a: int, b: int|
        0 <= a < b < order.len() ==> items[#[trigger] order[a] as int].date_created < items[#[trigger] order[
        b] as int].date_created || (items[order[a] as int].date_created == items[order[b] as int].date_created
        && order[a] < order[b])
}

/// The items in the given order.
pub open spec fn in_order(order: Seq<usize>, items: Seq<VersionCandidate>) -> Seq<VersionCandidate> {
    order.map_values(|i: usize| items[i as int])
}

/// `s` with each item dropped whose id is that of the item kept before it.
pub open spec fn dedup_ids(s: Seq<VersionCandidate>) -> Seq<VersionCandidate>
    decreases s.len(),
{
    if s.len() == 0 {
        s
    } else {
        let d = dedup_ids(s.drop_last());
        if d.len() > 0 && d.last().id == s.last().id {
            d
        } else {
            d.push(s.last())
        }
    }
}

proof fn lemma_dedup(s: Seq<VersionCandidate>)
    ensures
        forall|k: int| 0 <= k < dedup_ids(s).len() ==> s.contains(#[trigger] dedup_ids(s)[k]),
        forall|j: int| 0 <= j < s.len() ==> has_id(dedup_ids(s), #[trigger] s[j].id),
        forall|k: int| 0 < k < dedup_ids(s).len() ==> dedup_ids(s)[k - 1].id != #[trigger] dedup_ids(s)[k].id,
        (forall|a: int, b: int| 0 <= a < b < s.len() ==> #[trigger] s[a].date_created <= #[trigger] s[b].date_created)
            ==> (forall|a: int, b: int|
            0 <= a < b < dedup_ids(s).len() ==> #[trigger] dedup_ids(s)[a].date_created
                <= #[trigger] dedup_ids(s)[b].date_created),
    decreases s.len(),
{
    if s.len() > 0 {
        let t = s.drop_last();
        let d = dedup_ids(t);
        let r = dedup_ids(s);
        lemma_dedup(t);
        assert forall|k: int| 0 <= k < r.len() implies s.contains(#[trigger] r[k]) by {
            if k < d.len() {
                assert(r[k] == d[k]);
                let m = choose|m: int| 0 <= m < t.len() && t[m] == d[k];
                assert(s[m] == t[m]);
            } else {
                assert(r[k] == s[s.len() - 1]);
            }
        }
        assert forall|j: int| 0 <= j < s.len() implies has_id(r, #[trigger] s[j].id) by {
            if j < t.len() {
                assert(t[j] == s[j]);
                assert(has_id(d, t[j].id));
                let m = choose|m: int| 0 <= m < d.len() && #[trigger] d[m].id == t[j].id;
                assert(r[m] == d[m]);
            } else if d.len() > 0 && d.last().id == s.last().id {
                assert(r[d.len() - 1] == d.last());
            } else {
                assert(r[d.len() as int] == s.last());
            }
        }
        assert forall|k: int| 0 < k < r.len() implies r[k - 1].id != #[trigger] r[k].id by {
            if k < d.len() {
                assert(r[k] == d[k] && r[k - 1] == d[k - 1]);
            } else {
                assert(r[k - 1] == d.last());
            }
        }
        if forall|a: int, b: int| 0 <= a < b < s.len() ==> #[trigger] s[a].date_created <= #[trigger] s[b].date_created {
            assert forall|a: int, b: int| 0 <= a < b < t.len() implies #[trigger] t[a].date_created
                <= #[trigger] t[b].date_created by {
                assert(t[a] == s[a] && t[b] == s[b]);
            }
            assert forall|a: int, b: int|
                0 <= a < b < r.len() implies #[trigger] r[a].date_created <= #[trigger] r[b].date_created by {
                if b < d.len() {
                    assert(r[a] == d[a] && r[b] == d[b]);
                } else {
                    assert(r[a] == d[a]);
                    assert(t.contains(d[a]));
                    let m = choose|m: int| 0 <= m < t.len() && t[m] == d[a];
                    assert(s[m] == t[m]);
                    assert(s[m].date_created <= s[s.len() - 1].date_created);
                }
            }
        }
    }
}

proof fn lemma_insert_sorted(before: Seq<usize>, items: Seq<VersionCandidate>, i: usize, p: int)
    requires
        i < items.len(),
        sorted_upto(before, items, i as int),
        0 <= p <= before.len(),
        forall|k: int| 0 <= k < p ==> items[#[trigger] before[k] as int].date_created
            <= items[i as int].date_created,
        p < before.len() ==> items[before[p] as int].date_created > items[i as int].date_created,
    ensures
        sorted_upto(before.insert(p, i), items, i + 1),
{
    let d = items[i as int].date_created;
    let out = before.insert(p, i);
    assert forall|k: int| p <= k < before.len() implies items[#[trigger] before[k] as int].date_created > d by {
        if k > p {
            assert(items[before[p] as int].date_created <= items[before[k] as int].date_created);
        }
    }
    assert forall|k: int| 0 <= k < out.len() implies #[trigger] out[k] < i + 1 by {
        if k < p {
            assert(out[k] == before[k]);
        } else if k > p {
            assert(out[k] == before[k - 1]);
        }
    }
    assert forall|q: int| 0 <= q < i + 1 implies #[trigger] out.contains(q as usize) by {
        if q < i {
            assert(before.contains(q as usize));
            let k = choose|k: int| 0 <= k < before.len() && before[k] == q as usize;
            if k < p {
                assert(out[k] == before[k]);
            } else {
                assert(out[k + 1] == before[k]);
            }
        } else {
            assert(out[p] == i);
        }
    }
    assert forall|a: int, b: int| 0 <= a < b < out.len() implies out[a] != out[b] by {
        if a < p && b < p {
            assert(out[a] == before[a] && out[b] == before[b]);
        } else if a < p && b == p {
            assert(out[a] == before[a]);
        } else if a < p && b > p {
            assert(out[a] == before[a] && out[b] == before[b - 1]);
        } else if a == p {
            assert(out[b] == before[b - 1]);
        } else {
            assert(out[a] == before[a - 1] && out[b] == before[b - 1]);
        }
    }
    assert forall|a: int, b: int|
        0 <= a < b < out.len() implies items[#[trigger] out[a] as int].date_created < items[#[trigger] out[
        b] as int].date_created || (items[out[a] as int].date_created == items[out[b] as int].date_created
        && out[a] < out[b]) by {
        if a < p && b < p {
            assert(out[a] == before[a] && out[b] == before[b]);
        } else if a < p && b == p {
            assert(out[a] == before[a]);
        } else if a < p && b > p {
            assert(out[a] == before[a] && out[b] == before[b - 1]);
        } else if a == p {
            assert(out[b] == before[b - 1]);
        } else {
            assert(out[a] == before[a - 1] && out[b] == before[b - 1]);
        }
    }
}

/// Positions of `items` oldest first, as `date_order` states.
fn order_by_date(items: &Vec<VersionCandidate>) -> (r: Vec<usize>)
    ensures
        date_order(r@, items@),
{
    let mut out: Vec<usize> = Vec::new();
    let n = items.len();
    let mut i: usize = 0;
    while i < n
        invariant
            i <= n,
            n == items@.len(),
            out@.len() == i,
            sorted_upto(out@, items@, i as int),
        decreases n - i,
    {
        let d = items[i].date_created;
        let len = out.len();
        let mut p: usize = 0;
        while p < len && items[out[p]].date_created <= d
            invariant
                p <= len,
                len == out@.len(),
                n == items@.len(),
                i < n,
                d == items@[i as int].date_created,
                forall|k: int| 0 <= k < out@.len() ==> #[trigger] out@[k] < i,
                forall|k: int| 0 <= k < p ==> items@[#[trigger] out@[k] as int].date_created <= d,
            decreases len - p,
        {
            p = p + 1;
        }
        proof {
            lemma_insert_sorted(out@, items@, i, p as int);
        }
        out.insert(p, i);
        i = i + 1;
    }
    out
}

/// The version group of an item from the items found as its versions: the
/// item itself is added when it was not found, the group is ordered oldest
/// first (of items added at the same time, in the order found), and an
/// item whose id is that of the one before it is dropped.
pub fn merge_version_group(item: VersionCandidate, found: &Vec<VersionCandidate>) -> (r: Vec<VersionCandidate>)
    ensures
        exists|order: Seq<usize>|
            date_order(order, with_item(found@, item)) && r@ == dedup_ids(
                #[trigger] in_order(order, with_item(found@, item)),
            ),
        has_id(r@, item.id),
        forall|k: int| 0 <= k < r@.len() ==> with_item(found@, item).contains(#[trigger] r@[k]),
        forall|a: int, b: int| 0 <= a < b < r@.len() ==> #[trigger] r@[a].date_created <= #[trigger] r@[b].date_created,
        forall|k: int| 0 < k < r@.len() ==> r@[k - 1].id != #[trigger] r@[k].id,
{
    let mut items: Vec<VersionCandidate> = Vec::new();
    let mut present = false;
    let n = found.len();
    let mut i: usize = 0;
    while i < n
        invariant
            i <= n,
            n == found@.len(),
            items@ == found@.take(i as int),
            present <==> exists|k: int| 0 <= k < i && #[trigger] found@[k].id == item.id,
        decreases n - i,
    {
        let c = found[i];
        if c.id == item.id {
            present = true;
        }
        items.push(c);
        assert(items@ =~= found@.take(i + 1));
        i = i + 1;
    }
    assert(items@ =~= found@);
    if !present {
        items.push(item);
    }
    let ghost all = with_item(found@, item);
    assert(items@ == all);
    let order = order_by_date(&items);
    let ghost seq = in_order(order@, all);
    let mut r: Vec<VersionCandidate> = Vec::new();
    let m = order.len();
    let mut k: usize = 0;
    while k < m
        invariant
            k <= m,
            m == order@.len(),
            items@ == all,
            seq == in_order(order@, all),
            date_order(order@, all),
            r@ == dedup_ids(seq.take(k as int)),
        decreases m - k,
    {
        let c = items[order[k]];
        let ghost before = seq.take(k as int);
        assert(seq.take(k + 1).drop_last() =~= before);
        assert(seq.take(k + 1).last() == c);
        let keep = r.len() == 0 || r[r.len() - 1].id != c.id;
        if keep {
            r.push(c);
        }
        k = k + 1;
    }
    assert(seq.take(m as int) =~= seq);
    proof {
        lemma_dedup(seq);
        assert forall|a: int, b: int| 0 <= a < b < seq.len() implies #[trigger] seq[a].date_created
            <= #[trigger] seq[b].date_created by {
            assert(seq[a] == all[order@[a] as int] && seq[b] == all[order@[b] as int]);
        }
        assert forall|q: int| 0 <= q < r@.len() implies all.contains(#[trigger] r@[q]) by {
            assert(seq.contains(r@[q]));
            let j = choose|j: int| 0 <= j < seq.len() && seq[j] == r@[q];
            assert(seq[j] == all[order@[j] as int]);
        }
        assert(has_id(all, item.id)) by {
            if !has_id(found@, item.id) {
                assert(all[found@.len() as int] == item);
            }
        }
        let w = choose|w: int| 0 <= w < all.len() && #[trigger] all[w].id == item.id;
        assert(order@.contains(w as usize));
        let j = choose|j: int| 0 <= j < order@.len() && order@[j] == w as usize;
        assert(seq[j] == all[w]);
        assert(has_id(r@, seq[j].id));
    }
    r
}

} // verus!
