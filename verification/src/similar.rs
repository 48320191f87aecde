//! Items similar to a given one: each candidate is scored by what it shares
//! with the target, the best scoring come first, and one item per identity
//! is kept when asked.

use vstd::prelude::*;
use crate::identity::{dedup_key, dedup_key_text, identity_key_of, item_identity_key, same_item_identity, IdentityItem, ProviderIds};
use crate::text::{eq_ignore_ascii_case, eq_ignore_case_seq, str_eq, views};

verus! {

/// What the score of an item compares.
pub struct SimilarityProfile {
    pub official_rating: Option<String>,
    pub genres: Vec<String>,
    pub tags: Vec<String>,
    pub studios: Vec<String>,
    pub production_year: Option<i32>,
}

/// How many of `xs` are in `set`.
pub open spec fn count_in(xs: Seq<Seq<char>>, set: Seq<Seq<char>>) -> int
    decreases xs.len(),
{
    if xs.len() == 0 {
        0
    } else {
        count_in(xs.drop_last(), set) + if set.contains(xs.last()) {
            1int
        } else {
            0int
        }
    }
}

/// The weight of a shared person by their role.
pub open spec fn role_weight(role: Seq<char>) -> int {
    if role == "Director"@ {
        5
    } else if role == "Actor"@ || role == "Composer"@ || role == "GuestStar"@ {
        3
    } else if role == "Writer"@ {
        2
    } else {
        1
    }
}

/// The (name, role) texts of people.
pub open spec fn people_texts(ps: Seq<(String, String)>) -> Seq<(Seq<char>, Seq<char>)> {
    ps.map_values(|p: (String, String)| (p.0@, p.1@))
}

/// The weights of a candidate's people whose name the target's people have.
pub open spec fn people_points(ps: Seq<(Seq<char>, Seq<char>)>, names: Seq<Seq<char>>) -> int
    decreases ps.len(),
{
    if ps.len() == 0 {
        0
    } else {
        people_points(ps.drop_last(), names) + if names.contains(ps.last().0) {
            role_weight(ps.last().1)
        } else {
            0
        }
    }
}

/// 10 when the target has a rating that is not empty and the candidate's
/// equals it up to ASCII case.
pub open spec fn rating_points(target: Option<String>, candidate: Option<String>) -> int {
    match (target, candidate) {
        (Some(t), Some(c)) => if t@.len() > 0 && eq_ignore_case_seq(c@, t@) {
            10
        } else {
            0
        },
        _ => 0,
    }
}

/// 2 when both years are known and less than 10 apart, 2 more when less
/// than 5 apart.
pub open spec fn year_points(target: Option<i32>, candidate: Option<i32>) -> int {
    match (target, candidate) {
        (Some(t), Some(c)) => {
            let d = if t >= c {
                t - c
            } else {
                c - t
            };
            (if d < 10 {
                2int
            } else {
                0int
            }) + (if d < 5 {
                2int
            } else {
                0int
            })
        },
        _ => 0,
    }
}

/// The score of a candidate against a target: the rating, 10 per shared
/// genre and tag, 3 per shared studio, the role weight of each shared
/// person, and the year's closeness.
pub open spec fn similarity(
    target: SimilarityProfile,
    target_people: Seq<Seq<char>>,
    candidate: SimilarityProfile,
    candidate_people: Seq<(Seq<char>, Seq<char>)>,
) -> int {
    rating_points(target.official_rating, candidate.official_rating)
        + 10 * count_in(views(candidate.genres@), views(target.genres@))
        + 10 * count_in(views(candidate.tags@), views(target.tags@))
        + 3 * count_in(views(candidate.studios@), views(target.studios@))
        + people_points(candidate_people, target_people)
        + year_points(target.production_year, candidate.production_year)
}

/// Whether a score can be computed without overflow: the candidate's lists
/// are not absurdly long and its year differs from the target's by an
/// `i32`.
pub open spec fn score_fits(target: SimilarityProfile, candidate: SimilarityProfile, candidate_people: nat) -> bool {
    &&& candidate.genres@.len() + candidate.tags@.len() + candidate.studios@.len() + candidate_people <= 100_000_000
    &&& (target.production_year matches Some(t) && candidate.production_year matches Some(c) ==> i32::MIN <= t - c
        <= i32::MAX)
}

fn contains_text(list: &Vec<String>, s: &str) -> (r: bool)
    ensures
        r == views(list@).contains(s@),
{
    let n = list.len();
    let mut i: usize = 0;
    while i < n
        invariant
            i <= n,
            n == list@.len(),
            forall|j: int| 0 <= j < i ==> views(list@)[j] != s@,
        decreases n - i,
    {
        assert(views(list@)[i as int] == list@[i as int]@);
        if str_eq(list[i].as_str(), s) {
            return true;
        }
        i = i + 1;
    }
    false
}

/// How many of `xs` are in `set`.
fn count_shared(xs: &Vec<String>, set: &Vec<String>) -> (r: u32)
    requires
        xs@.len() <= 100_000_000,
    ensures
        r == count_in(views(xs@), views(set@)),
        r <= xs@.len(),
{
    let n = xs.len();
    let mut count: u32 = 0;
    let mut i: usize = 0;
    while i < n
        invariant
            i <= n <= 100_000_000,
            n == xs@.len(),
            count == count_in(views(xs@).take(i as int), views(set@)),
            count <= i,
        decreases n - i,
    {
        proof {
            assert(views(xs@).take(i + 1).drop_last() =~= views(xs@).take(i as int));
            assert(views(xs@).take(i + 1).last() == xs@[i as int]@);
        }
        if contains_text(set, xs[i].as_str()) {
            count = count + 1;
        }
        i = i + 1;
    }
    assert(views(xs@).take(n as int) =~= views(xs@));
    count
}

fn role_weight_exec(role: &str) -> (r: u32)
    ensures
        r == role_weight(role@),
{
    if str_eq(role, "Director") {
        5
    } else if str_eq(role, "Actor") || str_eq(role, "Composer") || str_eq(role, "GuestStar") {
        3
    } else if str_eq(role, "Writer") {
        2
    } else {
        1
    }
}

fn shared_people_points(people: &Vec<(String, String)>, names: &Vec<String>) -> (r: u32)
    requires
        people@.len() <= 100_000_000,
    ensures
        r == people_points(people_texts(people@), views(names@)),
        r <= 5 * people@.len(),
{
    let ghost ps = people_texts(people@);
    let n = people.len();
    let mut total: u32 = 0;
    let mut i: usize = 0;
    while i < n
        invariant
            i <= n <= 100_000_000,
            n == people@.len(),
            ps == people_texts(people@),
            total == people_points(ps.take(i as int), views(names@)),
            total <= 5 * i,
        decreases n - i,
    {
        proof {
            assert(ps.take(i + 1).drop_last() =~= ps.take(i as int));
            assert(ps.take(i + 1).last() == (people@[i as int].0@, people@[i as int].1@));
        }
        if contains_text(names, people[i].0.as_str()) {
            total = total + role_weight_exec(people[i].1.as_str());
        }
        i = i + 1;
    }
    assert(ps.take(n as int) =~= ps);
    total
}

/// The score of a candidate against the target (see `similarity`).
pub fn similarity_score(
    target: &SimilarityProfile,
    target_people: &Vec<String>,
    candidate: &SimilarityProfile,
    candidate_people: &Vec<(String, String)>,
) -> (r: i32)
    requires
        score_fits(*target, *candidate, candidate_people@.len()),
    ensures
        r == similarity(*target, views(target_people@), *candidate, people_texts(candidate_people@)),
{
    let rating: u32 = match (&target.official_rating, &candidate.official_rating) {
        (Some(t), Some(c)) => if t.unicode_len() > 0 && eq_ignore_ascii_case(c.as_str(), t.as_str()) {
            10
        } else {
            0
        },
        _ => 0,
    };
    let genres = count_shared(&candidate.genres, &target.genres);
    let tags = count_shared(&candidate.tags, &target.tags);
    let studios = count_shared(&candidate.studios, &target.studios);
    let people = shared_people_points(candidate_people, target_people);
    let year: u32 = match (target.production_year, candidate.production_year) {
        (Some(t), Some(c)) => {
            let d: i64 = if t >= c {
                t as i64 - c as i64
            } else {
                c as i64 - t as i64
            };
            (if d < 10 {
                2
            } else {
                0
            }) + (if d < 5 {
                2
            } else {
                0
            })
        },
        _ => 0,
    };
    let total: u64 = rating as u64 + 10 * genres as u64 + 10 * tags as u64 + 3 * studios as u64 + people as u64
        + year as u64;
    assert(total <= 1_000_000_014);
    total as i32
}

/// Whether `order` ranks the candidates that score above 2: each once, the
/// higher score first, and of equal scores the earlier candidate first.
pub open spec fn ranks(order: Seq<usize>, scores: Seq<i32>) -> bool {
    &&& forall|k: int| 0 <= k < order.len() ==> #[trigger] order[k] < scores.len() && scores[order[k] as int] > 2
    &&& forall|i: int| 0 <= i < scores.len() && #[trigger] scores[i] > 2 ==> order.contains(i as usize)
    &&& order.no_duplicates()
    &&& forall|a: int, b: int|
        0 <= a < b < order.len() ==> scores[#[trigger] order[a] as int] > scores[#[trigger] order[b] as int] || (
        scores[order[a] as int] == scores[order[b] as int] && order[a] < order[b])
}

/// `ranks` over the candidates before `i`.
pub open spec fn ranked_upto(order: Seq<usize>, scores: Seq<i32>, i: int) -> bool {
    &&& forall|k: int| 0 <= k < order.len() ==> #[trigger] order[k] < i && scores[order[k] as int] > 2
    &&& forall|q: int| 0 <= q < i && #[trigger] scores[q] > 2 ==> order.contains(q as usize)
    &&& order.no_duplicates()
    &&& forall|a: int, b: int|
        0 <= a < b < order.len() ==> scores[#[trigger] order[a] as int] > scores[#[trigger] order[b] as int] || (
        scores[order[a] as int] == scores[order[b] as int] && order[a] < order[b])
}

proof fn lemma_insert_ranked(before: Seq<usize>, scores: Seq<i32>, i: usize, p: int)
    requires
        i < scores.len(),
        scores[i as int] > 2,
        ranked_upto(before, scores, i as int),
        0 <= p <= before.len(),
        forall|k: int| 0 <= k < p ==> scores[#[trigger] before[k] as int] >= scores[i as int],
        p < before.len() ==> scores[before[p] as int] < scores[i as int],
    ensures
        ranked_upto(before.insert(p, i), scores, i + 1),
{
    let s = scores[i as int];
    let out = before.insert(p, i);
    assert forall|k: int| p <= k < before.len() implies scores[#[trigger] before[k] as int] < s by {
        if k > p {
            assert(scores[before[p] as int] >= scores[before[k] as int]);
        }
    }
    assert forall|k: int| 0 <= k < out.len() implies #[trigger] out[k] < i + 1 && scores[out[k] as int] > 2 by {
        if k < p {
            assert(out[k] == before[k]);
        } else if k > p {
            assert(out[k] == before[k - 1]);
        }
    }
    assert forall|q: int| 0 <= q < i + 1 && #[trigger] scores[q] > 2 implies out.contains(q as usize) by {
        if q < i {
            let k = choose|k: int| 0 <= k < before.len() && before[k] == q as usize;
            if k < p {
                assert(out[k] == before[k]);
            } else {
                assert(out[k + 1] == before[k]);
            }
        } else {
            assert(out[p] == i);
        }
    }
    assert forall|a: int, b: int| 0 <= a < b < out.len() implies out[a] != out[b] by {
        if a < p && b < p {
            assert(out[a] == before[a] && out[b] == before[b]);
        } else if a < p && b == p {
            assert(out[a] == before[a]);
        } else if a < p && b > p {
            assert(out[a] == before[a] && out[b] == before[b - 1]);
        } else if a == p {
            assert(out[b] == before[b - 1]);
        } else {
            assert(out[a] == before[a - 1] && out[b] == before[b - 1]);
        }
    }
    assert forall|a: int, b: int|
        0 <= a < b < out.len() implies scores[#[trigger] out[a] as int] > scores[#[trigger] out[b] as int] || (
        scores[out[a] as int] == scores[out[b] as int] && out[a] < out[b]) by {
        if a < p && b < p {
            assert(out[a] == before[a] && out[b] == before[b]);
        } else if a < p && b == p {
            assert(out[a] == before[a]);
        } else if a < p && b > p {
            assert(out[a] == before[a] && out[b] == before[b - 1]);
        } else if a == p {
            assert(out[b] == before[b - 1]);
        } else {
            assert(out[a] == before[a - 1] && out[b] == before[b - 1]);
        }
    }
}

/// The candidates scoring above 2, best first, ties in candidate order
/// (a stable sort by descending score), as `ranks` states.
pub fn rank_by_score(scores: &Vec<i32>) -> (r: Vec<usize>)
    ensures
        ranks(r@, scores@),
{
    let mut out: Vec<usize> = Vec::new();
    let n = scores.len();
    let mut i: usize = 0;
    while i < n
        invariant
            i <= n,
            n == scores@.len(),
            ranked_upto(out@, scores@, i as int),
        decreases n - i,
    {
        let s = scores[i];
        if s > 2 {
            let len = out.len();
            let mut p: usize = 0;
            while p < len && scores[out[p]] >= s
                invariant
                    p <= len,
                    len == out@.len(),
                    n == scores@.len(),
                    i < n,
                    s == scores@[i as int],
                    forall|k: int| 0 <= k < out@.len() ==> #[trigger] out@[k] < i,
                    forall|k: int| 0 <= k < p ==> scores@[#[trigger] out@[k] as int] >= s,
                decreases len - p,
            {
                p = p + 1;
            }
            proof {
                lemma_insert_ranked(out@, scores@, i, p as int);
            }
            out.insert(p, i);
        }
        i = i + 1;
    }
    out
}

/// Which of the ranked items are kept, by position in the ranking: in
/// order, skipping (when grouping) an item whose key a kept one has, and
/// stopping once `limit` items are kept (at least one is always kept, as
/// the count is checked after each addition).
pub open spec fn picked(keys: Seq<Seq<char>>, group: bool, limit: nat) -> Seq<int>
    decreases keys.len(),
{
    if keys.len() == 0 {
        Seq::empty()
    } else {
        let prev = picked(keys.drop_last(), group, limit);
        let i = keys.len() - 1;
        if prev.len() > 0 && prev.len() >= limit {
            prev
        } else if group && exists|j: int| 0 <= j < prev.len() && keys[prev[j]] == keys[i] {
            prev
        } else {
            prev.push(i)
        }
    }
}

proof fn lemma_picked_bounded(keys: Seq<Seq<char>>, group: bool, limit: nat)
    ensures
        forall|j: int| 0 <= j < picked(keys, group, limit).len() ==> 0 <= #[trigger] picked(keys, group, limit)[j] < keys.len(),
    decreases keys.len(),
{
    if keys.len() > 0 {
        lemma_picked_bounded(keys.drop_last(), group, limit);
        let prev = picked(keys.drop_last(), group, limit);
        let out = picked(keys, group, limit);
        assert forall|j: int| 0 <= j < out.len() implies 0 <= #[trigger] out[j] < keys.len() by {
            if j < prev.len() {
                assert(out[j] == prev[j]);
            }
        }
    }
}

proof fn lemma_picked_prefix(keys: Seq<Seq<char>>, group: bool, limit: nat, i: int)
    requires
        0 <= i < keys.len(),
    ensures
        picked(keys.take(i + 1), group, limit) == ({
            let prev = picked(keys.take(i), group, limit);
            if prev.len() > 0 && prev.len() >= limit {
                prev
            } else if group && exists|j: int| 0 <= j < prev.len() && keys[prev[j]] == keys[i] {
                prev
            } else {
                prev.push(i)
            }
        }),
{
    let t = keys.take(i + 1);
    assert(t.drop_last() =~= keys.take(i));
    lemma_picked_bounded(keys.take(i), group, limit);
    let prev = picked(keys.take(i), group, limit);
    if exists|j: int| 0 <= j < prev.len() && t[prev[j]] == t[i] {
        let j = choose|j: int| 0 <= j < prev.len() && t[prev[j]] == t[i];
        assert(keys[prev[j]] == keys[i]);
    }
    if exists|j: int| 0 <= j < prev.len() && keys[prev[j]] == keys[i] {
        let j = choose|j: int| 0 <= j < prev.len() && keys[prev[j]] == keys[i];
        assert(t[prev[j]] == t[i]);
    }
}

/// The positions kept of ranked items with the given keys (see `picked`).
pub fn pick_similar(keys: &Vec<String>, group: bool, limit: usize) -> (r: Vec<usize>)
    ensures
        r@.map_values(|p: usize| p as int) == picked(views(keys@), group, limit as nat),
{
    let ghost ks = views(keys@);
    let mut out: Vec<usize> = Vec::new();
    let n = keys.len();
    let mut i: usize = 0;
    while i < n
        invariant
            i <= n,
            n == keys@.len(),
            ks == views(keys@),
            out@.map_values(|p: usize| p as int) == picked(ks.take(i as int), group, limit as nat),
            forall|j: int| 0 <= j < out@.len() ==> #[trigger] out@[j] < i,
            out@.len() > 0 && out@.len() >= limit ==> forall|q: int|
                i <= q <= n ==> picked(#[trigger] ks.take(q), group, limit as nat) == picked(
                    ks.take(i as int),
                    group,
                    limit as nat,
                ),
        ensures
            i <= n,
            out@.map_values(|p: usize| p as int) == picked(ks.take(i as int), group, limit as nat),
            i < n ==> picked(ks.take(n as int), group, limit as nat) == picked(ks.take(i as int), group, limit as nat),
        decreases n - i,
    {
        if out.len() > 0 && out.len() >= limit {
            assert(picked(ks.take(n as int), group, limit as nat) == picked(ks.take(i as int), group, limit as nat));
            break;
        }
        proof {
            lemma_picked_prefix(ks, group, limit as nat, i as int);
        }
        let ghost prev = picked(ks.take(i as int), group, limit as nat);
        let ghost before = out@;
        assert(forall|j: int| 0 <= j < before.len() ==> prev[j] == before[j] as int);
        let mut seen = false;
        if group {
            let m = out.len();
            let mut j: usize = 0;
            while j < m
                invariant
                    j <= m,
                    m == out@.len(),
                    out@ == before,
                    n == keys@.len(),
                    i < n,
                    ks == views(keys@),
                    forall|k: int| 0 <= k < m ==> #[trigger] out@[k] < i,
                    seen ==> exists|k: int| 0 <= k < m && ks[out@[k] as int] == ks[i as int],
                    !seen ==> forall|k: int| 0 <= k < j ==> ks[#[trigger] out@[k] as int] != ks[i as int],
                decreases m - j,
            {
                assert(ks[out@[j as int] as int] == keys@[out@[j as int] as int]@);
                assert(ks[i as int] == keys@[i as int]@);
                if str_eq(keys[out[j]].as_str(), keys[i].as_str()) {
                    seen = true;
                }
                j = j + 1;
            }
        }
        proof {
            if seen {
                let k = choose|k: int| 0 <= k < before.len() && ks[before[k] as int] == ks[i as int];
                assert(ks[prev[k]] == ks[i as int]);
            } else if group {
                assert forall|k: int| 0 <= k < prev.len() implies ks[prev[k]] != ks[i as int] by {
                    assert(prev[k] == before[k] as int);
                }
            }
        }
        if !seen {
            out.push(i);
            assert(out@.map_values(|p: usize| p as int) =~= before.map_values(|p: usize| p as int).push(i as int));
        }
        proof {
            if out@.len() > 0 && out@.len() >= limit {
                assert forall|q: int| i + 1 <= q <= n implies picked(#[trigger] ks.take(q), group, limit as nat) == picked(
                    ks.take(i + 1),
                    group,
                    limit as nat,
                ) by {
                    lemma_picked_stops(ks, group, limit as nat, i + 1, q);
                }
            }
        }
        i = i + 1;
    }
    assert(ks.take(n as int) =~= ks);
    out
}

proof fn lemma_picked_stops(keys: Seq<Seq<char>>, group: bool, limit: nat, i: int, q: int)
    requires
        0 <= i <= q <= keys.len(),
        picked(keys.take(i), group, limit).len() > 0,
        picked(keys.take(i), group, limit).len() >= limit,
    ensures
        picked(keys.take(q), group, limit) == picked(keys.take(i), group, limit),
    decreases q - i,
{
    if q > i {
        lemma_picked_stops(keys, group, limit, i, q - 1);
        lemma_picked_prefix(keys, group, limit, q - 1);
    }
}

/// A candidate for the items similar to a target.
pub struct SimilarCandidate {
    pub id: u128,
    /// The library the candidate belongs to, if any.
    pub library_id: Option<u128>,
    pub item: IdentityItem,
    pub providers: ProviderIds,
    pub profile: SimilarityProfile,
    /// The candidate's people: (name, role).
    pub people: Vec<(String, String)>,
}

/// Whether a candidate may be shown as similar: it is not the target, has
/// the target's item type, and lies in a library the user may see (any
/// library when the user is not limited).
pub open spec fn eligible(c: SimilarCandidate, target_id: u128, target_type: Seq<char>, allowed: Option<Seq<u128>>) -> bool {
    &&& c.id != target_id
    &&& c.item.item_type@ == target_type
    &&& match allowed {
        None => true,
        Some(a) => c.library_id matches Some(l) && a.contains(l),
    }
}

/// The score of each candidate; 0 (never kept) for one that is not
/// eligible or has the target's identity.
pub open spec fn candidate_scores(
    target_id: u128,
    target_type: Seq<char>,
    allowed: Option<Seq<u128>>,
    target_identity: Option<Seq<char>>,
    target: SimilarityProfile,
    target_people: Seq<Seq<char>>,
    candidates: Seq<SimilarCandidate>,
) -> Seq<i32> {
    candidates.map_values(
        |c: SimilarCandidate|
            if !eligible(c, target_id, target_type, allowed) || (target_identity is Some && identity_key_of(
                c.item,
                c.providers.entries@,
            ) == target_identity) {
                0i32
            } else {
                similarity(target, target_people, c.profile, people_texts(c.people@)) as i32
            },
    )
}

/// The duplicate keys of the ranked candidates.
pub open spec fn ranked_keys(order: Seq<usize>, candidates: Seq<SimilarCandidate>) -> Seq<Seq<char>> {
    order.map_values(|k: usize| dedup_key(candidates[k as int].item, candidates[k as int].providers.entries@))
}

/// The candidates kept: the ranking of their scores, then `picked` over the
/// duplicate keys of the ranked ones.
pub open spec fn similar_result(order: Seq<usize>, candidates: Seq<SimilarCandidate>, group: bool, limit: nat) -> Seq<
    usize,
> {
    picked(ranked_keys(order, candidates), group, limit).map_values(|p: int| order[p])
}

/// The libraries a user is limited to, as a sequence.
pub open spec fn allowed_view(allowed: Option<Vec<u128>>) -> Option<Seq<u128>> {
    match allowed {
        Some(a) => Some(a@),
        None => None,
    }
}

fn contains_u128(ids: &Vec<u128>, id: u128) -> (r: bool)
    ensures
        r == ids@.contains(id),
{
    let n = ids.len();
    let mut i: usize = 0;
    while i < n
        invariant
            i <= n,
            n == ids@.len(),
            forall|j: int| 0 <= j < i ==> ids@[j] != id,
        decreases n - i,
    {
        if ids[i] == id {
            assert(ids@[i as int] == id);
            return true;
        }
        i = i + 1;
    }
    false
}

/// The candidates similar to a target, by position (see `similar_result`;
/// the ranking is the one `ranks` fixes for `candidate_scores`): only
/// eligible candidates without the target's identity can be kept.
pub fn find_similar(
    target_id: u128,
    allowed: &Option<Vec<u128>>,
    target_item: &IdentityItem,
    target_providers: &ProviderIds,
    target: &SimilarityProfile,
    target_people: &Vec<String>,
    candidates: &Vec<SimilarCandidate>,
    group: bool,
    limit: usize,
) -> (r: Vec<usize>)
    requires
        forall|i: int|
            0 <= i < candidates@.len() ==> score_fits(
                *target,
                #[trigger] candidates@[i].profile,
                candidates@[i].people@.len(),
            ),
    ensures
        exists|order: Seq<usize>|
            ranks(
                order,
                candidate_scores(
                    target_id,
                    target_item.item_type@,
                    allowed_view(*allowed),
                    identity_key_of(*target_item, target_providers.entries@),
                    *target,
                    views(target_people@),
                    candidates@,
                ),
            ) && r@ == similar_result(order, candidates@, group, limit as nat),
{
    let ghost tid = identity_key_of(*target_item, target_providers.entries@);
    let ghost av = allowed_view(*allowed);
    let ghost expected = candidate_scores(target_id, target_item.item_type@, av, tid, *target, views(target_people@), candidates@);
    let identity = item_identity_key(target_item, target_providers);
    let mut scores: Vec<i32> = Vec::new();
    let n = candidates.len();
    let mut i: usize = 0;
    while i < n
        invariant
            i <= n,
            n == candidates@.len(),
            expected == candidate_scores(target_id, target_item.item_type@, av, tid, *target, views(target_people@), candidates@),
            av == allowed_view(*allowed),
            tid == identity_key_of(*target_item, target_providers.entries@),
            match identity {
                Some(k) => tid == Some(k@),
                None => tid is None,
            },
            forall|j: int|
                0 <= j < candidates@.len() ==> score_fits(
                    *target,
                    #[trigger] candidates@[j].profile,
                    candidates@[j].people@.len(),
                ),
            scores@ == expected.take(i as int),
        decreases n - i,
    {
        let c = &candidates[i];
        let in_library = match allowed {
            None => true,
            Some(a) => match c.library_id {
                Some(l) => contains_u128(a, l),
                None => false,
            },
        };
        let fits = c.id != target_id && str_eq(c.item.item_type.as_str(), target_item.item_type.as_str()) && in_library;
        let same = match &identity {
            Some(k) => same_item_identity(Some(k.as_str()), &c.item, &c.providers),
            None => false,
        };
        let score = if !fits || same {
            0
        } else {
            similarity_score(target, target_people, &c.profile, &c.people)
        };
        scores.push(score);
        assert(scores@ =~= expected.take(i + 1));
        i = i + 1;
    }
    assert(scores@ =~= expected);
    let order = rank_by_score(&scores);
    let mut keys: Vec<String> = Vec::new();
    let m = order.len();
    let mut j: usize = 0;
    while j < m
        invariant
            j <= m,
            m == order@.len(),
            ranks(order@, scores@),
            scores@.len() == candidates@.len(),
            views(keys@) == ranked_keys(order@, candidates@).take(j as int),
        decreases m - j,
    {
        let c = &candidates[order[j]];
        let key = dedup_key_text(&c.item, &c.providers);
        let ghost before = keys@;
        keys.push(key);
        assert(views(keys@) =~= views(before).push(key@));
        assert(views(keys@) =~= ranked_keys(order@, candidates@).take(j + 1));
        j = j + 1;
    }
    assert(views(keys@) =~= ranked_keys(order@, candidates@));
    let positions = pick_similar(&keys, group, limit);
    proof {
        lemma_picked_bounded(ranked_keys(order@, candidates@), group, limit as nat);
    }
    let mut out: Vec<usize> = Vec::new();
    let k = positions.len();
    let mut q: usize = 0;
    let ghost chosen = picked(ranked_keys(order@, candidates@), group, limit as nat);
    while q < k
        invariant
            q <= k,
            k == positions@.len(),
            m == order@.len(),
            positions@.map_values(|p: usize| p as int) == chosen,
            chosen == picked(ranked_keys(order@, candidates@), group, limit as nat),
            ranked_keys(order@, candidates@).len() == m,
            forall|t: int| 0 <= t < chosen.len() ==> 0 <= #[trigger] chosen[t] < m,
            out@ == chosen.take(q as int).map_values(|p: int| order@[p]),
        decreases k - q,
    {
        assert(chosen[q as int] == positions@[q as int] as int);
        let pos = positions[q];
        out.push(order[pos]);
        assert(out@ =~= chosen.take(q + 1).map_values(|p: int| order@[p]));
        q = q + 1;
    }
    assert(chosen.take(k as int) =~= chosen);
    assert(out@ == similar_result(order@, candidates@, group, limit as nat));
    out
}

/// When grouping, no two items kept share a key; and no more than `limit`
/// items are kept (one when `limit` is 0 and there is any).
pub proof fn law_picked_keys_distinct(keys: Seq<Seq<char>>, group: bool, limit: nat)
    ensures
        group ==> forall|a: int, b: int|
            0 <= a < b < picked(keys, group, limit).len() ==> keys[#[trigger] picked(keys, group, limit)[a]]
                != keys[#[trigger] picked(keys, group, limit)[b]],
        picked(keys, group, limit).len() <= (if limit == 0 { 1 } else { limit }),
        picked(keys, group, limit).len() <= keys.len(),
    decreases keys.len(),
{
    if keys.len() > 0 {
        let init = keys.drop_last();
        law_picked_keys_distinct(init, group, limit);
        lemma_picked_bounded(init, group, limit);
        let prev = picked(init, group, limit);
        let out = picked(keys, group, limit);
        let i = keys.len() - 1;
        assert forall|j: int| 0 <= j < prev.len() implies init[prev[j]] == keys[prev[j]] by {}
        if group {
            assert forall|a: int, b: int|
                0 <= a < b < out.len() implies keys[#[trigger] out[a]] != keys[#[trigger] out[b]] by {
                assert(out[a] == prev[a]);
                if b < prev.len() {
                    assert(out[b] == prev[b]);
                    assert(init[prev[a]] != init[prev[b]]);
                } else {
                    assert(out[b] == i);
                }
            }
        }
    }
}

/// A ranking is unique: two orders that both rank the same scores are the
/// same order.
pub proof fn law_ranking_unique(o1: Seq<usize>, o2: Seq<usize>, scores: Seq<i32>)
    requires
        scores.len() <= usize::MAX,
        ranks(o1, scores),
        ranks(o2, scores),
    ensures
        o1 == o2,
    decreases o1.len(),
{
    if o1.len() == 0 {
        if o2.len() > 0 {
            assert(scores[o2[0] as int] > 2);
            assert(o1.contains(o2[0]));
        }
    } else if o2.len() == 0 {
        assert(scores[o1[0] as int] > 2);
        assert(o2.contains(o1[0]));
    } else {
        let x = o1[0];
        let y = o2[0];
        assert(scores[x as int] > 2 && scores[y as int] > 2);
        assert(o2.contains(x));
        assert(o1.contains(y));
        let ix = choose|k: int| 0 <= k < o2.len() && o2[k] == x;
        let iy = choose|k: int| 0 <= k < o1.len() && o1[k] == y;
        if x != y {
            assert(ix > 0);
            assert(iy > 0);
            assert(scores[o2[0] as int] > scores[o2[ix] as int] || (scores[o2[0] as int] == scores[o2[ix] as int]
                && o2[0] < o2[ix]));
            assert(scores[o1[0] as int] > scores[o1[iy] as int] || (scores[o1[0] as int] == scores[o1[iy] as int]
                && o1[0] < o1[iy]));
        }
        assert(x == y);
        let t1 = o1.drop_first();
        let t2 = o2.drop_first();
        let rest = Seq::new(scores.len(), |i: int| if i == x as int { 0i32 } else { scores[i] });
        assert forall|k: int| 0 <= k < t1.len() implies #[trigger] t1[k] < rest.len() && rest[t1[k] as int] > 2 by {
            assert(t1[k] == o1[k + 1]);
            assert(o1[k + 1] != o1[0]);
        }
        assert forall|k: int| 0 <= k < t2.len() implies #[trigger] t2[k] < rest.len() && rest[t2[k] as int] > 2 by {
            assert(t2[k] == o2[k + 1]);
            assert(o2[k + 1] != o2[0]);
        }
        assert forall|i: int| 0 <= i < rest.len() && #[trigger] rest[i] > 2 implies t1.contains(i as usize) by {
            assert(rest[i] == if i == x as int { 0i32 } else { scores[i] });
            assert(i != x as int);
            assert(scores[i] > 2);
            assert(o1.contains(i as usize));
            let k = choose|k: int| 0 <= k < o1.len() && o1[k] == i as usize;
            assert(k != 0);
            assert(t1[k - 1] == o1[k]);
        }
        assert forall|i: int| 0 <= i < rest.len() && #[trigger] rest[i] > 2 implies t2.contains(i as usize) by {
            assert(rest[i] == if i == x as int { 0i32 } else { scores[i] });
            assert(i != x as int);
            assert(scores[i] > 2);
            assert(o2.contains(i as usize));
            let k = choose|k: int| 0 <= k < o2.len() && o2[k] == i as usize;
            assert(k != 0);
            assert(t2[k - 1] == o2[k]);
        }
        assert forall|a: int, b: int| 0 <= a < b < t1.len() implies t1[a] != t1[b] by {
            assert(t1[a] == o1[a + 1] && t1[b] == o1[b + 1]);
        }
        assert forall|a: int, b: int| 0 <= a < b < t2.len() implies t2[a] != t2[b] by {
            assert(t2[a] == o2[a + 1] && t2[b] == o2[b + 1]);
        }
        assert forall|a: int, b: int|
            0 <= a < b < t1.len() implies rest[#[trigger] t1[a] as int] > rest[#[trigger] t1[b] as int] || (
            rest[t1[a] as int] == rest[t1[b] as int] && t1[a] < t1[b]) by {
            assert(t1[a] == o1[a + 1] && t1[b] == o1[b + 1]);
            assert(o1[a + 1] != o1[0] && o1[b + 1] != o1[0]);
        }
        assert forall|a: int, b: int|
            0 <= a < b < t2.len() implies rest[#[trigger] t2[a] as int] > rest[#[trigger] t2[b] as int] || (
            rest[t2[a] as int] == rest[t2[b] as int] && t2[a] < t2[b]) by {
            assert(t2[a] == o2[a + 1] && t2[b] == o2[b + 1]);
            assert(o2[a + 1] != o2[0] && o2[b + 1] != o2[0]);
        }
        law_ranking_unique(t1, t2, rest);
        assert(o1 =~= seq![x] + t1);
        assert(o2 =~= seq![y] + t2);
    }
}

} // verus!
