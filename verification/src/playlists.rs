//! The order of a playlist's entries: where added items go and how an
//! entry is moved.

use vstd::prelude::*;
use crate::text::{str_eq, views};

verus! {

/// The sort indices items added to a playlist get: one past the largest
/// stored index (0 for an empty playlist), then counting up.
pub fn append_sort_indices(current_max: Option<i64>, count: usize) -> (r: Vec<i64>)
    requires
        current_max matches Some(m) ==> m + 1 + count <= i64::MAX,
        count <= i64::MAX,
    ensures
        r@.len() == count,
        forall|k: int|
            0 <= k < count ==> #[trigger] r@[k] == (match current_max {
                Some(m) => m + 1,
                None => 0,
            }) + k,
{
    let start: i64 = match current_max {
        Some(m) => m + 1,
        None => 0,
    };
    let mut out: Vec<i64> = Vec::new();
    let mut k: usize = 0;
    while k < count
        invariant
            k <= count <= i64::MAX,
            start + count <= i64::MAX,
            start == (match current_max {
                Some(m) => m + 1,
                None => 0,
            }),
            out@.len() == k,
            forall|j: int| 0 <= j < k ==> #[trigger] out@[j] == start + j,
        decreases count - k,
    {
        out.push(start + k as i64);
        k = k + 1;
    }
    out
}

/// The positions of the entries other than `entry`, in order.
pub open spec fn others(ids: Seq<Seq<char>>, entry: Seq<char>) -> Seq<int>
    decreases ids.len(),
{
    if ids.len() == 0 {
        Seq::empty()
    } else {
        let prev = others(ids.drop_last(), entry);
        if ids.last() != entry {
            prev.push(ids.len() - 1)
        } else {
            prev
        }
    }
}

/// The first position of `entry`.
pub open spec fn first_at(ids: Seq<Seq<char>>, entry: Seq<char>) -> Option<int>
    decreases ids.len(),
{
    if ids.len() == 0 {
        None
    } else {
        match first_at(ids.drop_last(), entry) {
            Some(p) => Some(p),
            None => if ids.last() == entry {
                Some(ids.len() - 1)
            } else {
                None
            },
        }
    }
}

/// The order after moving an entry, as positions in the current order:
/// the other entries in their order, with the entry put at the requested
/// index kept within 0..=their count; none when no entry has that id.
pub open spec fn moved(ids: Seq<Seq<char>>, entry: Seq<char>, new_index: i32) -> Option<Seq<int>> {
    match first_at(ids, entry) {
        None => None,
        Some(p) => {
            let rest = others(ids, entry);
            let at: int = if new_index < 0 {
                0
            } else if new_index > rest.len() {
                rest.len() as int
            } else {
                new_index as int
            };
            Some(rest.insert(at, p))
        },
    }
}

/// The order after moving an entry (see `moved`).
pub fn move_entry(ids: &Vec<String>, entry_id: &str, new_index: i32) -> (r: Option<Vec<usize>>)
    requires
        ids@.len() < i32::MAX,
    ensures
        match r {
            Some(order) => moved(views(ids@), entry_id@, new_index) == Some(
                order@.map_values(|p: usize| p as int),
            ),
            None => moved(views(ids@), entry_id@, new_index) is None,
        },
{
    let ghost vs = views(ids@);
    let n = ids.len();
    let mut rest: Vec<usize> = Vec::new();
    let mut target: Option<usize> = None;
    let mut i: usize = 0;
    while i < n
        invariant
            i <= n,
            n == ids@.len(),
            vs == views(ids@),
            rest@.map_values(|p: usize| p as int) == others(vs.take(i as int), entry_id@),
            rest@.len() <= i,
            match target {
                Some(t) => first_at(vs.take(i as int), entry_id@) == Some(t as int),
                None => first_at(vs.take(i as int), entry_id@) is None,
            },
        decreases n - i,
    {
        assert(vs.take(i + 1).drop_last() =~= vs.take(i as int));
        assert(vs.take(i + 1).last() == ids@[i as int]@);
        if str_eq(ids[i].as_str(), entry_id) {
            if target.is_none() {
                target = Some(i);
            }
        } else {
            let ghost before = rest@;
            rest.push(i);
            assert(rest@.map_values(|p: usize| p as int) =~= before.map_values(|p: usize| p as int).push(i as int));
        }
        i = i + 1;
    }
    assert(vs.take(n as int) =~= vs);
    match target {
        None => None,
        Some(t) => {
            let len = rest.len();
            let at: usize = if new_index < 0 {
                0
            } else if new_index as usize > len {
                len
            } else {
                new_index as usize
            };
            let ghost before = rest@;
            rest.insert(at, t);
            assert(rest@.map_values(|p: usize| p as int) =~= before.map_values(|p: usize| p as int).insert(
                at as int,
                t as int,
            ));
            Some(rest)
        },
    }
}

/// A moved entry lands at the requested index (kept within range), and
/// the other entries keep their order around it.
pub proof fn law_move_places_entry(ids: Seq<Seq<char>>, entry: Seq<char>, new_index: i32)
    requires
        moved(ids, entry, new_index) is Some,
    ensures
        ({
            let order = moved(ids, entry, new_index)->0;
            let rest = others(ids, entry);
            let at: int = if new_index < 0 {
                0
            } else if new_index > rest.len() {
                rest.len() as int
            } else {
                new_index as int
            };
            &&& order.len() == rest.len() + 1
            &&& order[at] == first_at(ids, entry)->0
            &&& order.remove(at) == rest
        }),
{
    let order = moved(ids, entry, new_index)->0;
    let rest = others(ids, entry);
    let at: int = if new_index < 0 {
        0
    } else if new_index > rest.len() {
        rest.len() as int
    } else {
        new_index as int
    };
    assert(order.remove(at) =~= rest);
}

} // verus!
