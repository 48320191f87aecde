//! The people of an item as an edit request replaces them: which entries
//! are kept, the role type and role each gets, their order, and the id of
//! each role row.

use vstd::prelude::*;
use vstd::utf8::encode_utf8;
use crate::ids::{hyphenated_form, hyphenated_id, uuid_v5, uuid_v5_of};
use crate::text::{ascii_lower_seq, owned, str_eq, to_ascii_lowercase, to_lowercase, trim, trim_seq, unicode_lower};

verus! {

/// A person entry of an item edit request, in the parts that decide its
/// role (its provider ids are stored as sent).
pub struct PersonEdit {
    pub name: Option<String>,
    pub person_type: Option<String>,
    pub role: Option<String>,
}

/// A text trimmed, if it is present and not blank.
pub open spec fn given_text(v: Option<String>) -> Option<Seq<char>> {
    match v {
        Some(s) => if trim_seq(s@).len() == 0 {
            None
        } else {
            Some(trim_seq(s@))
        },
        None => None,
    }
}

/// The role type stored for a requested person type: the known types in
/// their canonical spelling (ASCII case ignored), another type as sent
/// (trimmed), `Actor` when none is sent.
pub open spec fn role_type_of(person_type: Option<Seq<char>>) -> Seq<char> {
    match person_type {
        None => "Actor"@,
        Some(t) => {
            let l = ascii_lower_seq(t);
            if l == "actor"@ {
                "Actor"@
            } else if l == "director"@ {
                "Director"@
            } else if l == "writer"@ {
                "Writer"@
            } else if l == "producer"@ {
                "Producer"@
            } else if l == "gueststar"@ {
                "GuestStar"@
            } else if l == "composer"@ {
                "Composer"@
            } else {
                t
            }
        },
    }
}

/// A person as the edit stores them.
pub struct EditedPerson {
    pub name: String,
    pub sort_name: String,
    pub role_type: String,
    pub role: Option<String>,
    pub sort_order: i32,
}

pub open spec fn opt_text(v: Option<String>) -> Option<Seq<char>> {
    match v {
        Some(s) => Some(s@),
        None => None,
    }
}

/// The entries kept: those with a name that is not blank, in order.
pub open spec fn kept_edits(entries: Seq<PersonEdit>) -> Seq<PersonEdit>
    decreases entries.len(),
{
    if entries.len() == 0 {
        Seq::empty()
    } else {
        let prev = kept_edits(entries.drop_last());
        if given_text(entries.last().name) is Some {
            prev.push(entries.last())
        } else {
            prev
        }
    }
}

/// Whether `p` is what is stored of the kept entry `e` at position `k`:
/// the name trimmed, its lower-case form as sort name, the role type and
/// the role (trimmed, when not blank), and the position as sort order.
pub open spec fn stores_person(p: EditedPerson, e: PersonEdit, k: int) -> bool {
    &&& p.name@ == given_text(e.name)->0
    &&& p.sort_name@ == unicode_lower(given_text(e.name)->0)
    &&& p.role_type@ == role_type_of(given_text(e.person_type))
    &&& opt_text(p.role) == given_text(e.role)
    &&& p.sort_order == k
}

fn given(v: &Option<String>) -> (r: Option<String>)
    ensures
        opt_text(r) == given_text(*v),
{
    match v {
        Some(s) => {
            let t = trim(s.as_str());
            if t.unicode_len() == 0 {
                None
            } else {
                Some(owned(t))
            }
        },
        None => None,
    }
}

/// The role type stored for a requested person type (see `role_type_of`).
pub fn canonical_role_type(person_type: &Option<String>) -> (r: String)
    ensures
        r@ == role_type_of(given_text(*person_type)),
{
    match given(person_type) {
        None => owned("Actor"),
        Some(t) => {
            let l = to_ascii_lowercase(t.as_str());
            let c = l.as_str();
            if str_eq(c, "actor") {
                owned("Actor")
            } else if str_eq(c, "director") {
                owned("Director")
            } else if str_eq(c, "writer") {
                owned("Writer")
            } else if str_eq(c, "producer") {
                owned("Producer")
            } else if str_eq(c, "gueststar") {
                owned("GuestStar")
            } else if str_eq(c, "composer") {
                owned("Composer")
            } else {
                t
            }
        },
    }
}

/// What identifies a stored role: the person's name, the role type and
/// the role. Entries alike in all three write the same role row, the later
/// one overwriting the earlier.
pub open spec fn role_key(e: PersonEdit) -> (Seq<char>, Seq<char>, Option<Seq<char>>) {
    (given_text(e.name)->0, role_type_of(given_text(e.person_type)), given_text(e.role))
}

/// Whether the kept entry at `k` is the last one with its role key.
pub open spec fn last_of_key(kept: Seq<PersonEdit>, k: int) -> bool {
    forall|j: int| k < j < kept.len() ==> role_key(#[trigger] kept[j]) != role_key(kept[k])
}

/// The positions, from `i` on and in order, of the kept entries that are
/// the last with their role key: the roles that stay stored.
pub open spec fn stored_positions(kept: Seq<PersonEdit>, i: int) -> Seq<int>
    decreases kept.len() - i,
{
    if i < 0 || i >= kept.len() {
        Seq::empty()
    } else {
        (if last_of_key(kept, i) {
            seq![i]
        } else {
            Seq::empty()
        }) + stored_positions(kept, i + 1)
    }
}

/// The entries written in order, one per kept entry (see `stores_person`).
fn written_people(entries: &Vec<PersonEdit>) -> (r: Vec<EditedPerson>)
    requires
        entries@.len() < i32::MAX,
    ensures
        r@.len() == kept_edits(entries@).len(),
        forall|k: int| 0 <= k < r@.len() ==> stores_person(#[trigger] r@[k], kept_edits(entries@)[k], k),
{
    let ghost es = entries@;
    let mut out: Vec<EditedPerson> = Vec::new();
    let n = entries.len();
    let mut i: usize = 0;
    let mut sort_order: i32 = 0;
    while i < n
        invariant
            i <= n < i32::MAX,
            n == es.len(),
            es == entries@,
            out@.len() == kept_edits(es.take(i as int)).len(),
            out@.len() <= i,
            sort_order == out@.len(),
            forall|k: int| 0 <= k < out@.len() ==> stores_person(#[trigger] out@[k], kept_edits(es.take(i as int))[k], k),
        decreases n - i,
    {
        proof {
            assert(es.take(i + 1).drop_last() =~= es.take(i as int));
            assert(es.take(i + 1).last() == es[i as int]);
        }
        let e = &entries[i];
        match given(&e.name) {
            Some(name) => {
                let sort_name = to_lowercase(name.as_str());
                let role_type = canonical_role_type(&e.person_type);
                let role = given(&e.role);
                out.push(EditedPerson { name, sort_name, role_type, role, sort_order });
                sort_order = sort_order + 1;
            },
            None => {},
        }
        i = i + 1;
    }
    assert(es.take(n as int) =~= es);
    out
}

/// Whether two written people have the same role key.
fn same_role(a: &EditedPerson, b: &EditedPerson) -> (r: bool)
    ensures
        r == (a.name@ == b.name@ && a.role_type@ == b.role_type@ && opt_text(a.role) == opt_text(b.role)),
{
    str_eq(a.name.as_str(), b.name.as_str()) && str_eq(a.role_type.as_str(), b.role_type.as_str()) && match (
        &a.role,
        &b.role,
    ) {
        (Some(x), Some(y)) => str_eq(x.as_str(), y.as_str()),
        (None, None) => true,
        _ => false,
    }
}

/// The roles an edit leaves stored, in the order written: one per kept
/// entry that no later kept entry repeats in name, role type and role,
/// each as `stores_person` states at its position (its sort order).
pub fn people_from_edit(entries: &Vec<PersonEdit>) -> (r: Vec<EditedPerson>)
    requires
        entries@.len() < i32::MAX,
    ensures
        r@.len() == stored_positions(kept_edits(entries@), 0).len(),
        forall|m: int|
            0 <= m < r@.len() ==> stores_person(
                #[trigger] r@[m],
                kept_edits(entries@)[stored_positions(kept_edits(entries@), 0)[m]],
                stored_positions(kept_edits(entries@), 0)[m],
            ),
{
    let ghost kept = kept_edits(entries@);
    let all = written_people(entries);
    let n = all.len();
    let mut out: Vec<EditedPerson> = Vec::new();
    let mut k: usize = 0;
    assert(stored_positions(kept, 0) =~= stored_positions(kept, 0).take(0) + stored_positions(kept, 0));
    while k < n
        invariant
            k <= n,
            n == all@.len(),
            n == kept.len(),
            kept == kept_edits(entries@),
            forall|t: int| 0 <= t < n ==> stores_person(#[trigger] all@[t], kept[t], t),
            exists|pre: Seq<int>|
                pre + stored_positions(kept, k as int) == stored_positions(kept, 0) && pre.len() == out@.len() && (
                forall|m: int| 0 <= m < pre.len() ==> 0 <= #[trigger] pre[m] < n && stores_person(out@[m], kept[pre[m]], pre[m])),
        decreases n - k,
    {
        let ghost pre = choose|pre: Seq<int>|
            pre + stored_positions(kept, k as int) == stored_positions(kept, 0) && pre.len() == out@.len() && (
            forall|m: int| 0 <= m < pre.len() ==> 0 <= #[trigger] pre[m] < n && stores_person(out@[m], kept[pre[m]], pre[m]));
        let mut j: usize = k + 1;
        let mut repeated = false;
        while j < n
            invariant
                k < j <= n,
                n == all@.len(),
                n == kept.len(),
                forall|t: int| 0 <= t < n ==> stores_person(#[trigger] all@[t], kept[t], t),
                repeated <==> exists|t: int| k < t < j && role_key(#[trigger] kept[t]) == role_key(kept[k as int]),
            decreases n - j,
        {
            if same_role(&all[j], &all[k]) {
                assert(role_key(kept[j as int]) == role_key(kept[k as int]));
                repeated = true;
            } else {
                assert(role_key(kept[j as int]) != role_key(kept[k as int]));
            }
            j = j + 1;
        }
        proof {
            assert(last_of_key(kept, k as int) == !repeated);
        }
        let ghost before = out@;
        if !repeated {
            let p = &all[k];
            let role = match &p.role {
                Some(x) => Some(x.clone()),
                None => None,
            };
            out.push(EditedPerson {
                name: p.name.clone(),
                sort_name: p.sort_name.clone(),
                role_type: p.role_type.clone(),
                role,
                sort_order: p.sort_order,
            });
            proof {
                let pre2 = pre.push(k as int);
                assert(stored_positions(kept, k as int) =~= seq![k as int] + stored_positions(kept, k + 1));
                assert(pre2 + stored_positions(kept, k + 1) =~= pre + stored_positions(kept, k as int));
                assert forall|m: int| 0 <= m < pre2.len() implies 0 <= #[trigger] pre2[m] < n && stores_person(out@[m], kept[pre2[m]], pre2[m]) by {
                    if m < pre.len() {
                        assert(out@[m] == before[m]);
                    }
                }
            }
        } else {
            proof {
                assert(stored_positions(kept, k as int) =~= stored_positions(kept, k + 1));
            }
        }
        k = k + 1;
    }
    proof {
        let pre = choose|pre: Seq<int>|
            pre + stored_positions(kept, n as int) == stored_positions(kept, 0) && pre.len() == out@.len() && (
            forall|m: int| 0 <= m < pre.len() ==> 0 <= #[trigger] pre[m] < n && stores_person(out@[m], kept[pre[m]], pre[m]));
        assert(pre =~= stored_positions(kept, 0));
    }
    out
}

/// The name a role row's id is derived from:
/// `person-role:<person id>:<role type>:<role>`, `<none>` for no role.
pub open spec fn role_id_name(person_id: u128, role_type: Seq<char>, role: Option<Seq<char>>) -> Seq<char> {
    "person-role:"@ + hyphenated_form(person_id) + ":"@ + role_type + ":"@ + match role {
        Some(r) => r,
        None => "<none>"@,
    }
}

/// The id of a role row: the version 5 id of `role_id_name` in the item's
/// id as namespace. The same person, role type and role of an item always
/// get the same row.
pub fn person_role_id(media_item_id: u128, person_id: u128, role_type: &str, role: Option<&str>) -> (r: u128)
    ensures
        r == uuid_v5_of(
            media_item_id,
            encode_utf8(
                role_id_name(
                    person_id,
                    role_type@,
                    match role {
                        Some(x) => Some(x@),
                        None => None,
                    },
                ),
            ),
        ),
{
    let mut name = owned("person-role:");
    let id = hyphenated_id(person_id);
    name.append(id.as_str());
    name.append(":");
    name.append(role_type);
    name.append(":");
    match role {
        Some(x) => name.append(x),
        None => name.append("<none>"),
    }
    uuid_v5(media_item_id, name.as_str().as_bytes())
}

} // verus!
