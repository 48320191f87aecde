//! Query-string lists and collection membership.

use vstd::prelude::*;
use crate::connect::{parse_uuid, uuid_parse};
use crate::ids::{hex_digit, hex_fixed, hyphenated_form, hyphenated_id, simple_form, uuid_v5, uuid_v5_of, NAMESPACE_URL_ID};
use vstd::utf8::encode_utf8;
use crate::text::{
    i64_to_string, int_decimal, ascii_lower_seq, is_ws, lemma_split_nonempty, owned, split, split_seq, str_eq, to_ascii_lowercase, trim,
    trim_end_seq, trim_seq, trim_start_seq, views, Separators,
};

verus! {

/// The trimmed, non-empty pieces, ASCII lower-cased when `lower` holds.
pub open spec fn clean_pieces(pieces: Seq<Seq<char>>, lower: bool) -> Seq<Seq<char>>
    decreases pieces.len(),
{
    if pieces.len() == 0 {
        Seq::empty()
    } else {
        let prev = clean_pieces(pieces.drop_last(), lower);
        let t = trim_seq(pieces.last());
        if t.len() == 0 {
            prev
        } else {
            prev.push(if lower { ascii_lower_seq(t) } else { t })
        }
    }
}

fn clean(pieces: &Vec<String>, lower: bool) -> (r: Vec<String>)
    ensures
        views(r@) == clean_pieces(views(pieces@), lower),
{
    let mut out: Vec<String> = Vec::new();
    let n = pieces.len();
    let mut i: usize = 0;
    assert(views(pieces@).take(0) =~= Seq::<Seq<char>>::empty());
    while i < n
        invariant
            i <= n,
            n == pieces@.len(),
            views(out@) == clean_pieces(views(pieces@).take(i as int), lower),
        decreases n - i,
    {
        proof {
            assert(views(pieces@).take(i + 1).drop_last() =~= views(pieces@).take(i as int));
            assert(views(pieces@).take(i + 1).last() == pieces@[i as int]@);
        }
        let t = trim(pieces[i].as_str());
        if t.unicode_len() != 0 {
            let v = if lower {
                to_ascii_lowercase(t)
            } else {
                owned(t)
            };
            out.push(v);
            assert(views(out@) =~= views(out@).drop_last().push(out@.last()@));
        }
        i = i + 1;
    }
    assert(views(pieces@).take(n as int) =~= views(pieces@));
    out
}

/// Texts trimmed and ASCII lower-cased, blank ones dropped.
pub fn lowercase_list(values: &Vec<String>) -> (r: Vec<String>)
    ensures
        views(r@) == clean_pieces(views(values@), true),
{
    clean(values, true)
}

pub open spec fn opt_text(v: Option<&str>) -> Seq<char> {
    match v {
        Some(s) => s@,
        None => Seq::empty(),
    }
}

/// Filter values of a query parameter: the pieces between `,`, `|` and `;`,
/// trimmed and ASCII lower-cased, blank ones dropped; none without a value.
pub fn parse_option_filters(value: Option<&str>) -> (r: Vec<String>)
    ensures
        views(r@) == clean_pieces(split_seq(opt_text(value), Separators::ListMarks), true),
{
    let text = match value {
        Some(s) => s,
        None => "",
    };
    proof {
        reveal_strlit("");
    }
    let pieces = split(text, Separators::ListMarks);
    clean(&pieces, true)
}

/// Paths of a query parameter: the pieces between commas, trimmed, blank
/// ones dropped; none without a value.
pub fn split_query_paths(value: Option<&str>) -> (r: Vec<String>)
    ensures
        views(r@) == clean_pieces(split_seq(opt_text(value), Separators::Comma), false),
{
    let text = match value {
        Some(s) => s,
        None => "",
    };
    proof {
        reveal_strlit("");
    }
    let pieces = split(text, Separators::Comma);
    clean(&pieces, false)
}

/// The ids among trimmed pieces that parse.
pub open spec fn parsed_ids(pieces: Seq<Seq<char>>) -> Seq<u128>
    decreases pieces.len(),
{
    if pieces.len() == 0 {
        Seq::empty()
    } else {
        let prev = parsed_ids(pieces.drop_last());
        match uuid_parse(pieces.last()) {
            Some(id) => prev.push(id),
            None => prev,
        }
    }
}

/// Ids of a comma-separated list: each piece trimmed, blank ones dropped,
/// and the pieces that are not ids skipped.
pub fn parse_id_list(raw: Option<&str>) -> (r: Vec<u128>)
    ensures
        r@ == parsed_ids(clean_pieces(split_seq(opt_text(raw), Separators::Comma), false)),
{
    let pieces = split_query_paths(raw);
    let ghost pv = views(pieces@);
    let mut out: Vec<u128> = Vec::new();
    let n = pieces.len();
    let mut i: usize = 0;
    assert(pv.take(0) =~= Seq::<Seq<char>>::empty());
    while i < n
        invariant
            i <= n,
            n == pieces@.len(),
            pv == views(pieces@),
            out@ == parsed_ids(pv.take(i as int)),
        decreases n - i,
    {
        proof {
            assert(pv.take(i + 1).drop_last() =~= pv.take(i as int));
            assert(pv.take(i + 1).last() == pieces@[i as int]@);
        }
        if let Some(id) = parse_uuid(pieces[i].as_str()) {
            out.push(id);
        }
        i = i + 1;
    }
    assert(pv.take(n as int) =~= pv);
    out
}

/// The settings key of a collection.
pub open spec fn collection_key_of(id: u128) -> Seq<char> {
    "collection:"@ + hyphenated_form(id)
}

/// The settings key of a collection: `collection:` and its hyphenated id.
pub fn collection_key(id: u128) -> (r: String)
    ensures
        r@ == collection_key_of(id),
{
    let mut out = owned("collection:");
    let h = hyphenated_id(id);
    out.append(h.as_str());
    out
}

/// The id of the collection kept for a TMDb collection: the version 5 id,
/// in the URL namespace, of `tmdb_collection:` and the TMDb collection's
/// number.
pub fn tmdb_collection_id(number: i32) -> (r: u128)
    ensures
        r == uuid_v5_of(NAMESPACE_URL_ID, encode_utf8("tmdb_collection:"@ + int_decimal(number as int))),
{
    let mut name = owned("tmdb_collection:");
    let digits = i64_to_string(number as i64);
    name.append(digits.as_str());
    uuid_v5(NAMESPACE_URL_ID, name.as_str().as_bytes())
}

/// A collection's stored item list: each entry's text, `None` for an entry
/// that is not a string.
pub open spec fn entry_views(e: Seq<Option<String>>) -> Seq<Option<Seq<char>>> {
    e.map_values(|x: Option<String>| match x {
        Some(s) => Some(s@),
        None => None,
    })
}

/// The list after adding each id form in turn, unless already listed.
pub open spec fn added_ids(e: Seq<Option<Seq<char>>>, forms: Seq<Seq<char>>) -> Seq<Option<Seq<char>>>
    decreases forms.len(),
{
    if forms.len() == 0 {
        e
    } else {
        let p = added_ids(e, forms.drop_last());
        if p.contains(Some(forms.last())) {
            p
        } else {
            p.push(Some(forms.last()))
        }
    }
}

/// The list without the entries that are one of `forms`.
pub open spec fn removed_ids(e: Seq<Option<Seq<char>>>, forms: Seq<Seq<char>>) -> Seq<Option<Seq<char>>>
    decreases e.len(),
{
    if e.len() == 0 {
        e
    } else {
        let p = removed_ids(e.drop_last(), forms);
        match e.last() {
            Some(s) => if forms.contains(s) {
                p
            } else {
                p.push(e.last())
            },
            None => p.push(e.last()),
        }
    }
}

/// The hyphenated forms of ids.
pub open spec fn id_forms(ids: Seq<u128>) -> Seq<Seq<char>> {
    ids.map_values(|id: u128| hyphenated_form(id))
}

fn lists_text(e: &Vec<Option<String>>, s: &str) -> (r: bool)
    ensures
        r == entry_views(e@).contains(Some(s@)),
{
    let n = e.len();
    let mut i: usize = 0;
    while i < n
        invariant
            i <= n,
            n == e@.len(),
            forall|k: int| 0 <= k < i ==> entry_views(e@)[k] != Some(s@),
        decreases n - i,
    {
        match &e[i] {
            Some(t) => {
                if str_eq(t.as_str(), s) {
                    assert(entry_views(e@)[i as int] == Some(s@));
                    return true;
                }
            },
            None => {},
        }
        i = i + 1;
    }
    false
}

/// A collection's item list with the ids added, as `added_ids` states
/// with their hyphenated forms.
pub fn add_collection_ids(entries: Vec<Option<String>>, ids: &Vec<u128>) -> (r: Vec<Option<String>>)
    ensures
        entry_views(r@) == added_ids(entry_views(entries@), id_forms(ids@)),
{
    let mut e = entries;
    let ghost start = entry_views(e@);
    let n = ids.len();
    let mut i: usize = 0;
    assert(id_forms(ids@).take(0) =~= Seq::<Seq<char>>::empty());
    while i < n
        invariant
            i <= n,
            n == ids@.len(),
            entry_views(e@) == added_ids(start, id_forms(ids@).take(i as int)),
        decreases n - i,
    {
        proof {
            assert(id_forms(ids@).take(i + 1).drop_last() =~= id_forms(ids@).take(i as int));
        }
        let s = hyphenated_id(ids[i]);
        if !lists_text(&e, s.as_str()) {
            e.push(Some(s));
            assert(entry_views(e@) =~= entry_views(e@).drop_last().push(Some(hyphenated_form(ids@[i as int]))));
        }
        i = i + 1;
    }
    assert(id_forms(ids@).take(n as int) =~= id_forms(ids@));
    e
}

fn in_forms(forms: &Vec<String>, s: &str) -> (r: bool)
    ensures
        r == views(forms@).contains(s@),
{
    let n = forms.len();
    let mut i: usize = 0;
    while i < n
        invariant
            i <= n,
            n == forms@.len(),
            forall|k: int| 0 <= k < i ==> views(forms@)[k] != s@,
        decreases n - i,
    {
        if str_eq(forms[i].as_str(), s) {
            assert(views(forms@)[i as int] == s@);
            return true;
        }
        i = i + 1;
    }
    false
}

/// A collection's item list without the ids, as `removed_ids` states with
/// their hyphenated forms.
pub fn remove_collection_ids(entries: Vec<Option<String>>, ids: &Vec<u128>) -> (r: Vec<Option<String>>)
    ensures
        entry_views(r@) == removed_ids(entry_views(entries@), id_forms(ids@)),
{
    let mut forms: Vec<String> = Vec::new();
    let m = ids.len();
    let mut j: usize = 0;
    while j < m
        invariant
            j <= m,
            m == ids@.len(),
            views(forms@) =~= id_forms(ids@).take(j as int),
        decreases m - j,
    {
        let h = hyphenated_id(ids[j]);
        let ghost before = views(forms@);
        forms.push(h);
        assert(views(forms@) =~= before.push(hyphenated_form(ids@[j as int])));
        assert(id_forms(ids@).take(j + 1) =~= id_forms(ids@).take(j as int).push(hyphenated_form(ids@[j as int])));
        j = j + 1;
    }
    assert(id_forms(ids@).take(m as int) =~= id_forms(ids@));
    let ghost ev = entry_views(entries@);
    let mut out: Vec<Option<String>> = Vec::new();
    let mut rest = entries;
    let n = rest.len();
    let mut i: usize = 0;
    assert(ev.take(0) =~= Seq::<Option<Seq<char>>>::empty());
    while i < n
        invariant
            i <= n,
            n == rest@.len(),
            ev == entry_views(rest@),
            views(forms@) == id_forms(ids@),
            entry_views(out@) == removed_ids(ev.take(i as int), id_forms(ids@)),
        decreases n - i,
    {
        proof {
            assert(ev.take(i + 1).drop_last() =~= ev.take(i as int));
            assert(ev.take(i + 1).last() == ev[i as int]);
        }
        let keep = match &rest[i] {
            Some(s) => !in_forms(&forms, s.as_str()),
            None => true,
        };
        if keep {
            let item = match &rest[i] {
                Some(s) => Some(s.clone()),
                None => None,
            };
            out.push(item);
            assert(entry_views(out@) =~= entry_views(out@).drop_last().push(ev[i as int]));
        }
        i = i + 1;
    }
    assert(ev.take(n as int) =~= ev);
    out
}

/// After adding ids, every one of them is listed.
pub proof fn law_added_ids_listed(e: Seq<Option<Seq<char>>>, forms: Seq<Seq<char>>)
    ensures
        forall|k: int| 0 <= k < forms.len() ==> added_ids(e, forms).contains(Some(#[trigger] forms[k])),
        forall|k: int| 0 <= k < e.len() ==> added_ids(e, forms).contains(#[trigger] e[k]),
    decreases forms.len(),
{
    if forms.len() > 0 {
        let init = forms.drop_last();
        law_added_ids_listed(e, init);
        let p = added_ids(e, init);
        assert forall|k: int| 0 <= k < forms.len() implies added_ids(e, forms).contains(Some(#[trigger] forms[k])) by {
            if k < forms.len() - 1 {
                assert(init[k] == forms[k]);
                assert(p.contains(Some(init[k])));
                if !p.contains(Some(forms.last())) {
                    let j = choose|j: int| 0 <= j < p.len() && p[j] == Some(init[k]);
                    assert(p.push(Some(forms.last()))[j] == Some(forms[k]));
                }
            } else if !p.contains(Some(forms.last())) {
                assert(p.push(Some(forms.last()))[p.len() as int] == Some(forms.last()));
            }
        }
        assert forall|k: int| 0 <= k < e.len() implies added_ids(e, forms).contains(#[trigger] e[k]) by {
            assert(p.contains(e[k]));
            if !p.contains(Some(forms.last())) {
                let j = choose|j: int| 0 <= j < p.len() && p[j] == e[k];
                assert(p.push(Some(forms.last()))[j] == e[k]);
            }
        }
    }
}

/// Adding ids that are all listed changes nothing.
pub proof fn lemma_add_listed_noop(e: Seq<Option<Seq<char>>>, forms: Seq<Seq<char>>)
    requires
        forall|k: int| 0 <= k < forms.len() ==> e.contains(Some(#[trigger] forms[k])),
    ensures
        added_ids(e, forms) == e,
    decreases forms.len(),
{
    if forms.len() > 0 {
        let init = forms.drop_last();
        assert forall|k: int| 0 <= k < init.len() implies e.contains(Some(#[trigger] init[k])) by {
            assert(init[k] == forms[k]);
        }
        lemma_add_listed_noop(e, init);
        assert(e.contains(Some(forms[forms.len() - 1])));
    }
}

/// Adding the same ids twice is adding them once.
pub proof fn law_add_ids_idempotent(e: Seq<Option<Seq<char>>>, forms: Seq<Seq<char>>)
    ensures
        added_ids(added_ids(e, forms), forms) == added_ids(e, forms),
{
    law_added_ids_listed(e, forms);
    lemma_add_listed_noop(added_ids(e, forms), forms);
}

/// After removing ids, none of them is listed.
pub proof fn law_removed_ids_absent(e: Seq<Option<Seq<char>>>, forms: Seq<Seq<char>>)
    ensures
        forall|k: int| 0 <= k < forms.len() ==> !removed_ids(e, forms).contains(Some(#[trigger] forms[k])),
    decreases e.len(),
{
    if e.len() > 0 {
        law_removed_ids_absent(e.drop_last(), forms);
        let p = removed_ids(e.drop_last(), forms);
        assert forall|k: int| 0 <= k < forms.len() implies !removed_ids(e, forms).contains(Some(#[trigger] forms[k])) by {
            assert(!p.contains(Some(forms[k])));
            let r = removed_ids(e, forms);
            if r.contains(Some(forms[k])) {
                let j = choose|j: int| 0 <= j < r.len() && r[j] == Some(forms[k]);
                if j < p.len() {
                    assert(r[j] == p[j]);
                } else {
                    assert(forms.contains(forms[k]));
                }
            }
        }
    }
}

pub proof fn lemma_removed_append(a: Seq<Option<Seq<char>>>, x: Option<Seq<char>>, forms: Seq<Seq<char>>)
    requires
        x matches Some(s) && forms.contains(s),
    ensures
        removed_ids(a.push(x), forms) == removed_ids(a, forms),
{
    assert(a.push(x).drop_last() =~= a);
}

pub proof fn lemma_removed_of_added(e: Seq<Option<Seq<char>>>, forms: Seq<Seq<char>>, all: Seq<Seq<char>>)
    requires
        forall|k: int| 0 <= k < forms.len() ==> all.contains(#[trigger] forms[k]),
    ensures
        removed_ids(added_ids(e, forms), all) == removed_ids(e, all),
    decreases forms.len(),
{
    if forms.len() > 0 {
        let init = forms.drop_last();
        assert forall|k: int| 0 <= k < init.len() implies all.contains(#[trigger] init[k]) by {
            assert(init[k] == forms[k]);
        }
        lemma_removed_of_added(e, init, all);
        let p = added_ids(e, init);
        if !p.contains(Some(forms.last())) {
            assert(all.contains(forms[forms.len() - 1]));
            lemma_removed_append(p, Some(forms.last()), all);
        }
    }
}

/// Removing ids after adding them leaves what removing them alone leaves.
pub proof fn law_remove_after_add(e: Seq<Option<Seq<char>>>, forms: Seq<Seq<char>>)
    ensures
        removed_ids(added_ids(e, forms), forms) == removed_ids(e, forms),
{
    assert forall|k: int| 0 <= k < forms.len() implies forms.contains(#[trigger] forms[k]) by {
    }
    lemma_removed_of_added(e, forms, forms);
}

/// The 32-digit form of an id when `simple`, else its hyphenated form.
pub open spec fn id_text(id: u128, simple: bool) -> Seq<char> {
    if simple {
        simple_form(id)
    } else {
        hyphenated_form(id)
    }
}

/// Ids written in the given forms and joined by `, `.
pub open spec fn joined_ids(ids: Seq<u128>, simple: Seq<bool>) -> Seq<char>
    decreases ids.len(),
{
    if ids.len() == 0 {
        Seq::empty()
    } else if ids.len() == 1 {
        id_text(ids[0], simple[0])
    } else {
        joined_ids(ids.drop_last(), simple.drop_last()) + ", "@ + id_text(ids.last(), simple.last())
    }
}

proof fn lemma_hex_fixed_chars(n: nat, count: nat)
    ensures
        hex_fixed(n, count).len() == count,
        forall|i: int|
            0 <= i < count ==> {
                let c = #[trigger] hex_fixed(n, count)[i];
                ('0' <= c && c <= '9') || ('a' <= c && c <= 'f')
            },
    decreases count,
{
    if count > 0 {
        lemma_hex_fixed_chars(n / 16, (count - 1) as nat);
        let d = n % 16;
        assert(d < 16);
        let c = hex_digit(d);
        assert(('0' <= c && c <= '9') || ('a' <= c && c <= 'f'));
    }
}

proof fn lemma_id_text_chars(id: u128, simple: bool)
    ensures
        id_text(id, simple).len() > 0,
        forall|i: int|
            0 <= i < id_text(id, simple).len() ==> #[trigger] id_text(id, simple)[i] != ',' && !is_ws(
                id_text(id, simple)[i],
            ),
{
    lemma_hex_fixed_chars(id as nat, 32);
    let h = simple_form(id);
    if !simple {
        let t = hyphenated_form(id);
        assert forall|i: int| 0 <= i < t.len() implies #[trigger] t[i] != ',' && !is_ws(t[i]) by {
            if i < 8 {
                assert(t[i] == h[i]);
            } else if i == 8 || i == 13 || i == 18 || i == 23 {
                assert(t[i] == '-');
            } else if i < 13 {
                assert(t[i] == h[i - 1]);
            } else if i < 18 {
                assert(t[i] == h[i - 2]);
            } else if i < 23 {
                assert(t[i] == h[i - 3]);
            } else {
                assert(t[i] == h[i - 4]);
            }
        }
    }
}

proof fn lemma_split_plain(x: Seq<char>, y: Seq<char>)
    requires
        forall|i: int| 0 <= i < y.len() ==> #[trigger] y[i] != ',',
    ensures
        split_seq(x + y, Separators::Comma) == split_seq(x, Separators::Comma).update(
            split_seq(x, Separators::Comma).len() - 1,
            split_seq(x, Separators::Comma).last() + y,
        ),
    decreases y.len(),
{
    lemma_split_nonempty(x, Separators::Comma);
    let sx = split_seq(x, Separators::Comma);
    if y.len() == 0 {
        assert(x + y =~= x);
        assert(sx.last() + y =~= sx.last());
        assert(sx.update(sx.len() - 1, sx.last()) =~= sx);
    } else {
        let y0 = y.drop_last();
        lemma_split_plain(x, y0);
        assert((x + y).drop_last() =~= x + y0);
        assert((x + y).last() == y.last());
        let prev = split_seq(x + y0, Separators::Comma);
        assert(prev =~= sx.update(sx.len() - 1, sx.last() + y0));
        assert(prev.last().push(y.last()) =~= sx.last() + y);
        assert(prev.update(prev.len() - 1, prev.last().push(y.last())) =~= sx.update(sx.len() - 1, sx.last() + y));
    }
}

proof fn lemma_split_after_comma(x: Seq<char>, y: Seq<char>)
    requires
        forall|i: int| 0 <= i < y.len() ==> #[trigger] y[i] != ',',
    ensures
        split_seq(x.push(',') + y, Separators::Comma) == split_seq(x, Separators::Comma).push(y),
{
    lemma_split_plain(x.push(','), y);
    assert(x.push(',').drop_last() =~= x);
    let s = split_seq(x.push(','), Separators::Comma);
    assert(s == split_seq(x, Separators::Comma).push(Seq::<char>::empty()));
    assert(Seq::<char>::empty() + y =~= y);
    assert(s.update(s.len() - 1, s.last() + y) =~= split_seq(x, Separators::Comma).push(y));
}

proof fn lemma_trim_plain(t: Seq<char>)
    requires
        t.len() > 0,
        forall|i: int| 0 <= i < t.len() ==> !is_ws(#[trigger] t[i]),
    ensures
        trim_seq(t) == t,
        trim_seq(seq![' '] + t) == t,
{
    let st = seq![' '] + t;
    assert(st.drop_first() =~= t);
    assert(is_ws(' '));
    assert(trim_start_seq(t) == t);
    assert(trim_start_seq(st) == trim_start_seq(t));
    assert(!is_ws(t.last()));
    assert(trim_end_seq(t) == t);
}

/// Ids written in their 32-digit or hyphenated forms and joined by `, `
/// parse back to the same ids, each form parsing to its id (as
/// `Uuid::parse_str` parses both).
pub proof fn law_parse_listed_ids(ids: Seq<u128>, simple: Seq<bool>)
    requires
        simple.len() == ids.len(),
        forall|i: int| 0 <= i < ids.len() ==> uuid_parse(#[trigger] id_text(ids[i], simple[i])) == Some(ids[i]),
    ensures
        parsed_ids(clean_pieces(split_seq(joined_ids(ids, simple), Separators::Comma), false)) == ids,
    decreases ids.len(),
{
    if ids.len() == 0 {
        let e = Seq::<char>::empty();
        assert(split_seq(e, Separators::Comma) == seq![e]);
        assert(seq![e].drop_last() =~= Seq::<Seq<char>>::empty());
        assert(trim_seq(e) =~= e);
        assert(clean_pieces(Seq::<Seq<char>>::empty(), false) == Seq::<Seq<char>>::empty());
        assert(clean_pieces(seq![e], false) == Seq::<Seq<char>>::empty());
        assert(parsed_ids(Seq::<Seq<char>>::empty()) == Seq::<u128>::empty());
        assert(joined_ids(ids, simple) == e);
        assert(ids =~= Seq::<u128>::empty());
    } else {
        let n = ids.len() as int;
        let t = id_text(ids[n - 1], simple[n - 1]);
        assert(uuid_parse(id_text(ids[n - 1], simple[n - 1])) == Some(ids[n - 1]));
        lemma_id_text_chars(ids[n - 1], simple[n - 1]);
        lemma_trim_plain(t);
        if ids.len() == 1 {
            let e = Seq::<char>::empty();
            lemma_split_plain(e, t);
            assert(e + t =~= t);
            assert(split_seq(e, Separators::Comma) == seq![e]);
            assert(seq![e].update(0, e + t) =~= seq![t]);
            let pieces = seq![t];
            assert(pieces.drop_last() =~= Seq::<Seq<char>>::empty());
            assert(clean_pieces(Seq::<Seq<char>>::empty(), false) == Seq::<Seq<char>>::empty());
            assert(pieces.last() == t);
            assert(trim_seq(pieces.last()) == t);
            assert(clean_pieces(pieces, false) == Seq::<Seq<char>>::empty().push(t));
            let c = Seq::<Seq<char>>::empty().push(t);
            assert(c.drop_last() =~= Seq::<Seq<char>>::empty());
            assert(parsed_ids(Seq::<Seq<char>>::empty()) == Seq::<u128>::empty());
            assert(c.last() == t);
            assert(parsed_ids(c) == Seq::<u128>::empty().push(ids[0]));
            assert(ids =~= Seq::<u128>::empty().push(ids[0]));
            assert(split_seq(joined_ids(ids, simple), Separators::Comma) == pieces);
        } else {
            let ids0 = ids.drop_last();
            let simple0 = simple.drop_last();
            assert forall|i: int| 0 <= i < ids0.len() implies uuid_parse(#[trigger] id_text(ids0[i], simple0[i]))
                == Some(ids0[i]) by {
                assert(ids0[i] == ids[i] && simple0[i] == simple[i]);
            }
            law_parse_listed_ids(ids0, simple0);
            let j0 = joined_ids(ids0, simple0);
            let y = seq![' '] + t;
            assert forall|i: int| 0 <= i < y.len() implies #[trigger] y[i] != ',' by {
                if i > 0 {
                    assert(y[i] == t[i - 1]);
                }
            }
            assert(joined_ids(ids, simple) == j0 + ", "@ + t);
            assert(j0 + ", "@ + t =~= j0.push(',') + y) by {
                reveal_strlit(", ");
            }
            lemma_split_after_comma(j0, y);
            let p0 = split_seq(j0, Separators::Comma);
            let pieces = p0.push(y);
            assert(pieces.drop_last() =~= p0);
            let c0 = clean_pieces(p0, false);
            assert(clean_pieces(pieces, false) == c0.push(t));
            assert(c0.push(t).drop_last() =~= c0);
            assert(parsed_ids(c0.push(t)) == parsed_ids(c0).push(ids[n - 1]));
            assert(ids =~= ids0.push(ids[n - 1]));
            assert(split_seq(joined_ids(ids, simple), Separators::Comma) == pieces);
        }
    }
}

} // verus!
