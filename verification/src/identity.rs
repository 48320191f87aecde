//! Provider ids and the identity of catalogue items: the keys by which
//! duplicates are recognised and the ids derived from them.

use vstd::prelude::*;
use crate::ids::{hyphenated_form, hyphenated_id, simple_form, simple_id, uuid_v5, uuid_v5_of, NAMESPACE_URL_ID};
use vstd::utf8::encode_utf8;
use crate::json::{JsonFields, JsonScalar};
use crate::notify::{lemma_text_lt_irreflexive, lemma_text_lt_total, lemma_text_lt_transitive, text_less, text_lt};
use crate::media::{identity_scope, item_identity_scope, opt_str, opt_string};
use crate::pathnames::{parent_folder_name, parent_name_of};
use crate::text::{
    eq_ignore_ascii_case, eq_ignore_case_seq, i64_to_padded_string, int_decimal_padded, to_lowercase,
    unicode_lower,
    ascii_lower_seq, int_decimal, i64_to_string, is_blank, is_blank_str, owned, str_eq,
    to_ascii_lowercase, trim, trim_seq, views,
};

verus! {

/// Provider ids of an item (provider name, id), each provider once.
pub struct ProviderIds {
    pub entries: Vec<(String, String)>,
}

/// The id stored for a provider.
pub open spec fn provider(entries: Seq<(String, String)>, key: Seq<char>) -> Option<Seq<char>>
    decreases entries.len(),
{
    if entries.len() == 0 {
        None
    } else if entries[0].0@ == key {
        Some(entries[0].1@)
    } else {
        provider(entries.drop_first(), key)
    }
}

/// The id of the first of `keys` that is stored.
pub open spec fn provider_first(entries: Seq<(String, String)>, keys: Seq<Seq<char>>) -> Option<Seq<char>>
    decreases keys.len(),
{
    if keys.len() == 0 {
        None
    } else {
        match provider(entries, keys[0]) {
            Some(v) => Some(v),
            None => provider_first(entries, keys.drop_first()),
        }
    }
}

/// Whether no provider is named twice (the ids form a map).
pub open spec fn keys_unique(entries: Seq<(String, String)>) -> bool {
    forall|i: int, j: int| 0 <= i < j < entries.len() ==> #[trigger] entries[i].0@ != #[trigger] entries[j].0@
}

proof fn lemma_provider_none(entries: Seq<(String, String)>, k: Seq<char>)
    ensures
        provider(entries, k) is None <==> forall|i: int| 0 <= i < entries.len() ==> #[trigger] entries[i].0@ != k,
    decreases entries.len(),
{
    if entries.len() > 0 {
        lemma_provider_none(entries.drop_first(), k);
        assert forall|i: int| 1 <= i < entries.len() implies #[trigger] entries[i] == entries.drop_first()[i - 1] by {}
        if provider(entries, k) is None {
            assert forall|i: int| 0 <= i < entries.len() implies #[trigger] entries[i].0@ != k by {
                if i > 0 {
                    assert(entries[i] == entries.drop_first()[i - 1]);
                }
            }
        }
    }
}

/// Whether the providers come in character order of their names, each
/// once (as a sorted map holds them).
pub open spec fn keys_sorted(entries: Seq<(String, String)>) -> bool {
    forall|i: int, j: int| 0 <= i < j < entries.len() ==> text_lt(#[trigger] entries[i].0@, #[trigger] entries[j].0@)
}

proof fn lemma_sorted_unique(entries: Seq<(String, String)>)
    requires
        keys_sorted(entries),
    ensures
        keys_unique(entries),
{
    assert forall|i: int, j: int| 0 <= i < j < entries.len() implies #[trigger] entries[i].0@ != #[trigger] entries[j].0@ by {
        lemma_text_lt_irreflexive(entries[i].0@);
    }
}

proof fn lemma_provider_at(entries: Seq<(String, String)>, i: int)
    requires
        keys_unique(entries),
        0 <= i < entries.len(),
    ensures
        provider(entries, entries[i].0@) == Some(entries[i].1@),
    decreases i,
{
    if i > 0 {
        let rest = entries.drop_first();
        assert(entries[0].0@ != entries[i].0@);
        assert(rest[i - 1] == entries[i]);
        assert forall|a: int, b: int| 0 <= a < b < rest.len() implies #[trigger] rest[a].0@ != #[trigger] rest[b].0@ by {
            assert(rest[a] == entries[a + 1] && rest[b] == entries[b + 1]);
        }
        lemma_provider_at(rest, i - 1);
    }
}

impl ProviderIds {
    /// The ids as a map: each provider once, in character order of the names.
    pub open spec fn wf(&self) -> bool {
        keys_sorted(self.entries@)
    }

    /// The same ids as a map: each provider keeps the first id it had, and
    /// the providers come once each, in character order of their names.
    pub fn normalized(self) -> (r: Self)
        ensures
            r.wf(),
            keys_unique(r.entries@),
            forall|k: Seq<char>| #[trigger] provider(r.entries@, k) == provider(self.entries@, k),
    {
        let ghost e = self.entries@;
        let mut out: Vec<(String, String)> = Vec::new();
        let n = self.entries.len();
        let mut i: usize = 0;
        while i < n
            invariant
                i <= n,
                n == e.len(),
                e == self.entries@,
                keys_sorted(out@),
                forall|k: Seq<char>| #[trigger] provider(out@, k) == provider(e.take(i as int), k),
            decreases n - i,
        {
            let ghost before = out@;
            proof {
                lemma_sorted_unique(before);
            }
            assert(e.take(i + 1) =~= e.take(i as int).push(e[i as int]));
            let key = self.entries[i].0.as_str();
            let len = out.len();
            let mut p: usize = 0;
            while p < len && text_less(out[p].0.as_str(), key)
                invariant
                    p <= len,
                    len == out@.len(),
                    out@ == before,
                    forall|t: int| 0 <= t < p ==> text_lt(#[trigger] out@[t].0@, key@),
                decreases len - p,
            {
                p = p + 1;
            }
            let present = p < len && str_eq(out[p].0.as_str(), key);
            proof {
                if !present {
                    // Nothing in `out` names the key: before `p` every name is
                    // smaller, from `p` on every name is larger.
                    assert forall|t: int| 0 <= t < before.len() implies #[trigger] before[t].0@ != key@ by {
                        if t < p {
                            lemma_text_lt_irreflexive(key@);
                        } else {
                            lemma_text_lt_total(before[p as int].0@, key@);
                            if t > p {
                                lemma_text_lt_irreflexive(key@);
                                if before[t].0@ == key@ {
                                    lemma_text_lt_transitive(key@, before[p as int].0@, key@);
                                }
                            }
                        }
                    }
                    lemma_provider_none(before, key@);
                }
            }
            if !present {
                let entry = (self.entries[i].0.clone(), self.entries[i].1.clone());
                out.insert(p, entry);
                proof {
                    let after = out@;
                    assert(after == before.insert(p as int, entry));
                    lemma_text_lt_irreflexive(key@);
                    if p < len {
                        lemma_text_lt_total(before[p as int].0@, key@);
                    }
                    assert forall|a: int, b: int| 0 <= a < b < after.len() implies text_lt(#[trigger] after[a].0@, #[trigger] after[b].0@) by {
                        if b < p {
                            assert(after[a] == before[a] && after[b] == before[b]);
                        } else if b == p {
                            assert(after[a] == before[a]);
                        } else if a < p {
                            assert(after[a] == before[a] && after[b] == before[b - 1]);
                            lemma_text_lt_transitive(before[a].0@, key@, before[p as int].0@);
                            if b - 1 > p {
                                lemma_text_lt_transitive(before[a].0@, before[p as int].0@, before[b - 1].0@);
                            }
                        } else if a == p {
                            assert(after[b] == before[b - 1]);
                            if b - 1 > p {
                                lemma_text_lt_transitive(key@, before[p as int].0@, before[b - 1].0@);
                            }
                        } else {
                            assert(after[a] == before[a - 1] && after[b] == before[b - 1]);
                        }
                    }
                    lemma_sorted_unique(after);
                    assert forall|k: Seq<char>| #[trigger] provider(after, k) == provider(e.take(i + 1), k) by {
                        lemma_provider_push(e.take(i as int), e[i as int], k);
                        if k == key@ {
                            lemma_provider_at(after, p as int);
                        } else if exists|t: int| 0 <= t < before.len() && #[trigger] before[t].0@ == k {
                            let t = choose|t: int| 0 <= t < before.len() && #[trigger] before[t].0@ == k;
                            lemma_provider_at(before, t);
                            if t < p {
                                assert(after[t] == before[t]);
                                lemma_provider_at(after, t);
                            } else {
                                assert(after[t + 1] == before[t]);
                                lemma_provider_at(after, t + 1);
                            }
                        } else {
                            lemma_provider_none(before, k);
                            assert forall|t: int| 0 <= t < after.len() implies #[trigger] after[t].0@ != k by {
                                if t < p {
                                    assert(after[t] == before[t]);
                                } else if t > p {
                                    assert(after[t] == before[t - 1]);
                                }
                            }
                            lemma_provider_none(after, k);
                        }
                    }
                }
            } else {
                proof {
                    lemma_provider_at(before, p as int);
                    assert forall|k: Seq<char>| #[trigger] provider(out@, k) == provider(e.take(i + 1), k) by {
                        lemma_provider_push(e.take(i as int), e[i as int], k);
                    }
                }
            }
            i = i + 1;
        }
        assert(e.take(n as int) =~= e);
        proof {
            lemma_sorted_unique(out@);
        }
        ProviderIds { entries: out }
    }

    /// The id stored for a provider.
    pub fn get(&self, key: &str) -> (r: Option<String>)
        ensures
            match r {
                Some(s) => provider(self.entries@, key@) == Some(s@),
                None => provider(self.entries@, key@) is None,
            },
    {
        let n = self.entries.len();
        let mut i: usize = 0;
        assert(self.entries@.subrange(0, n as int) =~= self.entries@);
        while i < n
            invariant
                i <= n,
                n == self.entries@.len(),
                provider(self.entries@, key@) == provider(self.entries@.subrange(i as int, n as int), key@),
            decreases n - i,
        {
            assert(self.entries@.subrange(i as int, n as int).drop_first() =~= self.entries@.subrange(
                i + 1,
                n as int,
            ));
            if str_eq(self.entries[i].0.as_str(), key) {
                return Some(self.entries[i].1.clone());
            }
            i = i + 1;
        }
        None
    }

    /// Whether a provider has an id.
    pub fn contains(&self, key: &str) -> (r: bool)
        ensures
            r == (provider(self.entries@, key@) is Some),
    {
        self.get(key).is_some()
    }
}

/// The id of the first of `keys` that is stored (`provider_value`).
pub fn provider_value(providers: &ProviderIds, keys: &[&str]) -> (r: Option<String>)
    ensures
        match r {
            Some(s) => provider_first(providers.entries@, keys@.map_values(|k: &str| k@)) == Some(s@),
            None => provider_first(providers.entries@, keys@.map_values(|k: &str| k@)) is None,
        },
{
    let ghost kv = keys@.map_values(|k: &str| k@);
    let n = keys.len();
    let mut i: usize = 0;
    assert(kv.subrange(0, n as int) =~= kv);
    while i < n
        invariant
            i <= n,
            n == keys@.len(),
            kv == keys@.map_values(|k: &str| k@),
            provider_first(providers.entries@, kv) == provider_first(providers.entries@, kv.subrange(i as int, n as int)),
        decreases n - i,
    {
        assert(kv.subrange(i as int, n as int).drop_first() =~= kv.subrange(i + 1, n as int));
        let v = providers.get(keys[i]);
        if v.is_some() {
            return v;
        }
        i = i + 1;
    }
    None
}

/// `merged` holds the ids of `base` and, for providers `base` lacks, those of `extra`.
pub open spec fn merged_providers(base: Seq<(String, String)>, extra: Seq<(String, String)>, merged: Seq<(String, String)>) -> bool {
    forall|k: Seq<char>|
        #[trigger] provider(merged, k) == match provider(base, k) {
            Some(v) => Some(v),
            None => provider(extra, k),
        }
}

pub proof fn lemma_provider_push(entries: Seq<(String, String)>, e: (String, String), k: Seq<char>)
    ensures
        provider(entries.push(e), k) == match provider(entries, k) {
            Some(v) => Some(v),
            None => if e.0@ == k {
                Some(e.1@)
            } else {
                None
            },
        },
    decreases entries.len(),
{
    let pushed = entries.push(e);
    if entries.len() > 0 {
        assert(pushed.drop_first() =~= entries.drop_first().push(e));
        assert(pushed[0] == entries[0]);
        lemma_provider_push(entries.drop_first(), e, k);
    } else {
        let empty = Seq::<(String, String)>::empty();
        assert(pushed.drop_first() =~= empty);
        assert(pushed[0] == e);
        assert(provider(empty, k) is None);
        assert(provider(entries, k) is None);
    }
}

/// The same, before the ids are made a map.
fn set_provider_any(ids: &ProviderIds, key: &str, value: String) -> (r: ProviderIds)
    ensures
        forall|k: Seq<char>|
            #[trigger] provider(r.entries@, k) == if k == key@ {
                Some(value@)
            } else {
                provider(ids.entries@, k)
            },
{
    let ghost e = ids.entries@;
    let mut out: Vec<(String, String)> = Vec::new();
    let n = ids.entries.len();
    let mut i: usize = 0;
    while i < n
        invariant
            i <= n,
            n == e.len(),
            e == ids.entries@,
            provider(out@, key@) is None,
            forall|k: Seq<char>| k != key@ ==> #[trigger] provider(out@, k) == provider(e.take(i as int), k),
        decreases n - i,
    {
        let ghost before = out@;
        assert(e.take(i + 1) =~= e.take(i as int).push(e[i as int]));
        if !str_eq(ids.entries[i].0.as_str(), key) {
            let entry = (ids.entries[i].0.clone(), ids.entries[i].1.clone());
            out.push(entry);
            proof {
                assert forall|k: Seq<char>| k != key@ implies #[trigger] provider(out@, k) == provider(e.take(i + 1), k) by {
                    lemma_provider_push(before, entry, k);
                    lemma_provider_push(e.take(i as int), e[i as int], k);
                }
                lemma_provider_push(before, entry, key@);
            }
        } else {
            proof {
                assert forall|k: Seq<char>| k != key@ implies #[trigger] provider(out@, k) == provider(e.take(i + 1), k) by {
                    lemma_provider_push(e.take(i as int), e[i as int], k);
                }
            }
        }
        i = i + 1;
    }
    assert(e.take(n as int) =~= e);
    let ghost before = out@;
    let entry = (owned(key), value);
    out.push(entry);
    proof {
        assert forall|k: Seq<char>| #[trigger] provider(out@, k) == if k == key@ {
            Some(entry.1@)
        } else {
            provider(e, k)
        } by {
            lemma_provider_push(before, entry, k);
        }
    }
    ProviderIds { entries: out }
}

/// The ids with `key` set to `value`, replacing the id it had
/// (`insert` on the provider map).
/// The result is a map: each provider once, in name order (see
/// `ProviderIds::normalized`).
pub fn set_provider(ids: &ProviderIds, key: &str, value: String) -> (r: ProviderIds)
    ensures
        forall|k: Seq<char>|
            #[trigger] provider(r.entries@, k) == if k == key@ {
                Some(value@)
            } else {
                provider(ids.entries@, k)
            },
        r.wf(),
{
    set_provider_any(ids, key, value).normalized()
}

/// The same, before the ids are made a map.
fn merge_provider_ids_any(base: ProviderIds, extra: &ProviderIds) -> (r: ProviderIds)
    ensures
        merged_providers(base.entries@, extra.entries@, r.entries@),
{
    let ghost b = base.entries@;
    let mut out = base;
    let n = extra.entries.len();
    let mut i: usize = 0;
    while i < n
        invariant
            i <= n,
            n == extra.entries@.len(),
            forall|k: Seq<char>|
                #[trigger] provider(out.entries@, k) == match provider(b, k) {
                    Some(v) => Some(v),
                    None => provider(extra.entries@.take(i as int), k),
                },
        decreases n - i,
    {
        let ghost before = out.entries@;
        let key = extra.entries[i].0.as_str();
        if !out.contains(key) {
            let e = (extra.entries[i].0.clone(), extra.entries[i].1.clone());
            out.entries.push(e);
        }
        proof {
            assert forall|k: Seq<char>|
                #[trigger] provider(out.entries@, k) == match provider(b, k) {
                    Some(v) => Some(v),
                    None => provider(extra.entries@.take(i + 1), k),
                } by {
                lemma_provider_push(extra.entries@.take(i as int), extra.entries@[i as int], k);
                assert(extra.entries@.take(i + 1) =~= extra.entries@.take(i as int).push(extra.entries@[i as int]));
                if out.entries@.len() != before.len() {
                    lemma_provider_push(before, extra.entries@[i as int], k);
                    assert(out.entries@ =~= before.push(extra.entries@[i as int]));
                }
            }
        }
        i = i + 1;
    }
    proof {
        assert(extra.entries@.take(n as int) =~= extra.entries@);
    }
    out
}

/// Adds the ids of `extra` for providers that `base` lacks
/// (`entry(..).or_insert(..)` for each).
/// The result is a map: each provider once, in name order (see
/// `ProviderIds::normalized`).
pub fn merge_provider_ids(base: ProviderIds, extra: &ProviderIds) -> (r: ProviderIds)
    ensures
        merged_providers(base.entries@, extra.entries@, r.entries@),
        r.wf(),
{
    merge_provider_ids_any(base, extra).normalized()
}

/// (provider, id) pairs as texts.
pub open spec fn pair_views(e: Seq<(String, String)>) -> Seq<(Seq<char>, Seq<char>)> {
    e.map_values(|p: (String, String)| (p.0@, p.1@))
}

/// The provider ids stored in a JSON object, in order: string values as
/// they are, integers in decimal, other values skipped.
pub open spec fn json_providers(entries: Seq<(String, JsonScalar)>) -> Seq<(Seq<char>, Seq<char>)>
    decreases entries.len(),
{
    if entries.len() == 0 {
        Seq::empty()
    } else {
        let prev = json_providers(entries.drop_last());
        let (k, v) = entries.last();
        match v {
            JsonScalar::Str(s) => prev.push((k@, s@)),
            JsonScalar::Int(n) => prev.push((k@, int_decimal(n as int))),
            _ => prev,
        }
    }
}

/// The provider ids stored in a JSON object, as `json_providers` states.
pub fn provider_ids_to_map(fields: &JsonFields) -> (r: ProviderIds)
    ensures
        pair_views(r.entries@) == json_providers(fields.entries@),
{
    let ghost fe = fields.entries@;
    let mut entries: Vec<(String, String)> = Vec::new();
    let n = fields.entries.len();
    let mut i: usize = 0;
    assert(fe.take(0) =~= Seq::<(String, JsonScalar)>::empty());
    while i < n
        invariant
            i <= n,
            n == fe.len(),
            fe == fields.entries@,
            pair_views(entries@) == json_providers(fe.take(i as int)),
        decreases n - i,
    {
        proof {
            assert(fe.take(i + 1).drop_last() =~= fe.take(i as int));
            assert(fe.take(i + 1).last() == fe[i as int]);
        }
        let value = match &fields.entries[i].1 {
            JsonScalar::Str(s) => Some(s.clone()),
            JsonScalar::Int(v) => Some(i64_to_string(*v)),
            _ => None,
        };
        if let Some(v) = value {
            let ghost before = pair_views(entries@);
            entries.push((fields.entries[i].0.clone(), v));
            assert(pair_views(entries@) =~= before.push((fe[i as int].0@, v@)));
        }
        i = i + 1;
    }
    assert(fe.take(n as int) =~= fe);
    ProviderIds { entries }
}

/// What identifies a catalogue item: its type, names, place and numbering.
/// `premiere_date` is the first-aired date in its `YYYY-MM-DD` form.
pub struct IdentityItem {
    pub id: u128,
    pub item_type: String,
    pub name: String,
    pub series_name: Option<String>,
    pub path: String,
    pub production_year: Option<i32>,
    pub index_number: Option<i32>,
    pub index_number_end: Option<i32>,
    pub parent_index_number: Option<i32>,
    pub premiere_date: Option<String>,
}

/// The provider names under which a TMDb id is stored.
pub open spec fn tmdb_keys() -> Seq<Seq<char>> {
    seq!["Tmdb"@, "TMDb"@, "tmdb"@]
}

/// The provider names under which an IMDb id is stored.
pub open spec fn imdb_keys() -> Seq<Seq<char>> {
    seq!["Imdb"@, "IMDb"@, "imdb"@]
}

/// The provider names under which a TVDB id is stored.
pub open spec fn tvdb_keys() -> Seq<Seq<char>> {
    seq!["Tvdb"@, "TVDb"@, "tvdb"@]
}

/// The provider names under which a Trakt id is stored.
pub open spec fn trakt_keys() -> Seq<Seq<char>> {
    seq!["Trakt"@, "trakt"@]
}

/// Decimal text of an optional number, zero when absent.
pub open spec fn num_text(n: Option<i32>) -> Seq<char> {
    match n {
        Some(v) => int_decimal(v as int),
        None => int_decimal(0),
    }
}

/// The name an item is recognised by when no provider id is known: the
/// series name when it is not blank, the item's own name for a series,
/// else the name of the folder holding the item.
pub open spec fn name_candidate(item: IdentityItem) -> Option<Seq<char>> {
    if item.series_name is Some && !is_blank(item.series_name->0@) {
        Some(item.series_name->0@)
    } else if item.item_type@ == "Series"@ {
        Some(item.name@)
    } else {
        parent_name_of(item.path@)
    }
}

/// A name reduced for comparison: trimmed and in ASCII lower case;
/// nothing when it is blank.
pub open spec fn identity_text(v: Option<Seq<char>>) -> Option<Seq<char>> {
    match v {
        Some(t) => if trim_seq(t).len() == 0 {
            None
        } else {
            Some(ascii_lower_seq(trim_seq(t)))
        },
        None => None,
    }
}

/// The identity of an item by name and year, when it has a usable name.
pub open spec fn fallback_base(item: IdentityItem) -> Option<Seq<char>> {
    match identity_text(name_candidate(item)) {
        Some(n) => Some(
            identity_scope(item.item_type@) + ":name:"@ + n + ":year:"@ + num_text(item.production_year),
        ),
        None => None,
    }
}

/// The identity of an item by the first provider id known of TMDb, IMDb
/// and TVDB, in that order.
pub open spec fn provider_base(item_type: Seq<char>, entries: Seq<(String, String)>) -> Option<Seq<char>> {
    let scope = identity_scope(item_type);
    match provider_first(entries, tmdb_keys()) {
        Some(v) => Some(scope + ":tmdb:"@ + v),
        None => match provider_first(entries, imdb_keys()) {
            Some(v) => Some(scope + ":imdb:"@ + v),
            None => match provider_first(entries, tvdb_keys()) {
                Some(v) => Some(scope + ":tvdb:"@ + v),
                None => None,
            },
        },
    }
}

/// The identity key of an item: its provider or name identity, refined by
/// the season number for a season and by season and episode numbers (or
/// the air date, when it has no episode numbers) for an episode.
pub open spec fn identity_key_of(item: IdentityItem, entries: Seq<(String, String)>) -> Option<Seq<char>> {
    let base = match provider_base(item.item_type@, entries) {
        Some(b) => Some(b),
        None => fallback_base(item),
    };
    match base {
        None => None,
        Some(b) => if item.item_type@ == "Season"@ {
            Some(b + ":season:"@ + num_text(item.index_number))
        } else if item.item_type@ == "Episode"@ {
            if item.index_number is None && item.index_number_end is None && item.premiere_date is Some {
                Some(b + ":aired:"@ + item.premiere_date->0@)
            } else {
                Some(
                    b + ":season:"@ + num_text(item.parent_index_number) + ":episode:"@ + num_text(
                        item.index_number,
                    ) + ":"@ + num_text(item.index_number_end),
                )
            }
        } else {
            Some(b)
        },
    }
}

/// Decimal text of an optional number, as `num_text` states.
fn num_string(n: Option<i32>) -> (r: String)
    ensures
        r@ == num_text(n),
{
    match n {
        Some(v) => i64_to_string(v as i64),
        None => i64_to_string(0),
    }
}

/// Concatenation of two texts.
fn concat2(a: &str, b: &str) -> (r: String)
    ensures
        r@ == a@ + b@,
{
    let mut out = owned(a);
    out.append(b);
    out
}

/// Concatenation of three texts.
fn concat3(a: &str, b: &str, c: &str) -> (r: String)
    ensures
        r@ == a@ + b@ + c@,
{
    let mut out = owned(a);
    out.append(b);
    out.append(c);
    out
}

/// The first provider id stored under one of three names.
pub(crate) fn provider_of(providers: &ProviderIds, a: &str, b: &str, c: &str) -> (r: Option<String>)
    ensures
        opt_string(r) == provider_first(providers.entries@, seq![a@, b@, c@]),
{
    let keys: Vec<&str> = vec![a, b, c];
    let r = provider_value(providers, keys.as_slice());
    assert(keys@.map_values(|k: &str| k@) =~= seq![a@, b@, c@]);
    r
}

/// A name reduced for comparison, as `identity_text` states.
pub fn normalized_identity_text(value: Option<&str>) -> (r: Option<String>)
    ensures
        opt_string(r) == identity_text(opt_str(value)),
{
    match value {
        Some(v) => {
            let t = trim(v);
            if t.unicode_len() == 0 {
                None
            } else {
                Some(to_ascii_lowercase(t))
            }
        },
        None => None,
    }
}

/// The name an item is recognised by, as `name_candidate` states.
pub fn identity_name_candidate(item: &IdentityItem) -> (r: Option<String>)
    ensures
        opt_string(r) == name_candidate(*item),
{
    match &item.series_name {
        Some(s) => {
            if !is_blank_str(s.as_str()) {
                return Some(s.clone());
            }
        },
        None => {},
    }
    if str_eq(item.item_type.as_str(), "Series") {
        Some(item.name.clone())
    } else {
        parent_folder_name(item.path.as_str())
    }
}

/// The identity of an item by name and year, as `fallback_base` states.
pub fn fallback_item_identity_base(item: &IdentityItem) -> (r: Option<String>)
    ensures
        opt_string(r) == fallback_base(*item),
{
    let candidate = identity_name_candidate(item);
    let normalized = match &candidate {
        Some(c) => normalized_identity_text(Some(c.as_str())),
        None => normalized_identity_text(None),
    };
    match normalized {
        Some(n) => {
            let scope = item_identity_scope(item.item_type.as_str());
            let mut out = concat3(scope, ":name:", n.as_str());
            let year = num_string(item.production_year);
            out.append(":year:");
            out.append(year.as_str());
            Some(out)
        },
        None => None,
    }
}

/// The identity key of an item, as `identity_key_of` states; nothing when
/// the item has neither a provider id nor a usable name.
pub fn item_identity_key(item: &IdentityItem, providers: &ProviderIds) -> (r: Option<String>)
    ensures
        opt_string(r) == identity_key_of(*item, providers.entries@),
{
    let scope = item_identity_scope(item.item_type.as_str());
    let tmdb = provider_of(providers, "Tmdb", "TMDb", "tmdb");
    let base = match tmdb {
        Some(v) => Some(concat3(scope, ":tmdb:", v.as_str())),
        None => match provider_of(providers, "Imdb", "IMDb", "imdb") {
            Some(v) => Some(concat3(scope, ":imdb:", v.as_str())),
            None => match provider_of(providers, "Tvdb", "TVDb", "tvdb") {
                Some(v) => Some(concat3(scope, ":tvdb:", v.as_str())),
                None => None,
            },
        },
    };
    let base = match base {
        Some(b) => Some(b),
        None => fallback_item_identity_base(item),
    };
    match base {
        None => None,
        Some(b) => {
            if str_eq(item.item_type.as_str(), "Season") {
                let n = num_string(item.index_number);
                Some(concat3(b.as_str(), ":season:", n.as_str()))
            } else if str_eq(item.item_type.as_str(), "Episode") {
                if item.index_number.is_none() && item.index_number_end.is_none() {
                    if let Some(date) = &item.premiere_date {
                        return Some(concat3(b.as_str(), ":aired:", date.as_str()));
                    }
                }
                let p = num_string(item.parent_index_number);
                let i = num_string(item.index_number);
                let e = num_string(item.index_number_end);
                let mut out = concat3(b.as_str(), ":season:", p.as_str());
                out.append(":episode:");
                out.append(i.as_str());
                out.append(":");
                out.append(e.as_str());
                Some(out)
            } else {
                Some(b)
            }
        },
    }
}

/// The text an item's derived ids are computed from when it has no
/// identity key: its own id, with season and episode numbers where they apply.
pub open spec fn own_source(item: IdentityItem) -> Seq<char> {
    let own = "item:"@ + hyphenated_form(item.id);
    if item.item_type@ == "Season"@ {
        own + ":season:"@ + num_text(item.index_number)
    } else if item.item_type@ == "Episode"@ {
        own + ":season:"@ + num_text(item.parent_index_number) + ":episode:"@ + num_text(
            item.index_number,
        ) + ":"@ + num_text(item.index_number_end)
    } else {
        own
    }
}

/// The text an item's derived ids are computed from: its identity key, or
/// else `own_source`.
pub open spec fn identity_source(item: IdentityItem, entries: Seq<(String, String)>) -> Seq<char> {
    match identity_key_of(item, entries) {
        Some(k) => k,
        None => own_source(item),
    }
}

/// The id derived from an item's identity: the name-based (version 5,
/// URL namespace) id of `identity_source`.
pub open spec fn identity_uuid(item: IdentityItem, entries: Seq<(String, String)>) -> u128 {
    uuid_v5_of(NAMESPACE_URL_ID, encode_utf8(identity_source(item, entries)))
}

/// The text ids are derived from, as `identity_source` states.
fn identity_source_text(item: &IdentityItem, providers: &ProviderIds) -> (r: String)
    ensures
        r@ == identity_source(*item, providers.entries@),
{
    match item_identity_key(item, providers) {
        Some(k) => k,
        None => {
            let id = hyphenated_id(item.id);
            let mut out = owned("item:");
            out.append(id.as_str());
            if str_eq(item.item_type.as_str(), "Season") {
                let n = num_string(item.index_number);
                out.append(":season:");
                out.append(n.as_str());
            } else if str_eq(item.item_type.as_str(), "Episode") {
                let p = num_string(item.parent_index_number);
                let i = num_string(item.index_number);
                let e = num_string(item.index_number_end);
                out.append(":season:");
                out.append(p.as_str());
                out.append(":episode:");
                out.append(i.as_str());
                out.append(":");
                out.append(e.as_str());
            }
            out
        },
    }
}

/// The presentation key for a derived id: its 32-digit form followed by `_`.
pub fn presentation_key_text(id: u128) -> (r: String)
    ensures
        r@ == simple_form(id) + "_"@,
{
    let mut out = simple_id(id);
    out.append("_");
    out
}

/// The key by which clients group an item with its duplicates: the
/// 32-digit form of `identity_uuid`, followed by `_`.
pub fn presentation_unique_key(item: &IdentityItem, providers: &ProviderIds) -> (r: String)
    ensures
        r@ == simple_form(identity_uuid(*item, providers.entries@)) + "_"@,
{
    let source = identity_source_text(item, providers);
    let id = uuid_v5(NAMESPACE_URL_ID, source.as_str().as_bytes());
    presentation_key_text(id)
}

/// The id of the box set that groups an item's versions: the version 5 id,
/// in the URL namespace, of `boxset:` followed by the item's presentation
/// key.
pub fn boxset_id(item: &IdentityItem, providers: &ProviderIds) -> (r: u128)
    ensures
        r == uuid_v5_of(
            NAMESPACE_URL_ID,
            encode_utf8("boxset:"@ + simple_form(identity_uuid(*item, providers.entries@)) + "_"@),
        ),
{
    let key = presentation_unique_key(item, providers);
    let mut name = owned("boxset:");
    name.append(key.as_str());
    assert(name@ =~= "boxset:"@ + simple_form(identity_uuid(*item, providers.entries@)) + "_"@);
    uuid_v5(NAMESPACE_URL_ID, name.as_str().as_bytes())
}

/// The id under which display preferences of an item are kept: the
/// 32-digit form of `identity_uuid`.
pub fn display_preferences_id(item: &IdentityItem, providers: &ProviderIds) -> (r: String)
    ensures
        r@ == simple_form(identity_uuid(*item, providers.entries@)),
{
    let source = identity_source_text(item, providers);
    let id = uuid_v5(NAMESPACE_URL_ID, source.as_str().as_bytes());
    simple_id(id)
}

/// The key by which duplicate items are recognised: the identity key, or
/// the item's own id when it has none.
pub open spec fn dedup_key(item: IdentityItem, entries: Seq<(String, String)>) -> Seq<char> {
    match identity_key_of(item, entries) {
        Some(k) => k,
        None => "item:"@ + hyphenated_form(item.id),
    }
}

/// The items of (item, provider ids) pairs.
pub open spec fn pair_items(pairs: Seq<(IdentityItem, ProviderIds)>) -> Seq<IdentityItem> {
    pairs.map_values(|p: (IdentityItem, ProviderIds)| p.0)
}

/// The duplicate keys of (item, provider ids) pairs.
pub open spec fn pair_keys(pairs: Seq<(IdentityItem, ProviderIds)>) -> Seq<Seq<char>> {
    pairs.map_values(|p: (IdentityItem, ProviderIds)| dedup_key(p.0, p.1.entries@))
}

/// The elements of `items` whose key (at the same position in `keys`)
/// does not occur earlier, in order.
pub open spec fn first_occurrences<A>(items: Seq<A>, keys: Seq<Seq<char>>) -> Seq<A>
    decreases items.len(),
{
    if items.len() == 0 {
        Seq::empty()
    } else {
        let prev = first_occurrences(items.drop_last(), keys.drop_last());
        if keys.drop_last().contains(keys[items.len() - 1]) {
            prev
        } else {
            prev.push(items.last())
        }
    }
}

pub proof fn lemma_push_contains<A>(s: Seq<A>, x: A, k: A)
    ensures
        s.push(x).contains(k) <==> (s.contains(k) || x == k),
{
    if s.push(x).contains(k) {
        let j = choose|j: int| 0 <= j < s.push(x).len() && #[trigger] s.push(x)[j] == k;
        if j < s.len() {
            assert(s[j] == k);
        }
    }
    if s.contains(k) {
        let j = choose|j: int| 0 <= j < s.len() && #[trigger] s[j] == k;
        assert(s.push(x)[j] == k);
    }
    if x == k {
        assert(s.push(x)[s.len() as int] == k);
    }
}

/// Whether a text is among the given texts.
fn contains_text(texts: &Vec<String>, t: &str) -> (r: bool)
    ensures
        r == views(texts@).contains(t@),
{
    let n = texts.len();
    let mut i: usize = 0;
    while i < n
        invariant
            i <= n,
            n == texts@.len(),
            forall|j: int| 0 <= j < i ==> texts@[j]@ != t@,
        decreases n - i,
    {
        if str_eq(texts[i].as_str(), t) {
            assert(views(texts@)[i as int] == t@);
            return true;
        }
        i = i + 1;
    }
    proof {
        if views(texts@).contains(t@) {
            let j = choose|j: int| 0 <= j < views(texts@).len() && #[trigger] views(texts@)[j] == t@;
            assert(texts@[j]@ == t@);
        }
    }
    false
}

/// The duplicate key of an item, as `dedup_key` states.
pub(crate) fn dedup_key_text(item: &IdentityItem, providers: &ProviderIds) -> (r: String)
    ensures
        r@ == dedup_key(*item, providers.entries@),
{
    match item_identity_key(item, providers) {
        Some(k) => k,
        None => {
            let id = hyphenated_id(item.id);
            let mut out = owned("item:");
            out.append(id.as_str());
            out
        },
    }
}

/// Keeps the first item of each duplicate key, in order
/// (`first_occurrences` of the items by `pair_keys`).
pub fn deduplicate_media_items(items: Vec<(IdentityItem, ProviderIds)>) -> (r: Vec<IdentityItem>)
    ensures
        r@ == first_occurrences(pair_items(items@), pair_keys(items@)),
{
    let ghost all = items@;
    let ghost firsts = pair_items(all);
    let ghost keys = pair_keys(all);
    let mut seen: Vec<String> = Vec::new();
    let mut unique: Vec<IdentityItem> = Vec::new();
    for pair in it: items
        invariant
            it.seq() == all,
            firsts == pair_items(all),
            keys == pair_keys(all),
            unique@ == first_occurrences(firsts.take(it.index() as int), keys.take(it.index() as int)),
            views(seen@) =~= first_occurrences(keys.take(it.index() as int), keys.take(it.index() as int)),
            forall|k: Seq<char>| #[trigger] keys.take(it.index() as int).contains(k) <==> views(seen@).contains(k),
    {
        let ghost i = it.index() as int;
        let key = dedup_key_text(&pair.0, &pair.1);
        let present = contains_text(&seen, key.as_str());
        proof {
            assert(firsts.take(i + 1).drop_last() =~= firsts.take(i));
            assert(keys.take(i + 1).drop_last() =~= keys.take(i));
            assert(firsts.take(i + 1).last() == pair.0);
            assert(keys.take(i + 1)[i] == key@);
            assert(keys.take(i + 1) =~= keys.take(i).push(key@));
        }
        if !present {
            let ghost before = seen@;
            seen.push(key);
            unique.push(pair.0);
            proof {
                assert(views(seen@) =~= views(before).push(key@));
                assert forall|k: Seq<char>| #[trigger] keys.take(i + 1).contains(k) <==> views(seen@).contains(k) by {
                    lemma_push_contains(keys.take(i), key@, k);
                    lemma_push_contains(views(before), key@, k);
                    assert(keys.take(i).contains(k) <==> views(before).contains(k));
                }
            }
        } else {
            proof {
                assert forall|k: Seq<char>| #[trigger] keys.take(i + 1).contains(k) <==> views(seen@).contains(k) by {
                    lemma_push_contains(keys.take(i), key@, k);
                    assert(keys.take(i).contains(k) <==> views(seen@).contains(k));
                    assert(keys.take(i).contains(key@));
                }
            }
        }
    }
    proof {
        assert(firsts.take(all.len() as int) =~= firsts);
        assert(keys.take(all.len() as int) =~= keys);
    }
    unique
}

proof fn lemma_first_occurrences_len<A, B>(a: Seq<A>, b: Seq<B>, keys: Seq<Seq<char>>)
    requires
        a.len() == keys.len(),
        b.len() == keys.len(),
    ensures
        first_occurrences(a, keys).len() == first_occurrences(b, keys).len(),
    decreases keys.len(),
{
    if keys.len() > 0 {
        lemma_first_occurrences_len(a.drop_last(), b.drop_last(), keys.drop_last());
    }
}

proof fn lemma_first_keys(keys: Seq<Seq<char>>)
    ensures
        first_occurrences(keys, keys).no_duplicates(),
        forall|k: Seq<char>| #[trigger] keys.contains(k) <==> first_occurrences(keys, keys).contains(k),
    decreases keys.len(),
{
    if keys.len() > 0 {
        let prefix = keys.drop_last();
        let last = keys[keys.len() - 1];
        lemma_first_keys(prefix);
        assert(keys =~= prefix.push(last));
        let prev = first_occurrences(prefix, prefix);
        assert forall|k: Seq<char>| #[trigger] keys.contains(k) <==> first_occurrences(keys, keys).contains(k) by {
            lemma_push_contains(prefix, last, k);
            lemma_push_contains(prev, last, k);
            assert(prefix.contains(k) <==> prev.contains(k));
        }
        if !prefix.contains(last) {
            assert(!prev.contains(last));
            let now = prev.push(last);
            assert forall|i: int, j: int| 0 <= i < now.len() && 0 <= j < now.len() && i != j implies now[i] != now[j] by {
                if i < prev.len() && j < prev.len() {
                    assert(now[i] == prev[i] && now[j] == prev[j]);
                } else if i < prev.len() {
                    assert(prev.contains(now[i]));
                } else {
                    assert(prev.contains(now[j]));
                }
            }
        }
    }
}

/// Deduplication keeps one item per key: the keys kept are distinct, every
/// key of the input is kept, and as many items are kept as keys.
pub proof fn law_dedup_one_per_key(pairs: Seq<(IdentityItem, ProviderIds)>)
    ensures
        first_occurrences(pair_keys(pairs), pair_keys(pairs)).no_duplicates(),
        forall|k: Seq<char>|
            #[trigger] pair_keys(pairs).contains(k) <==> first_occurrences(
                pair_keys(pairs),
                pair_keys(pairs),
            ).contains(k),
        first_occurrences(pair_items(pairs), pair_keys(pairs)).len() == first_occurrences(
            pair_keys(pairs),
            pair_keys(pairs),
        ).len(),
{
    lemma_first_keys(pair_keys(pairs));
    lemma_first_occurrences_len(pair_items(pairs), pair_keys(pairs), pair_keys(pairs));
}

/// Deduplicating distinct keys again changes nothing.
pub proof fn law_dedup_idempotent(keys: Seq<Seq<char>>)
    ensures
        first_occurrences(
            first_occurrences(keys, keys),
            first_occurrences(keys, keys),
        ) == first_occurrences(keys, keys),
{
    lemma_first_keys(keys);
    lemma_distinct_kept(first_occurrences(keys, keys));
}

proof fn lemma_distinct_kept(keys: Seq<Seq<char>>)
    requires
        keys.no_duplicates(),
    ensures
        first_occurrences(keys, keys) == keys,
    decreases keys.len(),
{
    if keys.len() > 0 {
        let prefix = keys.drop_last();
        assert(prefix.no_duplicates());
        lemma_distinct_kept(prefix);
        if prefix.contains(keys[keys.len() - 1]) {
            let j = choose|j: int| 0 <= j < prefix.len() && #[trigger] prefix[j] == keys[keys.len() - 1];
            assert(keys[j] == keys[keys.len() - 1]);
        }
        assert(keys =~= prefix.push(keys.last()));
    }
}

/// Whether a candidate has the identity key `target` (never when there is
/// no target).
pub fn same_item_identity(target_identity: Option<&str>, candidate: &IdentityItem, providers: &ProviderIds) -> (r: bool)
    ensures
        r == match target_identity {
            Some(t) => identity_key_of(*candidate, providers.entries@) == Some(t@),
            None => false,
        },
{
    match target_identity {
        None => false,
        Some(t) => match item_identity_key(candidate, providers) {
            Some(k) => str_eq(k.as_str(), t),
            None => false,
        },
    }
}

/// A link to an item's page on an outside catalogue.
pub struct ExternalUrl {
    pub name: String,
    pub url: String,
}

/// The links to outside catalogues for an item's provider ids: IMDb, then
/// TheMovieDb and Trakt by TMDb id, then TheTVDB, then Trakt by its own id;
/// series, seasons and episodes link to the TV pages.
pub open spec fn external_urls(entries: Seq<(String, String)>, item_type: Seq<char>) -> Seq<(Seq<char>, Seq<char>)> {
    let series = item_type == "Series"@ || item_type == "Season"@ || item_type == "Episode"@;
    let imdb = match provider_first(entries, imdb_keys()) {
        Some(v) => seq![("IMDb"@, "https://www.imdb.com/title/"@ + v)],
        None => Seq::empty(),
    };
    let tmdb = match provider_first(entries, tmdb_keys()) {
        Some(v) => seq![
            ("TheMovieDb"@, "https://www.themoviedb.org/"@ + (if series { "tv"@ } else { "movie"@ }) + "/"@ + v),
            ("Trakt"@, "https://trakt.tv/search/tmdb/"@ + v + "?id_type="@ + (if series { "show"@ } else { "movie"@ })),
        ],
        None => Seq::empty(),
    };
    let tvdb = match provider_first(entries, tvdb_keys()) {
        Some(v) => seq![("TheTVDB"@, "https://thetvdb.com/dereferrer/series/"@ + v)],
        None => Seq::empty(),
    };
    let trakt = match provider_first(entries, trakt_keys()) {
        Some(v) => seq![("Trakt"@, "https://trakt.tv/search/trakt/"@ + v)],
        None => Seq::empty(),
    };
    imdb + tmdb + tvdb + trakt
}

/// (name, url) texts of links.
pub open spec fn url_views(urls: Seq<ExternalUrl>) -> Seq<(Seq<char>, Seq<char>)> {
    urls.map_values(|u: ExternalUrl| (u.name@, u.url@))
}

fn push_url(urls: &mut Vec<ExternalUrl>, name: &str, url: String)
    ensures
        url_views(final(urls)@) == url_views(old(urls)@).push((name@, url@)),
{
    let ghost before = urls@;
    urls.push(ExternalUrl { name: owned(name), url });
    assert(url_views(urls@) =~= url_views(before).push((name@, url@)));
}

/// The links to outside catalogues, as `external_urls` states.
pub fn external_urls_from_provider_map(providers: &ProviderIds, item_type: &str) -> (r: Vec<ExternalUrl>)
    ensures
        url_views(r@) == external_urls(providers.entries@, item_type@),
{
    let series = str_eq(item_type, "Series") || str_eq(item_type, "Season") || str_eq(item_type, "Episode");
    let mut urls: Vec<ExternalUrl> = Vec::new();
    let ghost e = providers.entries@;
    let ghost imdb_part = match provider_first(e, imdb_keys()) {
        Some(v) => seq![("IMDb"@, "https://www.imdb.com/title/"@ + v)],
        None => Seq::<(Seq<char>, Seq<char>)>::empty(),
    };
    if let Some(imdb) = provider_of(providers, "Imdb", "IMDb", "imdb") {
        push_url(&mut urls, "IMDb", concat2("https://www.imdb.com/title/", imdb.as_str()));
    }
    assert(url_views(urls@) =~= imdb_part);
    if let Some(tmdb) = provider_of(providers, "Tmdb", "TMDb", "tmdb") {
        let kind = if series { "tv" } else { "movie" };
        let mut page = concat3("https://www.themoviedb.org/", kind, "/");
        page.append(tmdb.as_str());
        push_url(&mut urls, "TheMovieDb", page);
        let id_type = if series { "show" } else { "movie" };
        let search = concat3("https://trakt.tv/search/tmdb/", tmdb.as_str(), "?id_type=");
        let mut search = search;
        search.append(id_type);
        push_url(&mut urls, "Trakt", search);
    }
    if let Some(tvdb) = provider_of(providers, "Tvdb", "TVDb", "tvdb") {
        push_url(&mut urls, "TheTVDB", concat2("https://thetvdb.com/dereferrer/series/", tvdb.as_str()));
    }
    let keys: Vec<&str> = vec!["Trakt", "trakt"];
    let trakt = provider_value(providers, keys.as_slice());
    assert(keys@.map_values(|k: &str| k@) =~= trakt_keys());
    if let Some(trakt) = trakt {
        push_url(&mut urls, "Trakt", concat2("https://trakt.tv/search/trakt/", trakt.as_str()));
    }
    urls
}

/// A name with a numeric id derived from it.
pub struct NameLongId {
    pub name: String,
    pub id: i64,
}

/// The hash of a text under the standard library's default hasher as
/// `DefaultHasher::new` makes it (its keys are fixed, so every such hasher
/// of one build gives a text the same hash; the algorithm may change
/// between Rust releases, which is why only its name is stated).
pub uninterp spec fn default_hash_of(s: Seq<char>) -> u64;

/// Hashes a name with the standard library's default hasher
/// (`DefaultHasher::new`, `str::hash`, `finish`); the result is named
/// `default_hash_of` the name.
#[verifier::external_body]
fn default_hash_str(name: &str) -> (r: u64)
    ensures
        r == default_hash_of(name@),
{
    let mut hasher = std::collections::hash_map::DefaultHasher::new();
    std::hash::Hash::hash(name, &mut hasher);
    std::hash::Hasher::finish(&hasher)
}

/// The non-negative id for a hash: its lowest 63 bits.
pub fn long_id_from_hash(hash: u64) -> (r: i64)
    ensures
        r as int == hash as int % 0x8000_0000_0000_0000,
{
    let value: u64 = hash & 0x7FFF_FFFF_FFFF_FFFF;
    assert(hash & 0x7FFF_FFFF_FFFF_FFFF == hash % 0x8000_0000_0000_0000) by (bit_vector);
    value as i64
}

/// The id derived from a name: the lowest 63 bits of its default hash.
pub fn stable_long_id_from_name(name: &str) -> (r: i64)
    ensures
        r as int == long_id_of(name@),
{
    long_id_from_hash(default_hash_str(name))
}

/// The names that are not blank, in order.
pub open spec fn non_blank_names(names: Seq<String>) -> Seq<Seq<char>>
    decreases names.len(),
{
    if names.len() == 0 {
        Seq::empty()
    } else {
        let prev = non_blank_names(names.drop_last());
        if is_blank(names.last()@) {
            prev
        } else {
            prev.push(names.last()@)
        }
    }
}

/// The id a name is given: the lowest 63 bits of its default hash.
pub open spec fn long_id_of(name: Seq<char>) -> int {
    default_hash_of(name) as int % 0x8000_0000_0000_0000
}

/// Names with derived ids: the names that are not blank, in order, each
/// with the id `long_id_of` gives it.
pub fn name_long_id_items_from_names(names: &Vec<String>) -> (r: Vec<NameLongId>)
    ensures
        r@.map_values(|x: NameLongId| x.name@) == non_blank_names(names@),
        forall|i: int| 0 <= i < r@.len() ==> #[trigger] r@[i].id as int == long_id_of(r@[i].name@),
{
    let mut out: Vec<NameLongId> = Vec::new();
    let n = names.len();
    let mut i: usize = 0;
    while i < n
        invariant
            i <= n,
            n == names@.len(),
            out@.map_values(|x: NameLongId| x.name@) == non_blank_names(names@.take(i as int)),
            forall|j: int| 0 <= j < out@.len() ==> #[trigger] out@[j].id as int == long_id_of(out@[j].name@),
        decreases n - i,
    {
        assert(names@.take(i + 1).drop_last() =~= names@.take(i as int));
        let ghost before = out@;
        if !is_blank_str(names[i].as_str()) {
            let id = stable_long_id_from_name(names[i].as_str());
            out.push(NameLongId { name: names[i].clone(), id });
            assert(out@.map_values(|x: NameLongId| x.name@) =~= before.map_values(|x: NameLongId| x.name@).push(names@[i as int]@));
        }
        i = i + 1;
    }
    assert(names@.take(n as int) =~= names@);
    out
}

/// Genre entries with derived ids, as `name_long_id_items_from_names`.
pub fn genre_items_from_names(names: &Vec<String>) -> (r: Vec<NameLongId>)
    ensures
        r@.map_values(|x: NameLongId| x.name@) == non_blank_names(names@),
        forall|i: int| 0 <= i < r@.len() ==> #[trigger] r@[i].id as int == long_id_of(r@[i].name@),
{
    name_long_id_items_from_names(names)
}

/// The sort name of an item: its name in lower case (Unicode), preceded
/// by its season and episode numbers (four digits each, `-` after each)
/// for an episode with both, or by its index number when it has one.
pub open spec fn sort_name_of(
    name: Seq<char>,
    item_type: Seq<char>,
    parent_index_number: Option<i32>,
    index_number: Option<i32>,
) -> Seq<char> {
    let normalized = unicode_lower(name);
    if parent_index_number is Some && index_number is Some && eq_ignore_case_seq(item_type, "Episode"@) {
        int_decimal_padded(parent_index_number->0 as int, 4) + "-"@ + int_decimal_padded(index_number->0 as int, 4)
            + "-"@ + normalized
    } else if index_number is Some {
        int_decimal_padded(index_number->0 as int, 4) + "-"@ + normalized
    } else {
        normalized
    }
}

/// The sort name of an item, as `sort_name_of` states.
pub fn sort_name_for_item(
    name: &str,
    item_type: &str,
    parent_index_number: Option<i32>,
    index_number: Option<i32>,
) -> (r: String)
    ensures
        r@ == sort_name_of(name@, item_type@, parent_index_number, index_number),
{
    let normalized = to_lowercase(name);
    match (parent_index_number, index_number) {
        (Some(p), Some(i)) => if eq_ignore_ascii_case(item_type, "Episode") {
            let mut out = i64_to_padded_string(p as i64, 4);
            out.append("-");
            let idx = i64_to_padded_string(i as i64, 4);
            out.append(idx.as_str());
            out.append("-");
            out.append(normalized.as_str());
            return out;
        },
        _ => {},
    }
    match index_number {
        Some(i) => {
            let mut out = i64_to_padded_string(i as i64, 4);
            out.append("-");
            out.append(normalized.as_str());
            out
        },
        None => normalized,
    }
}

/// Items with the same identity key get the same derived id, hence the
/// same presentation key and display preferences.
pub proof fn law_same_identity_same_ids(
    a: IdentityItem,
    a_ids: Seq<(String, String)>,
    b: IdentityItem,
    b_ids: Seq<(String, String)>,
)
    requires
        identity_key_of(a, a_ids) is Some,
        identity_key_of(a, a_ids) == identity_key_of(b, b_ids),
    ensures
        identity_uuid(a, a_ids) == identity_uuid(b, b_ids),
{
}

/// Merging provider ids never replaces an id already present, and adds
/// every id of the extra set whose provider was missing.
pub proof fn law_merge_keeps_existing(
    base: Seq<(String, String)>,
    extra: Seq<(String, String)>,
    merged: Seq<(String, String)>,
    k: Seq<char>,
)
    requires
        merged_providers(base, extra, merged),
    ensures
        provider(base, k) is Some ==> provider(merged, k) == provider(base, k),
        provider(base, k) is None ==> provider(merged, k) == provider(extra, k),
{
    assert(provider(merged, k) == match provider(base, k) {
        Some(v) => Some(v),
        None => provider(extra, k),
    });
}

} // verus!
