//! An edit of an item's metadata: only the fields it gives are written, and
//! provider ids are merged and removed.

use vstd::prelude::*;
use crate::identity::{lemma_provider_push, provider, ProviderIds};
use crate::rating::{official_rating_to_value, rating_level};
use crate::text::{eq_ignore_ascii_case, eq_ignore_case_seq, str_eq, trim_seq, unicode_upper, views};

verus! {

/// Whether a removal list names the provider `k`, whatever the ASCII case
/// of either.
pub open spec fn removes(list: Seq<Seq<char>>, k: Seq<char>) -> bool {
    exists|j: int| 0 <= j < list.len() && eq_ignore_case_seq(#[trigger] list[j], k)
}

/// The provider ids after an edit: the stored ones, overwritten by those
/// the edit sets, without the providers it removes (named in any case).
pub open spec fn edited_provider(
    stored: Seq<(String, String)>,
    set: Option<Seq<(String, String)>>,
    remove: Option<Seq<Seq<char>>>,
    k: Seq<char>,
) -> Option<Seq<char>> {
    if remove matches Some(r) && removes(r, k) {
        None
    } else {
        match set {
            Some(s) => match provider(s, k) {
                Some(v) => Some(v),
                None => provider(stored, k),
            },
            None => provider(stored, k),
        }
    }
}

fn listed(list: &Vec<String>, k: &str) -> (r: bool)
    ensures
        r == removes(views(list@), k@),
{
    let n = list.len();
    let mut i: usize = 0;
    while i < n
        invariant
            i <= n,
            n == list@.len(),
            forall|j: int| 0 <= j < i ==> !eq_ignore_case_seq(#[trigger] views(list@)[j], k@),
        decreases n - i,
    {
        assert(views(list@)[i as int] == list@[i as int]@);
        if eq_ignore_ascii_case(list[i].as_str(), k) {
            return true;
        }
        i = i + 1;
    }
    false
}

/// The same, before the ids are made a map.
fn edit_provider_ids_any(stored: &ProviderIds, set: Option<&ProviderIds>, remove: Option<&Vec<String>>) -> (r:
    ProviderIds)
    ensures
        forall|k: Seq<char>|
            #[trigger] provider(r.entries@, k) == edited_provider(
                stored.entries@,
                match set {
                    Some(s) => Some(s.entries@),
                    None => None,
                },
                match remove {
                    Some(l) => Some(views(l@)),
                    None => None,
                },
                k,
            ),
{
    let ghost sv = match set {
        Some(s) => Some(s.entries@),
        None => None,
    };
    let ghost rv = match remove {
        Some(l) => Some(views(l@)),
        None => None,
    };
    let mut out: Vec<(String, String)> = Vec::new();
    let ghost empty = Seq::<(String, String)>::empty();
    // The set ids first, so that they win over the stored ones.
    match set {
        Some(s) => {
            let n = s.entries.len();
            let mut i: usize = 0;
            while i < n
                invariant
                    i <= n,
                    n == s.entries@.len(),
                    sv == Some(s.entries@),
                    rv == (match remove {
                        Some(l) => Some(views(l@)),
                        None => None,
                    }),
                    forall|k: Seq<char>|
                        #[trigger] provider(out@, k) == if rv matches Some(r) && removes(r, k) {
                            None
                        } else {
                            provider(s.entries@.take(i as int), k)
                        },
                decreases n - i,
            {
                let ghost before = out@;
                assert(s.entries@.take(i + 1) =~= s.entries@.take(i as int).push(s.entries@[i as int]));
                let key = s.entries[i].0.as_str();
                let removed = match remove {
                    Some(l) => listed(l, key),
                    None => false,
                };
                if !removed {
                    let entry = (s.entries[i].0.clone(), s.entries[i].1.clone());
                    out.push(entry);
                    assert forall|k: Seq<char>|
                        #[trigger] provider(out@, k) == if rv matches Some(r) && removes(r, k) {
                            None
                        } else {
                            provider(s.entries@.take(i + 1), k)
                        } by {
                        lemma_provider_push(before, entry, k);
                        lemma_provider_push(s.entries@.take(i as int), s.entries@[i as int], k);
                    }
                } else {
                    assert forall|k: Seq<char>|
                        #[trigger] provider(out@, k) == if rv matches Some(r) && removes(r, k) {
                            None
                        } else {
                            provider(s.entries@.take(i + 1), k)
                        } by {
                        lemma_provider_push(s.entries@.take(i as int), s.entries@[i as int], k);
                    }
                }
                i = i + 1;
            }
            assert(s.entries@.take(n as int) =~= s.entries@);
        },
        None => {},
    }
    let ghost first = out@;
    let m = stored.entries.len();
    let mut j: usize = 0;
    while j < m
        invariant
            j <= m,
            m == stored.entries@.len(),
            rv == (match remove {
                Some(l) => Some(views(l@)),
                None => None,
            }),
            forall|k: Seq<char>|
                #[trigger] provider(first, k) == if rv matches Some(r) && removes(r, k) {
                    None
                } else {
                    match sv {
                        Some(s) => provider(s, k),
                        None => None,
                    }
                },
            forall|k: Seq<char>|
                #[trigger] provider(out@, k) == if rv matches Some(r) && removes(r, k) {
                    None
                } else {
                    match provider(first, k) {
                        Some(v) => Some(v),
                        None => provider(stored.entries@.take(j as int), k),
                    }
                },
        decreases m - j,
    {
        let ghost before = out@;
        assert(stored.entries@.take(j + 1) =~= stored.entries@.take(j as int).push(stored.entries@[j as int]));
        let key = stored.entries[j].0.as_str();
        let removed = match remove {
            Some(l) => listed(l, key),
            None => false,
        };
        if !removed {
            let entry = (stored.entries[j].0.clone(), stored.entries[j].1.clone());
            out.push(entry);
            assert forall|k: Seq<char>|
                #[trigger] provider(out@, k) == if rv matches Some(r) && removes(r, k) {
                    None
                } else {
                    match provider(first, k) {
                        Some(v) => Some(v),
                        None => provider(stored.entries@.take(j + 1), k),
                    }
                } by {
                lemma_provider_push(before, entry, k);
                lemma_provider_push(stored.entries@.take(j as int), stored.entries@[j as int], k);
            }
        } else {
            assert forall|k: Seq<char>|
                #[trigger] provider(out@, k) == if rv matches Some(r) && removes(r, k) {
                    None
                } else {
                    match provider(first, k) {
                        Some(v) => Some(v),
                        None => provider(stored.entries@.take(j + 1), k),
                    }
                } by {
                lemma_provider_push(stored.entries@.take(j as int), stored.entries@[j as int], k);
            }
        }
        j = j + 1;
    }
    assert(stored.entries@.take(m as int) =~= stored.entries@);
    ProviderIds { entries: out }
}

/// The provider ids after an edit (see `edited_provider`).
/// The result is a map: each provider once, in name order (see
/// `ProviderIds::normalized`).
pub fn edit_provider_ids(stored: &ProviderIds, set: Option<&ProviderIds>, remove: Option<&Vec<String>>) -> (r:
    ProviderIds)
    ensures
        forall|k: Seq<char>|
            #[trigger] provider(r.entries@, k) == edited_provider(
                stored.entries@,
                match set {
                    Some(s) => Some(s.entries@),
                    None => None,
                },
                match remove {
                    Some(l) => Some(views(l@)),
                    None => None,
                },
                k,
            ),
        r.wf(),
{
    edit_provider_ids_any(stored, set, remove).normalized()
}

/// The editable metadata stored for an item (its ratings as numbers and
/// its dates are written alongside by the caller).
pub struct EditableMetadata {
    pub name: String,
    pub original_title: Option<String>,
    pub sort_name: Option<String>,
    pub overview: Option<String>,
    pub official_rating: Option<String>,
    pub parental_rating_value: Option<i32>,
    pub production_year: Option<i32>,
    /// The first air or release date, as `YYYY-MM-DD`.
    pub premiere_date: Option<String>,
    /// The last air date, as `YYYY-MM-DD`.
    pub end_date: Option<String>,
    pub status: Option<String>,
    pub genres: Vec<String>,
    pub tags: Vec<String>,
    pub studios: Vec<String>,
    pub production_locations: Vec<String>,
    pub taglines: Vec<String>,
    pub locked_fields: Vec<String>,
    pub lock_data: bool,
}

/// An edit: each field given is written, each left out is kept.
pub struct MetadataEdit {
    pub name: Option<String>,
    pub original_title: Option<String>,
    pub sort_name: Option<String>,
    pub overview: Option<String>,
    pub official_rating: Option<String>,
    pub production_year: Option<i32>,
    pub premiere_date: Option<String>,
    pub end_date: Option<String>,
    pub status: Option<String>,
    pub genres: Option<Vec<String>>,
    pub tags: Option<Vec<String>>,
    pub studios: Option<Vec<String>>,
    pub production_locations: Option<Vec<String>>,
    pub taglines: Option<Vec<String>>,
    pub locked_fields: Option<Vec<String>>,
    pub lock_data: Option<bool>,
}

pub open spec fn text_of(v: Option<String>) -> Option<Seq<char>> {
    match v {
        Some(s) => Some(s@),
        None => None,
    }
}

/// The edited text where the edit gives one, else the stored.
pub open spec fn kept_text(stored: Option<String>, edit: Option<String>) -> Option<Seq<char>> {
    if edit is Some {
        text_of(edit)
    } else {
        text_of(stored)
    }
}

/// The edited list where the edit gives one, else the stored.
pub open spec fn kept_list(stored: Vec<String>, edit: Option<Vec<String>>) -> Seq<Seq<char>> {
    match edit {
        Some(l) => views(l@),
        None => views(stored@),
    }
}

/// Whether `r` is the metadata after the edit: every field the edit gives
/// is written, every other kept; a new official rating also sets the
/// parental level it maps to.
pub open spec fn edited(r: EditableMetadata, m: EditableMetadata, e: MetadataEdit) -> bool {
    &&& r.name@ == (match e.name {
        Some(n) => n@,
        None => m.name@,
    })
    &&& text_of(r.original_title) == kept_text(m.original_title, e.original_title)
    &&& text_of(r.sort_name) == kept_text(m.sort_name, e.sort_name)
    &&& text_of(r.overview) == kept_text(m.overview, e.overview)
    &&& text_of(r.official_rating) == kept_text(m.official_rating, e.official_rating)
    &&& r.parental_rating_value == (match e.official_rating {
        Some(o) => rating_level(unicode_upper(trim_seq(o@))),
        None => m.parental_rating_value,
    })
    &&& r.production_year == (if e.production_year is Some {
        e.production_year
    } else {
        m.production_year
    })
    &&& text_of(r.premiere_date) == kept_text(m.premiere_date, e.premiere_date)
    &&& text_of(r.end_date) == kept_text(m.end_date, e.end_date)
    &&& text_of(r.status) == kept_text(m.status, e.status)
    &&& views(r.genres@) == kept_list(m.genres, e.genres)
    &&& views(r.tags@) == kept_list(m.tags, e.tags)
    &&& views(r.studios@) == kept_list(m.studios, e.studios)
    &&& views(r.production_locations@) == kept_list(m.production_locations, e.production_locations)
    &&& views(r.taglines@) == kept_list(m.taglines, e.taglines)
    &&& views(r.locked_fields@) == kept_list(m.locked_fields, e.locked_fields)
    &&& r.lock_data == (match e.lock_data {
        Some(b) => b,
        None => m.lock_data,
    })
}

fn pick_text(stored: Option<String>, edit: Option<String>) -> (r: Option<String>)
    ensures
        text_of(r) == kept_text(stored, edit),
{
    match edit {
        Some(v) => Some(v),
        None => stored,
    }
}

fn pick_list(stored: Vec<String>, edit: Option<Vec<String>>) -> (r: Vec<String>)
    ensures
        views(r@) == kept_list(stored, edit),
{
    match edit {
        Some(l) => l,
        None => stored,
    }
}

/// The metadata after an edit (see `edited`).
pub fn apply_metadata_edit(stored: EditableMetadata, edit: MetadataEdit) -> (r: EditableMetadata)
    ensures
        edited(r, stored, edit),
{
    let parental_rating_value = match &edit.official_rating {
        Some(o) => official_rating_to_value(o.as_str()),
        None => stored.parental_rating_value,
    };
    EditableMetadata {
        name: match edit.name {
            Some(n) => n,
            None => stored.name,
        },
        original_title: pick_text(stored.original_title, edit.original_title),
        sort_name: pick_text(stored.sort_name, edit.sort_name),
        overview: pick_text(stored.overview, edit.overview),
        official_rating: pick_text(stored.official_rating, edit.official_rating),
        parental_rating_value,
        production_year: match edit.production_year {
            Some(y) => Some(y),
            None => stored.production_year,
        },
        premiere_date: pick_text(stored.premiere_date, edit.premiere_date),
        end_date: pick_text(stored.end_date, edit.end_date),
        status: pick_text(stored.status, edit.status),
        genres: pick_list(stored.genres, edit.genres),
        tags: pick_list(stored.tags, edit.tags),
        studios: pick_list(stored.studios, edit.studios),
        production_locations: pick_list(stored.production_locations, edit.production_locations),
        taglines: pick_list(stored.taglines, edit.taglines),
        locked_fields: pick_list(stored.locked_fields, edit.locked_fields),
        lock_data: match edit.lock_data {
            Some(b) => b,
            None => stored.lock_data,
        },
    }
}

/// An edit that gives nothing keeps the metadata as it was.
pub proof fn law_empty_edit_keeps(r: EditableMetadata, m: EditableMetadata, e: MetadataEdit)
    requires
        e.name is None && e.original_title is None && e.sort_name is None && e.overview is None,
        e.official_rating is None && e.production_year is None && e.status is None,
        e.premiere_date is None && e.end_date is None,
        e.genres is None && e.tags is None && e.studios is None && e.production_locations is None,
        e.taglines is None && e.locked_fields is None && e.lock_data is None,
        edited(r, m, e),
    ensures
        r.name@ == m.name@,
        text_of(r.original_title) == text_of(m.original_title),
        text_of(r.sort_name) == text_of(m.sort_name),
        text_of(r.overview) == text_of(m.overview),
        text_of(r.official_rating) == text_of(m.official_rating),
        r.parental_rating_value == m.parental_rating_value,
        r.production_year == m.production_year,
        text_of(r.premiere_date) == text_of(m.premiere_date),
        text_of(r.end_date) == text_of(m.end_date),
        text_of(r.status) == text_of(m.status),
        views(r.genres@) == views(m.genres@) && views(r.tags@) == views(m.tags@),
        views(r.studios@) == views(m.studios@),
        views(r.production_locations@) == views(m.production_locations@),
        views(r.taglines@) == views(m.taglines@) && views(r.locked_fields@) == views(m.locked_fields@),
        r.lock_data == m.lock_data,
{
}

/// A removed provider is gone after the edit, whatever the edit sets and
/// in whatever case the removal list names it.
pub proof fn law_removed_provider_gone(
    stored: Seq<(String, String)>,
    set: Option<Seq<(String, String)>>,
    remove: Seq<Seq<char>>,
    k: Seq<char>,
    j: int,
)
    requires
        0 <= j < remove.len(),
        eq_ignore_case_seq(remove[j], k),
    ensures
        edited_provider(stored, set, Some(remove), k) is None,
{
}

} // verus!
