//! The plan of a catalogue list query: its ordering, the user filters it
//! applies, the name patterns it matches and its page bounds.

use vstd::prelude::*;
use crate::filters::{clean_pieces, lowercase_list, opt_text, parse_option_filters, split_query_paths};
use crate::text::{
    eq_ignore_ascii_case, eq_ignore_case_seq, is_blank, is_blank_str, owned, split_seq, str_eq, trim, trim_seq, views,
    Separators,
};

verus! {

/// A column a list is ordered by.
#[derive(Clone, Copy, Debug, PartialEq, Eq, Structural)]
pub enum SortColumn {
    /// When the requesting user last played the item (never played first).
    DatePlayed,
    DateCreated,
    ParentIndexNumber,
    IndexNumber,
    PremiereDate,
    ProductionYear,
    CommunityRating,
    OfficialRating,
    Runtime,
    Random,
    SortName,
}

/// The column of a sort key; `DatePlayed` needs a requesting user and is
/// the creation date without one; unknown keys sort by name.
pub open spec fn column_of(key: Seq<char>, has_user: bool) -> SortColumn {
    if key == "DatePlayed"@ {
        if has_user { SortColumn::DatePlayed } else { SortColumn::DateCreated }
    } else if key == "DateCreated"@ || key == "DateLastContentAdded"@ {
        SortColumn::DateCreated
    } else if key == "ParentIndexNumber"@ {
        SortColumn::ParentIndexNumber
    } else if key == "IndexNumber"@ {
        SortColumn::IndexNumber
    } else if key == "PremiereDate"@ {
        SortColumn::PremiereDate
    } else if key == "ProductionYear"@ {
        SortColumn::ProductionYear
    } else if key == "CommunityRating"@ {
        SortColumn::CommunityRating
    } else if key == "OfficialRating"@ {
        SortColumn::OfficialRating
    } else if key == "Runtime"@ {
        SortColumn::Runtime
    } else if key == "Random"@ {
        SortColumn::Random
    } else {
        SortColumn::SortName
    }
}

/// The sort keys of a request: the comma-separated keys (default
/// `SortName`), trimmed, blank ones dropped; `SortName` when none is left.
pub open spec fn sort_keys(sort_by: Option<&str>) -> Seq<Seq<char>> {
    let text = match sort_by {
        Some(s) => s@,
        None => "SortName"@,
    };
    let keys = clean_pieces(split_seq(text, Separators::Comma), false);
    if keys.len() == 0 {
        seq!["SortName"@]
    } else {
        keys
    }
}

/// How a list is ordered: by each column in turn, all in the same
/// direction, empty values last.
pub struct OrderPlan {
    pub columns: Vec<SortColumn>,
    pub descending: bool,
}

fn column_exec(key: &str, has_user: bool) -> (r: SortColumn)
    ensures
        r == column_of(key@, has_user),
{
    if str_eq(key, "DatePlayed") {
        if has_user { SortColumn::DatePlayed } else { SortColumn::DateCreated }
    } else if str_eq(key, "DateCreated") || str_eq(key, "DateLastContentAdded") {
        SortColumn::DateCreated
    } else if str_eq(key, "ParentIndexNumber") {
        SortColumn::ParentIndexNumber
    } else if str_eq(key, "IndexNumber") {
        SortColumn::IndexNumber
    } else if str_eq(key, "PremiereDate") {
        SortColumn::PremiereDate
    } else if str_eq(key, "ProductionYear") {
        SortColumn::ProductionYear
    } else if str_eq(key, "CommunityRating") {
        SortColumn::CommunityRating
    } else if str_eq(key, "OfficialRating") {
        SortColumn::OfficialRating
    } else if str_eq(key, "Runtime") {
        SortColumn::Runtime
    } else if str_eq(key, "Random") {
        SortColumn::Random
    } else {
        SortColumn::SortName
    }
}

/// The ordering of a list request: a column per sort key (as `sort_keys`
/// and `column_of` state), descending when the order is `Descending`
/// (ASCII case ignored).
pub fn order_plan(sort_by: Option<&str>, sort_order: Option<&str>, has_user: bool) -> (r: OrderPlan)
    ensures
        r.columns@ == sort_keys(sort_by).map_values(|k: Seq<char>| column_of(k, has_user)),
        r.descending == (sort_order is Some && eq_ignore_case_seq(sort_order->0@, "Descending"@)),
{
    let text: &str = match sort_by {
        Some(s) => s,
        None => "SortName",
    };
    let pieces = split_query_paths(Some(text));
    let ghost keys = views(pieces@);
    let mut columns: Vec<SortColumn> = Vec::new();
    if pieces.len() == 0 {
        let c = column_exec("SortName", has_user);
        columns.push(c);
        assert(columns@ =~= seq!["SortName"@].map_values(|k: Seq<char>| column_of(k, has_user)));
    } else {
        let n = pieces.len();
        let mut i: usize = 0;
        while i < n
            invariant
                i <= n,
                n == pieces@.len(),
                keys == views(pieces@),
                columns@ =~= keys.take(i as int).map_values(|k: Seq<char>| column_of(k, has_user)),
            decreases n - i,
        {
            let c = column_exec(pieces[i].as_str(), has_user);
            columns.push(c);
            assert(keys.take(i + 1) =~= keys.take(i as int).push(keys[i as int]));
            i = i + 1;
        }
        assert(keys.take(n as int) =~= keys);
    }
    let descending = match sort_order {
        Some(o) => eq_ignore_ascii_case(o, "Descending"),
        None => false,
    };
    OrderPlan { columns, descending }
}

/// A condition a user filter adds to a list query.
#[derive(Clone, Copy, Debug, PartialEq, Eq, Structural)]
pub enum FilterClause {
    /// The user has played the item.
    Played,
    /// The user has not played the item.
    Unplayed,
    /// The user marked the item as a favourite.
    Favorite,
    /// The user stopped the item part-way.
    Resumable,
    /// The item is a series, season, box set, folder or collection folder.
    Folder,
    /// The item is none of those.
    NotFolder,
    /// Nothing matches (a per-user filter without a user).
    Nothing,
}

/// The condition of a parsed filter, if it names one; the per-user ones
/// match nothing without a requesting user.
pub open spec fn clause_of(filter: Seq<char>, has_user: bool) -> Option<FilterClause> {
    if filter == "isfolder"@ {
        Some(FilterClause::Folder)
    } else if filter == "isnotfolder"@ {
        Some(FilterClause::NotFolder)
    } else if filter == "isplayed"@ {
        Some(if has_user { FilterClause::Played } else { FilterClause::Nothing })
    } else if filter == "isunplayed"@ {
        Some(if has_user { FilterClause::Unplayed } else { FilterClause::Nothing })
    } else if filter == "isfavorite"@ {
        Some(if has_user { FilterClause::Favorite } else { FilterClause::Nothing })
    } else if filter == "isresumable"@ {
        Some(if has_user { FilterClause::Resumable } else { FilterClause::Nothing })
    } else {
        None
    }
}

/// The conditions of the filters named, in order, unknown ones skipped.
pub open spec fn clauses_of(filters: Seq<Seq<char>>, has_user: bool) -> Seq<FilterClause>
    decreases filters.len(),
{
    if filters.len() == 0 {
        Seq::empty()
    } else {
        let prev = clauses_of(filters.drop_last(), has_user);
        match clause_of(filters.last(), has_user) {
            Some(c) => prev.push(c),
            None => prev,
        }
    }
}

fn clause_exec(filter: &str, has_user: bool) -> (r: Option<FilterClause>)
    ensures
        r == clause_of(filter@, has_user),
{
    if str_eq(filter, "isfolder") {
        Some(FilterClause::Folder)
    } else if str_eq(filter, "isnotfolder") {
        Some(FilterClause::NotFolder)
    } else if str_eq(filter, "isplayed") {
        Some(if has_user { FilterClause::Played } else { FilterClause::Nothing })
    } else if str_eq(filter, "isunplayed") {
        Some(if has_user { FilterClause::Unplayed } else { FilterClause::Nothing })
    } else if str_eq(filter, "isfavorite") {
        Some(if has_user { FilterClause::Favorite } else { FilterClause::Nothing })
    } else if str_eq(filter, "isresumable") {
        Some(if has_user { FilterClause::Resumable } else { FilterClause::Nothing })
    } else {
        None
    }
}

/// The conditions of a request's `Filters` value, as `clauses_of` states
/// of its parsed filters (`parse_option_filters`).
pub fn filter_clauses(filters: Option<&str>, has_user: bool) -> (r: Vec<FilterClause>)
    ensures
        r@ == clauses_of(clean_pieces(split_seq(opt_text(filters), Separators::ListMarks), true), has_user),
{
    let parsed = parse_option_filters(filters);
    let ghost fs = views(parsed@);
    let mut out: Vec<FilterClause> = Vec::new();
    let n = parsed.len();
    let mut i: usize = 0;
    while i < n
        invariant
            i <= n,
            n == parsed@.len(),
            fs == views(parsed@),
            out@ == clauses_of(fs.take(i as int), has_user),
        decreases n - i,
    {
        assert(fs.take(i + 1).drop_last() =~= fs.take(i as int));
        assert(fs.take(i + 1).last() == parsed@[i as int]@);
        if let Some(c) = clause_exec(parsed[i].as_str(), has_user) {
            out.push(c);
        }
        i = i + 1;
    }
    assert(fs.take(n as int) =~= fs);
    out
}

/// What a request's video types require: nothing without any; videos when
/// one of them is `videofile` or `video` (trimmed, ASCII case ignored);
/// otherwise no item at all (`Some(false)`).
pub fn video_types_clause(video_types: &Vec<String>) -> (r: Option<bool>)
    ensures
        r is None <==> video_types@.len() == 0,
        r is Some ==> r->0 == (clean_pieces(views(video_types@), true).contains("videofile"@)
            || clean_pieces(views(video_types@), true).contains("video"@)),
{
    if video_types.len() == 0 {
        return None;
    }
    let lowered = lowercase_list(video_types);
    let ghost lv = views(lowered@);
    let n = lowered.len();
    let mut i: usize = 0;
    while i < n
        invariant
            i <= n,
            n == lowered@.len(),
            lv == views(lowered@),
            lv == clean_pieces(views(video_types@), true),
            video_types@.len() > 0,
            forall|k: int| 0 <= k < i ==> lv[k] != "videofile"@ && lv[k] != "video"@,
        decreases n - i,
    {
        if str_eq(lowered[i].as_str(), "videofile") || str_eq(lowered[i].as_str(), "video") {
            assert(lv[i as int] == lowered@[i as int]@);
            assert(lv.contains("videofile"@) || lv.contains("video"@));
            return Some(true);
        }
        assert(lv[i as int] == lowered@[i as int]@);
        i = i + 1;
    }
    assert(!lv.contains("videofile"@) && !lv.contains("video"@));
    Some(false)
}

/// The number of items a page holds: the requested limit kept within
/// 0..=1000.
pub fn effective_limit(limit: i64) -> (r: i64)
    ensures
        r == (if limit < 0 { 0 } else if limit > 1000 { 1000 } else { limit }),
{
    if limit < 0 {
        0
    } else if limit > 1000 {
        1000
    } else {
        limit
    }
}

/// The position a page starts at: the requested one, at least 0.
pub fn effective_start(start_index: i64) -> (r: i64)
    ensures
        r == (if start_index < 0 { 0 } else { start_index }),
{
    if start_index < 0 {
        0
    } else {
        start_index
    }
}

/// The pattern a search term matches names with: `%term%`, the term
/// trimmed; nothing for a blank term.
pub fn search_pattern(term: Option<&str>) -> (r: Option<String>)
    ensures
        match r {
            Some(p) => term is Some && !is_blank(term->0@) && p@ == "%"@ + trim_seq(term->0@) + "%"@,
            None => term is None || is_blank(term->0@),
        },
{
    match term {
        Some(t) => {
            if is_blank_str(t) {
                return None;
            }
            let mut out = owned("%");
            out.append(trim(t));
            out.append("%");
            Some(out)
        },
        None => None,
    }
}

/// The pattern a name prefix matches names with: `prefix%`, the prefix
/// trimmed; nothing for a blank prefix.
pub fn prefix_pattern(prefix: Option<&str>) -> (r: Option<String>)
    ensures
        match r {
            Some(p) => prefix is Some && !is_blank(prefix->0@) && p@ == trim_seq(prefix->0@) + "%"@,
            None => prefix is None || is_blank(prefix->0@),
        },
{
    match prefix {
        Some(t) => {
            if is_blank_str(t) {
                return None;
            }
            let mut out = owned(trim(t));
            out.append("%");
            Some(out)
        },
        None => None,
    }
}

/// The limits a user's parental policy puts on lists.
pub struct PolicyLimits {
    pub max_parental_rating: Option<i32>,
    pub blocked_tags: Vec<String>,
    pub block_unrated_items: Vec<String>,
}

/// Whether `r` is the limits of a list request after the requesting user's
/// policy is applied: only when the request brings no rating limit and no
/// blocked tags, and the user is found and is no administrator, the
/// policy's rating limit is taken, and its blocked tags and blocked unrated
/// types where it has any; otherwise the request's limits stay.
pub open spec fn policy_applied(r: PolicyLimits, limits: PolicyLimits, user: Option<(bool, PolicyLimits)>) -> bool {
    match user {
        Some((is_admin, p)) if limits.max_parental_rating is None && limits.blocked_tags@.len() == 0 && !is_admin => {
            &&& r.max_parental_rating == p.max_parental_rating
            &&& views(r.blocked_tags@) == (if p.blocked_tags@.len() > 0 {
                views(p.blocked_tags@)
            } else {
                views(limits.blocked_tags@)
            })
            &&& views(r.block_unrated_items@) == (if p.block_unrated_items@.len() > 0 {
                views(p.block_unrated_items@)
            } else {
                views(limits.block_unrated_items@)
            })
        },
        _ => {
            &&& r.max_parental_rating == limits.max_parental_rating
            &&& views(r.blocked_tags@) == views(limits.blocked_tags@)
            &&& views(r.block_unrated_items@) == views(limits.block_unrated_items@)
        },
    }
}

/// The limits of a list request after the requesting user's policy is
/// applied (see `policy_applied`); `user` is whether the user is an
/// administrator and their policy's limits, when the user is found.
pub fn apply_user_policy(limits: PolicyLimits, user: Option<(bool, PolicyLimits)>) -> (r: PolicyLimits)
    ensures
        policy_applied(r, limits, user),
{
    if limits.max_parental_rating.is_none() && limits.blocked_tags.len() == 0 {
        match user {
            Some((is_admin, policy)) => {
                if !is_admin {
                    let blocked_tags = if policy.blocked_tags.len() > 0 {
                        policy.blocked_tags
                    } else {
                        limits.blocked_tags
                    };
                    let block_unrated_items = if policy.block_unrated_items.len() > 0 {
                        policy.block_unrated_items
                    } else {
                        limits.block_unrated_items
                    };
                    return PolicyLimits {
                        max_parental_rating: policy.max_parental_rating,
                        blocked_tags,
                        block_unrated_items,
                    };
                }
                limits
            },
            None => limits,
        }
    } else {
        limits
    }
}

/// Whether a list request must leave out the libraries excluded from
/// search: it searches for a term that is not blank and names no excluded
/// libraries itself.
pub fn needs_search_exclusions(excluded_library_ids: &Vec<u128>, search_term: Option<&str>) -> (r: bool)
    ensures
        r == (excluded_library_ids@.len() == 0 && search_term is Some && !is_blank(search_term->0@)),
{
    excluded_library_ids.len() == 0 && match search_term {
        Some(t) => !is_blank_str(t),
        None => false,
    }
}

/// The slice of `total` results a page shows, as (first, end): from the
/// requested start (at least 0), at most `limit` kept within 1..=200
/// results; none when the start is past the end.
pub open spec fn page_range(total: nat, start_index: i64, limit: i64) -> Option<(int, int)> {
    let start: int = if start_index < 0 { 0 } else { start_index as int };
    let size: int = if limit < 1 { 1 } else if limit > 200 { 200 } else { limit as int };
    if start >= total {
        None
    } else {
        Some((start, if start + size < total { start + size } else { total as int }))
    }
}

/// The slice of `total` results a page of box sets shows (see
/// `page_range`).
pub fn page_bounds(total: usize, start_index: i64, limit: i64) -> (r: Option<(usize, usize)>)
    ensures
        match r {
            Some((a, b)) => page_range(total as nat, start_index, limit) == Some((a as int, b as int)),
            None => page_range(total as nat, start_index, limit) is None,
        },
{
    let start: i128 = if start_index < 0 {
        0
    } else {
        start_index as i128
    };
    let size: i128 = if limit < 1 {
        1
    } else if limit > 200 {
        200
    } else {
        limit as i128
    };
    if start >= total as i128 {
        return None;
    }
    let end: i128 = if start + size < total as i128 {
        start + size
    } else {
        total as i128
    };
    Some((start as usize, end as usize))
}

/// The page of `items` that a request for `start_index` and `limit`
/// shows: the slice `page_range` gives, or nothing past the end.
pub fn page_of<T>(items: Vec<T>, start_index: i64, limit: i64) -> (r: Vec<T>)
    ensures
        match page_range(items@.len(), start_index, limit) {
            Some((a, b)) => r@ == items@.subrange(a, b),
            None => r@.len() == 0,
        },
{
    let ghost all = items@;
    let mut items = items;
    match page_bounds(items.len(), start_index, limit) {
        None => Vec::new(),
        Some((a, b)) => {
            items.truncate(b);
            let page = items.split_off(a);
            assert(page@ =~= all.subrange(a as int, b as int));
            page
        },
    }
}

/// The sort key that names a column.
pub open spec fn column_key(col: SortColumn) -> Seq<char> {
    match col {
        SortColumn::DatePlayed => "DatePlayed"@,
        SortColumn::DateCreated => "DateCreated"@,
        SortColumn::ParentIndexNumber => "ParentIndexNumber"@,
        SortColumn::IndexNumber => "IndexNumber"@,
        SortColumn::PremiereDate => "PremiereDate"@,
        SortColumn::ProductionYear => "ProductionYear"@,
        SortColumn::CommunityRating => "CommunityRating"@,
        SortColumn::OfficialRating => "OfficialRating"@,
        SortColumn::Runtime => "Runtime"@,
        SortColumn::Random => "Random"@,
        SortColumn::SortName => "SortName"@,
    }
}

proof fn reveal_sort_keys()
    ensures
        "DatePlayed"@ =~= seq!['D', 'a', 't', 'e', 'P', 'l', 'a', 'y', 'e', 'd'],
        "DateCreated"@ =~= seq!['D', 'a', 't', 'e', 'C', 'r', 'e', 'a', 't', 'e', 'd'],
        "DateLastContentAdded"@.len() == 20,
        "ParentIndexNumber"@.len() == 17,
        "IndexNumber"@ =~= seq!['I', 'n', 'd', 'e', 'x', 'N', 'u', 'm', 'b', 'e', 'r'],
        "PremiereDate"@.len() == 12,
        "ProductionYear"@ =~= seq!['P', 'r', 'o', 'd', 'u', 'c', 't', 'i', 'o', 'n', 'Y', 'e', 'a', 'r'],
        "CommunityRating"@.len() == 15,
        "OfficialRating"@ =~= seq!['O', 'f', 'f', 'i', 'c', 'i', 'a', 'l', 'R', 'a', 't', 'i', 'n', 'g'],
        "Runtime"@.len() == 7,
        "Random"@.len() == 6,
        "SortName"@.len() == 8,
{
    reveal_strlit("DatePlayed");
    reveal_strlit("DateCreated");
    reveal_strlit("DateLastContentAdded");
    reveal_strlit("ParentIndexNumber");
    reveal_strlit("IndexNumber");
    reveal_strlit("PremiereDate");
    reveal_strlit("ProductionYear");
    reveal_strlit("CommunityRating");
    reveal_strlit("OfficialRating");
    reveal_strlit("Runtime");
    reveal_strlit("Random");
    reveal_strlit("SortName");
}

/// Each sort key a client may name orders by its own column: for a
/// requesting user, the column of a key is the one that key names (so no
/// two different keys share a column), except that `DateLastContentAdded`
/// orders by the creation date; without a user, `DatePlayed` orders by the
/// creation date too; any other key orders by name.
pub proof fn law_sort_keys_have_their_own_columns(k: Seq<char>, has_user: bool)
    ensures
        (k == "DatePlayed"@ && has_user) || k == "DateCreated"@ || k == "ParentIndexNumber"@ || k == "IndexNumber"@
            || k == "PremiereDate"@ || k == "ProductionYear"@ || k == "CommunityRating"@ || k == "OfficialRating"@
            || k == "Runtime"@ || k == "Random"@ || k == "SortName"@ ==> column_key(column_of(k, has_user)) == k,
        k == "DateLastContentAdded"@ || (k == "DatePlayed"@ && !has_user) ==> column_of(k, has_user)
            == SortColumn::DateCreated,
        k != "DatePlayed"@ && k != "DateCreated"@ && k != "DateLastContentAdded"@ && k != "ParentIndexNumber"@
            && k != "IndexNumber"@ && k != "PremiereDate"@ && k != "ProductionYear"@ && k != "CommunityRating"@
            && k != "OfficialRating"@ && k != "Runtime"@ && k != "Random"@ ==> column_of(k, has_user)
            == SortColumn::SortName,
{
    reveal_sort_keys();
    if k == "IndexNumber"@ {
        assert(k[0] != "DateCreated"@[0]);
    }
    if k == "OfficialRating"@ {
        assert(k[0] != "ProductionYear"@[0]);
    }
}

} // verus!
