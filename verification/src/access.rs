//! Which libraries a user may see, and the list filters that follow.

use vstd::prelude::*;

verus! {

/// The libraries, in order, that are not blocked (and, when
/// `need_enabled`, are enabled).
pub open spec fn kept_libraries(libraries: Seq<u128>, blocked: Seq<u128>, enabled: Seq<u128>, need_enabled: bool) -> Seq<u128>
    decreases libraries.len(),
{
    if libraries.len() == 0 {
        Seq::empty()
    } else {
        let prev = kept_libraries(libraries.drop_last(), blocked, enabled, need_enabled);
        let id = libraries.last();
        if !blocked.contains(id) && (!need_enabled || enabled.contains(id)) {
            prev.push(id)
        } else {
            prev
        }
    }
}

/// The libraries a user's lists are limited to; `None` for no limit.
/// An unknown user sees none; an administrator or a user allowed all
/// folders is unlimited; any other user sees the enabled libraries that
/// are not blocked.
pub open spec fn library_filter(
    user_found: bool,
    is_admin: bool,
    enable_all_folders: bool,
    blocked: Seq<u128>,
    enabled: Seq<u128>,
    libraries: Seq<u128>,
) -> Option<Seq<u128>> {
    if !user_found {
        Some(Seq::empty())
    } else if is_admin || enable_all_folders {
        None
    } else {
        Some(kept_libraries(libraries, blocked, enabled, true))
    }
}

fn contains_id(ids: &Vec<u128>, id: u128) -> (r: bool)
    ensures
        r == ids@.contains(id),
{
    let n = ids.len();
    let mut i: usize = 0;
    while i < n
        invariant
            i <= n,
            n == ids@.len(),
            forall|j: int| 0 <= j < i ==> ids@[j] != id,
        decreases n - i,
    {
        if ids[i] == id {
            assert(ids@[i as int] == id);
            return true;
        }
        i = i + 1;
    }
    false
}

fn keep_libraries(libraries: &Vec<u128>, blocked: &Vec<u128>, enabled: &Vec<u128>, need_enabled: bool) -> (r: Vec<u128>)
    ensures
        r@ == kept_libraries(libraries@, blocked@, enabled@, need_enabled),
{
    let mut out: Vec<u128> = Vec::new();
    let n = libraries.len();
    let mut i: usize = 0;
    while i < n
        invariant
            i <= n,
            n == libraries@.len(),
            out@ == kept_libraries(libraries@.take(i as int), blocked@, enabled@, need_enabled),
        decreases n - i,
    {
        assert(libraries@.take(i + 1).drop_last() =~= libraries@.take(i as int));
        let id = libraries[i];
        if !contains_id(blocked, id) && (!need_enabled || contains_id(enabled, id)) {
            out.push(id);
        }
        i = i + 1;
    }
    assert(libraries@.take(n as int) =~= libraries@);
    out
}

/// The libraries a user's lists are limited to, as `library_filter`
/// states; `user_found` tells whether the user exists, and `libraries` are
/// all libraries in order.
pub fn effective_library_filter_for_user(
    user_found: bool,
    is_admin: bool,
    enable_all_folders: bool,
    blocked: &Vec<u128>,
    enabled: &Vec<u128>,
    libraries: &Vec<u128>,
) -> (r: Option<Vec<u128>>)
    ensures
        match r {
            Some(v) => library_filter(user_found, is_admin, enable_all_folders, blocked@, enabled@, libraries@) == Some(v@),
            None => library_filter(user_found, is_admin, enable_all_folders, blocked@, enabled@, libraries@) is None,
        },
{
    if !user_found {
        return Some(Vec::new());
    }
    if is_admin || enable_all_folders {
        return None;
    }
    Some(keep_libraries(libraries, blocked, enabled, true))
}

/// Whether a list request can only be empty: the user may see no library,
/// or the request names a library the user may not see.
pub open spec fn short_circuits(allowed: Option<Seq<u128>>, library_id: Option<u128>) -> bool {
    match allowed {
        None => false,
        Some(a) => a.len() == 0 || (library_id is Some && !a.contains(library_id->0)),
    }
}

/// Whether a list request can only be empty, as `short_circuits` states.
pub fn check_allowed_library_short_circuit(allowed_library_ids: &Option<Vec<u128>>, library_id: Option<u128>) -> (r: bool)
    ensures
        r == short_circuits(
            match allowed_library_ids { Some(v) => Some(v@), None => None },
            library_id,
        ),
{
    match allowed_library_ids {
        None => false,
        Some(allowed) => {
            if allowed.len() == 0 {
                return true;
            }
            match library_id {
                Some(id) => !contains_id(allowed, id),
                None => false,
            }
        },
    }
}

proof fn lemma_kept_subset(libraries: Seq<u128>, blocked: Seq<u128>, enabled: Seq<u128>, need_enabled: bool, id: u128)
    ensures
        kept_libraries(libraries, blocked, enabled, need_enabled).contains(id) ==> libraries.contains(id) && !blocked.contains(id)
            && (!need_enabled || enabled.contains(id)),
    decreases libraries.len(),
{
    if libraries.len() > 0 {
        let prefix = libraries.drop_last();
        let prev = kept_libraries(prefix, blocked, enabled, need_enabled);
        lemma_kept_subset(prefix, blocked, enabled, need_enabled, id);
        assert(libraries =~= prefix.push(libraries.last()));
        crate::identity::lemma_push_contains(prefix, libraries.last(), id);
        crate::identity::lemma_push_contains(prev, libraries.last(), id);
    }
}

/// A user's library filter never admits a blocked library, admits only
/// existing libraries, and for a user not allowed all folders only enabled
/// ones.
pub proof fn law_filter_respects_policy(
    user_found: bool,
    is_admin: bool,
    enable_all_folders: bool,
    blocked: Seq<u128>,
    enabled: Seq<u128>,
    libraries: Seq<u128>,
    id: u128,
)
    ensures
        match library_filter(user_found, is_admin, enable_all_folders, blocked, enabled, libraries) {
            Some(a) => a.contains(id) ==> libraries.contains(id) && !blocked.contains(id) && (is_admin
                || enable_all_folders || enabled.contains(id)),
            None => user_found && (is_admin || enable_all_folders),
        },
{
    lemma_kept_subset(libraries, blocked, enabled, false, id);
    lemma_kept_subset(libraries, blocked, enabled, true, id);
}

/// The libraries a user may open: for an administrator or a user allowed
/// all folders every library but the blocked ones; for any other user the
/// enabled libraries that are not blocked; `libraries` are all libraries in
/// order.
pub fn visible_library_ids_for_user(
    is_admin: bool,
    enable_all_folders: bool,
    blocked: &Vec<u128>,
    enabled: &Vec<u128>,
    libraries: &Vec<u128>,
) -> (r: Vec<u128>)
    ensures
        r@ == kept_libraries(libraries@, blocked@, enabled@, !(is_admin || enable_all_folders)),
{
    keep_libraries(libraries, blocked, enabled, !(is_admin || enable_all_folders))
}

/// Whether a user may open an item: it belongs to a library the user may
/// open (an item with no library, or none found, may not be opened).
pub fn user_can_access_item(item_library_id: Option<u128>, visible_library_ids: &Vec<u128>) -> (r: bool)
    ensures
        r == (item_library_id is Some && visible_library_ids@.contains(item_library_id->0)),
{
    match item_library_id {
        Some(id) => contains_id(visible_library_ids, id),
        None => false,
    }
}

proof fn lemma_nothing_blocked(libraries: Seq<u128>, enabled: Seq<u128>)
    ensures
        kept_libraries(libraries, Seq::empty(), enabled, false) == libraries,
    decreases libraries.len(),
{
    if libraries.len() > 0 {
        lemma_nothing_blocked(libraries.drop_last(), enabled);
        assert(libraries.drop_last().push(libraries.last()) =~= libraries);
    }
}

/// For a known user, the list filter and the visible libraries agree: a
/// limited filter is exactly the visible libraries; an unlimited one comes
/// only to an administrator or a user allowed all folders, and then, when
/// nothing is blocked, every library is visible.
pub proof fn law_filter_agrees_with_visibility(
    is_admin: bool,
    enable_all_folders: bool,
    blocked: Seq<u128>,
    enabled: Seq<u128>,
    libraries: Seq<u128>,
)
    ensures
        match library_filter(true, is_admin, enable_all_folders, blocked, enabled, libraries) {
            Some(v) => v == kept_libraries(libraries, blocked, enabled, !(is_admin || enable_all_folders)),
            None => (is_admin || enable_all_folders) && (blocked.len() == 0 ==> kept_libraries(
                libraries,
                blocked,
                enabled,
                !(is_admin || enable_all_folders),
            ) == libraries),
        },
{
    if (is_admin || enable_all_folders) && blocked.len() == 0 {
        assert(blocked =~= Seq::<u128>::empty());
        lemma_nothing_blocked(libraries, enabled);
    }
}

/// Whether a list request admits an item of `item_library`: not when the
/// request can only be empty; otherwise any item for an unlimited user,
/// and for a limited user only an item of one of the allowed libraries
/// (the condition `library_id = ANY(allowed)` every item list adds).
pub open spec fn list_admits(allowed: Option<Seq<u128>>, library_id: Option<u128>, item_library: Option<u128>) -> bool {
    !short_circuits(allowed, library_id) && match allowed {
        None => true,
        Some(a) => item_library matches Some(l) && a.contains(l),
    }
}

/// Whether a list request admits an item, as `list_admits` states.
pub fn item_admitted(allowed_library_ids: &Option<Vec<u128>>, library_id: Option<u128>, item_library: Option<u128>) -> (r: bool)
    ensures
        r == list_admits(
            match allowed_library_ids { Some(v) => Some(v@), None => None },
            library_id,
            item_library,
        ),
{
    if check_allowed_library_short_circuit(allowed_library_ids, library_id) {
        return false;
    }
    match allowed_library_ids {
        None => true,
        Some(a) => match item_library {
            Some(l) => contains_id(a, l),
            None => false,
        },
    }
}

/// Every item list shows a known user only items of libraries the user may
/// open, unless the user is an administrator or allowed all folders; an
/// unknown user is shown nothing.
pub proof fn law_lists_show_visible_only(
    user_found: bool,
    is_admin: bool,
    enable_all_folders: bool,
    blocked: Seq<u128>,
    enabled: Seq<u128>,
    libraries: Seq<u128>,
    library_id: Option<u128>,
    item_library: Option<u128>,
)
    requires
        list_admits(
            library_filter(user_found, is_admin, enable_all_folders, blocked, enabled, libraries),
            library_id,
            item_library,
        ),
    ensures
        user_found,
        is_admin || enable_all_folders || (item_library is Some && kept_libraries(libraries, blocked, enabled, true).contains(
            item_library->0,
        )),
{
}

} // verus!
