//! A user's play state of an item, as shown to clients.

use vstd::prelude::*;
use crate::ids::{simple_form, simple_id};

verus! {

/// A stored play state.
pub struct UserItemRow {
    pub playback_position_ticks: i64,
    pub play_count: i32,
    pub is_favorite: bool,
    pub is_played: bool,
    /// When the item was last played, in microseconds since the Unix epoch.
    pub last_played_date: Option<i64>,
}

/// A play state as shown to clients. The played percentage is given as the
/// fraction (position, running time) it is computed from:
/// `min(100, 100 * position / running time)`.
pub struct UserItemData {
    pub played_fraction: Option<(i64, i64)>,
    pub playback_position_ticks: i64,
    pub play_count: Option<i32>,
    pub is_favorite: bool,
    pub played: bool,
    pub last_played_date: Option<i64>,
    pub key: Option<String>,
    pub item_id: Option<String>,
    pub server_id: Option<String>,
    /// For a folder, how many of its items the user has not played.
    pub unplayed_item_count: Option<i32>,
}

/// The text of an optional string.
pub open spec fn opt_view(v: Option<String>) -> Option<Seq<char>> {
    match v {
        Some(s) => Some(s@),
        None => None,
    }
}

/// Whether `d` shows the stored state `row` of an item running
/// `runtime_ticks`, with no key or ids set.
pub open spec fn shows_row(d: UserItemData, row: UserItemRow, runtime_ticks: Option<i64>) -> bool {
    &&& d.played_fraction == (match runtime_ticks {
        Some(rt) => if rt > 0 && row.playback_position_ticks > 0 {
            Some((row.playback_position_ticks, rt))
        } else {
            None
        },
        None => None,
    })
    &&& d.playback_position_ticks == row.playback_position_ticks
    &&& d.play_count == Some(row.play_count)
    &&& d.is_favorite == row.is_favorite
    &&& d.played == row.is_played
    &&& d.last_played_date == row.last_played_date
    &&& d.key is None && d.item_id is None && d.server_id is None
    &&& d.unplayed_item_count is None
}

/// Whether `d` is the state of an item never played, with no key or ids.
pub open spec fn is_empty_data(d: UserItemData) -> bool {
    &&& d.played_fraction is None
    &&& d.playback_position_ticks == 0
    &&& d.play_count is None
    &&& !d.is_favorite && !d.played
    &&& d.last_played_date is None
    &&& d.key is None && d.item_id is None && d.server_id is None
    &&& d.unplayed_item_count is None
}

/// A stored play state as shown for an item running `runtime_ticks`; the
/// played fraction is given when both the running time and the position
/// are positive.
pub fn user_item_data_to_dto_with_runtime(data: UserItemRow, runtime_ticks: Option<i64>) -> (r: UserItemData)
    ensures
        shows_row(r, data, runtime_ticks),
{
    let played_fraction = match runtime_ticks {
        Some(rt) => if rt > 0 && data.playback_position_ticks > 0 {
            Some((data.playback_position_ticks, rt))
        } else {
            None
        },
        None => None,
    };
    UserItemData {
        played_fraction,
        playback_position_ticks: data.playback_position_ticks,
        play_count: Some(data.play_count),
        is_favorite: data.is_favorite,
        played: data.is_played,
        last_played_date: data.last_played_date,
        key: None,
        item_id: None,
        server_id: None,
        unplayed_item_count: None,
    }
}

/// A stored play state as shown without a running time.
pub fn user_item_data_to_dto(data: UserItemRow) -> (r: UserItemData)
    ensures
        shows_row(r, data, None),
{
    user_item_data_to_dto_with_runtime(data, None)
}

/// The state of an item never played.
pub fn empty_user_data() -> (r: UserItemData)
    ensures
        is_empty_data(r),
{
    UserItemData {
        played_fraction: None,
        playback_position_ticks: 0,
        play_count: None,
        is_favorite: false,
        played: false,
        last_played_date: None,
        key: None,
        item_id: None,
        server_id: None,
        unplayed_item_count: None,
    }
}

/// A stored play state shown for an item: keyed by the item's 32-digit id.
pub fn user_item_data_to_dto_for_item(data: UserItemRow, item_id: u128) -> (r: UserItemData)
    ensures
        shows_row(UserItemData { key: None, item_id: None, ..r }, data, None),
        opt_view(r.key) == Some(simple_form(item_id)),
        opt_view(r.item_id) == Some(simple_form(item_id)),
        r.server_id is None,
{
    let mut dto = user_item_data_to_dto(data);
    dto.key = Some(simple_id(item_id));
    dto.item_id = Some(simple_id(item_id));
    dto
}

/// The state of an item never played, keyed by the item's 32-digit id.
pub fn empty_user_data_for_item(item_id: u128) -> (r: UserItemData)
    ensures
        is_empty_data(UserItemData { key: None, item_id: None, ..r }),
        opt_view(r.key) == Some(simple_form(item_id)),
        opt_view(r.item_id) == Some(simple_form(item_id)),
{
    let mut dto = empty_user_data();
    dto.key = Some(simple_id(item_id));
    dto.item_id = Some(simple_id(item_id));
    dto
}

/// The play state shown in a list: the prefetched state when there is
/// one (with the running time), else the empty state; keyed by the item's
/// id and carrying the server's id.
pub fn list_user_data(
    prefetched: Option<Option<UserItemRow>>,
    item_id: u128,
    runtime_ticks: Option<i64>,
    server_id: u128,
) -> (r: UserItemData)
    ensures
        match prefetched {
            Some(Some(row)) => shows_row(UserItemData { key: None, item_id: None, server_id: None, ..r }, row, runtime_ticks),
            _ => is_empty_data(UserItemData { key: None, item_id: None, server_id: None, ..r }),
        },
        opt_view(r.key) == Some(simple_form(item_id)),
        opt_view(r.item_id) == Some(simple_form(item_id)),
        opt_view(r.server_id) == Some(simple_form(server_id)),
{
    let mut data = match prefetched {
        Some(Some(row)) => {
            let mut dto = user_item_data_to_dto_with_runtime(row, runtime_ticks);
            dto.key = Some(simple_id(item_id));
            dto.item_id = Some(simple_id(item_id));
            dto
        },
        _ => empty_user_data_for_item(item_id),
    };
    data.server_id = Some(simple_id(server_id));
    data
}

/// The stored state of an item the user never touched (the row defaults:
/// no position, no plays, neither favourite nor played, never played).
pub open spec fn fresh_row() -> UserItemRow {
    UserItemRow {
        playback_position_ticks: 0,
        play_count: 0,
        is_favorite: false,
        is_played: false,
        last_played_date: None,
    }
}

/// The state after the user marks an item favourite or not: only the flag
/// changes.
pub open spec fn favorite_set(old: Option<UserItemRow>, is_favorite: bool) -> UserItemRow {
    let base = match old {
        Some(o) => o,
        None => fresh_row(),
    };
    UserItemRow { is_favorite, ..base }
}

/// The state after the user marks an item favourite or not (see
/// `favorite_set`).
pub fn set_user_favorite(old: Option<UserItemRow>, is_favorite: bool) -> (r: UserItemRow)
    ensures
        r == favorite_set(old, is_favorite),
{
    let base = match old {
        Some(o) => o,
        None => UserItemRow {
            playback_position_ticks: 0,
            play_count: 0,
            is_favorite: false,
            is_played: false,
            last_played_date: None,
        },
    };
    UserItemRow { is_favorite, ..base }
}

/// The state after the user marks an item played or unplayed (at `now`,
/// microseconds since the Unix epoch): the position goes back to 0; played
/// counts at least one play and is dated (the given date, else now);
/// unplayed has no plays and no date.
pub open spec fn played_set(old: Option<UserItemRow>, is_played: bool, date_played: Option<i64>, now: i64) -> UserItemRow {
    let date = if is_played {
        match date_played {
            Some(d) => Some(d),
            None => Some(now),
        }
    } else {
        None
    };
    match old {
        None => UserItemRow {
            playback_position_ticks: 0,
            play_count: if is_played { 1 } else { 0 },
            is_favorite: false,
            is_played,
            last_played_date: date,
        },
        Some(o) => UserItemRow {
            playback_position_ticks: 0,
            play_count: if is_played {
                if o.play_count >= 1 { o.play_count } else { 1 }
            } else {
                0
            },
            is_favorite: o.is_favorite,
            is_played,
            last_played_date: date,
        },
    }
}

/// The state after the user marks an item played or unplayed (see
/// `played_set`).
pub fn set_user_played(old: Option<UserItemRow>, is_played: bool, date_played: Option<i64>, now: i64) -> (r: UserItemRow)
    ensures
        r == played_set(old, is_played, date_played, now),
{
    let date = if is_played {
        match date_played {
            Some(d) => Some(d),
            None => Some(now),
        }
    } else {
        None
    };
    match old {
        None => UserItemRow {
            playback_position_ticks: 0,
            play_count: if is_played { 1 } else { 0 },
            is_favorite: false,
            is_played,
            last_played_date: date,
        },
        Some(o) => UserItemRow {
            playback_position_ticks: 0,
            play_count: if is_played {
                if o.play_count >= 1 { o.play_count } else { 1 }
            } else {
                0
            },
            is_favorite: o.is_favorite,
            is_played,
            last_played_date: date,
        },
    }
}

/// The changes a client asks of a user's state of an item.
pub struct UserDataUpdate {
    pub playback_position_ticks: Option<i64>,
    pub play_count: Option<i32>,
    pub is_favorite: Option<bool>,
    pub played: Option<bool>,
    pub last_played_date: Option<i64>,
}

/// The state after a client's changes (at `now`): marking played resets the
/// position, counts at least one play (unless a count is given) and dates
/// the play (the given date, else now); marking unplayed clears the date;
/// every other field given is written and the rest kept.
pub open spec fn user_data_updated(old: Option<UserItemRow>, u: UserDataUpdate, now: i64) -> UserItemRow {
    match old {
        None => {
            let played = u.played == Some(true);
            UserItemRow {
                playback_position_ticks: if played {
                    0
                } else {
                    match u.playback_position_ticks {
                        Some(p) => p,
                        None => 0,
                    }
                },
                play_count: match u.play_count {
                    Some(c) => c,
                    None => if played { 1 } else { 0 },
                },
                is_favorite: u.is_favorite == Some(true),
                is_played: played,
                last_played_date: if played {
                    match u.last_played_date {
                        Some(d) => Some(d),
                        None => Some(now),
                    }
                } else {
                    u.last_played_date
                },
            }
        },
        Some(o) => UserItemRow {
            playback_position_ticks: if u.played == Some(true) {
                0
            } else {
                match u.playback_position_ticks {
                    Some(p) => p,
                    None => o.playback_position_ticks,
                }
            },
            play_count: match u.play_count {
                Some(c) => c,
                None => if u.played == Some(true) {
                    if o.play_count >= 1 { o.play_count } else { 1 }
                } else {
                    o.play_count
                },
            },
            is_favorite: match u.is_favorite {
                Some(f) => f,
                None => o.is_favorite,
            },
            is_played: match u.played {
                Some(p) => p,
                None => o.is_played,
            },
            last_played_date: if u.played == Some(true) {
                match u.last_played_date {
                    Some(d) => Some(d),
                    None => Some(now),
                }
            } else if u.played == Some(false) {
                None
            } else {
                match u.last_played_date {
                    Some(d) => Some(d),
                    None => o.last_played_date,
                }
            },
        },
    }
}

/// The state after a client's changes (see `user_data_updated`).
pub fn update_user_item_data(old: Option<UserItemRow>, u: UserDataUpdate, now: i64) -> (r: UserItemRow)
    ensures
        r == user_data_updated(old, u, now),
{
    match old {
        None => {
            let played = match u.played {
                Some(true) => true,
                _ => false,
            };
            UserItemRow {
                playback_position_ticks: if played {
                    0
                } else {
                    match u.playback_position_ticks {
                        Some(p) => p,
                        None => 0,
                    }
                },
                play_count: match u.play_count {
                    Some(c) => c,
                    None => if played { 1 } else { 0 },
                },
                is_favorite: match u.is_favorite {
                    Some(true) => true,
                    _ => false,
                },
                is_played: played,
                last_played_date: if played {
                    match u.last_played_date {
                        Some(d) => Some(d),
                        None => Some(now),
                    }
                } else {
                    u.last_played_date
                },
            }
        },
        Some(o) => {
            let marks_played = match u.played {
                Some(true) => true,
                _ => false,
            };
            let marks_unplayed = match u.played {
                Some(false) => true,
                _ => false,
            };
            UserItemRow {
                playback_position_ticks: if marks_played {
                    0
                } else {
                    match u.playback_position_ticks {
                        Some(p) => p,
                        None => o.playback_position_ticks,
                    }
                },
                play_count: match u.play_count {
                    Some(c) => c,
                    None => if marks_played {
                        if o.play_count >= 1 { o.play_count } else { 1 }
                    } else {
                        o.play_count
                    },
                },
                is_favorite: match u.is_favorite {
                    Some(f) => f,
                    None => o.is_favorite,
                },
                is_played: match u.played {
                    Some(p) => p,
                    None => o.is_played,
                },
                last_played_date: if marks_played {
                    match u.last_played_date {
                        Some(d) => Some(d),
                        None => Some(now),
                    }
                } else if marks_unplayed {
                    None
                } else {
                    match u.last_played_date {
                        Some(d) => Some(d),
                        None => o.last_played_date,
                    }
                },
            }
        },
    }
}

/// Marking an item favourite or not leaves its play state alone.
pub proof fn law_favorite_keeps_play_state(old: UserItemRow, is_favorite: bool)
    ensures
        ({
            let r = favorite_set(Some(old), is_favorite);
            &&& r.playback_position_ticks == old.playback_position_ticks
            &&& r.play_count == old.play_count
            &&& r.is_played == old.is_played
            &&& r.last_played_date == old.last_played_date
            &&& r.is_favorite == is_favorite
        }),
{
}

/// Marking an item played twice counts it as marking it once (at the same
/// date); marking it unplayed then leaves no plays and no date.
pub proof fn law_mark_played_idempotent(old: Option<UserItemRow>, date: Option<i64>, now: i64)
    ensures
        played_set(Some(played_set(old, true, date, now)), true, date, now) == played_set(old, true, date, now),
        played_set(Some(played_set(old, true, date, now)), false, date, now).play_count == 0,
        played_set(Some(played_set(old, true, date, now)), false, date, now).last_played_date is None,
{
}

} // verus!
