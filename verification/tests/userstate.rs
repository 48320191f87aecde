use movie_rust::userdata::{set_user_favorite, set_user_played, update_user_item_data, UserDataUpdate, UserItemRow};

fn row(pos: i64, count: i32, fav: bool, played: bool, date: Option<i64>) -> UserItemRow {
    UserItemRow { playback_position_ticks: pos, play_count: count, is_favorite: fav, is_played: played, last_played_date: date }
}

fn same(a: &UserItemRow, b: &UserItemRow) -> bool {
    a.playback_position_ticks == b.playback_position_ticks
        && a.play_count == b.play_count
        && a.is_favorite == b.is_favorite
        && a.is_played == b.is_played
        && a.last_played_date == b.last_played_date
}

#[test]
fn favourites_touch_only_the_flag() {
    let r = set_user_favorite(Some(row(50, 3, false, true, Some(9))), true);
    assert!(same(&r, &row(50, 3, true, true, Some(9))));
    let fresh = set_user_favorite(None, true);
    assert!(same(&fresh, &row(0, 0, true, false, None)));
}

#[test]
fn marking_played_and_unplayed() {
    let p = set_user_played(Some(row(50, 0, true, false, None)), true, None, 100);
    assert!(same(&p, &row(0, 1, true, true, Some(100))));
    let again = set_user_played(Some(row(0, 4, true, true, Some(1))), true, Some(7), 100);
    assert!(same(&again, &row(0, 4, true, true, Some(7))));
    let un = set_user_played(Some(row(30, 4, true, true, Some(1))), false, Some(7), 100);
    assert!(same(&un, &row(0, 0, true, false, None)));
    let fresh = set_user_played(None, true, None, 5);
    assert!(same(&fresh, &row(0, 1, false, true, Some(5))));
}

#[test]
fn client_updates_write_what_they_give() {
    let u = UserDataUpdate { playback_position_ticks: Some(70), play_count: None, is_favorite: None, played: None, last_played_date: None };
    assert!(same(&update_user_item_data(Some(row(10, 2, true, false, Some(3))), u, 100), &row(70, 2, true, false, Some(3))));
    let u = UserDataUpdate { playback_position_ticks: Some(70), play_count: None, is_favorite: Some(false), played: Some(true), last_played_date: None };
    assert!(same(&update_user_item_data(Some(row(10, 0, true, false, None)), u, 100), &row(0, 1, false, true, Some(100))));
    let u = UserDataUpdate { playback_position_ticks: None, play_count: Some(9), is_favorite: None, played: Some(false), last_played_date: Some(4) };
    assert!(same(&update_user_item_data(Some(row(10, 2, true, true, Some(3))), u, 100), &row(10, 9, true, false, None)));
    let u = UserDataUpdate { playback_position_ticks: Some(5), play_count: None, is_favorite: None, played: None, last_played_date: Some(4) };
    assert!(same(&update_user_item_data(None, u, 100), &row(5, 0, false, false, Some(4))));
}
