use movie_rust::playlists::{append_sort_indices, move_entry};

fn ids(v: &[&str]) -> Vec<String> {
    v.iter().map(|s| s.to_string()).collect()
}

#[test]
fn added_items_follow_the_last() {
    assert_eq!(append_sort_indices(Some(4), 3), vec![5, 6, 7]);
    assert_eq!(append_sort_indices(None, 2), vec![0, 1]);
    assert_eq!(append_sort_indices(Some(9), 0), Vec::<i64>::new());
}

#[test]
fn moving_an_entry_reorders_the_rest_around_it() {
    let list = ids(&["a", "b", "c", "d"]);
    assert_eq!(move_entry(&list, "c", 0), Some(vec![2, 0, 1, 3]));
    assert_eq!(move_entry(&list, "a", 2), Some(vec![1, 2, 0, 3]));
    assert_eq!(move_entry(&list, "b", 99), Some(vec![0, 2, 3, 1]));
    assert_eq!(move_entry(&list, "d", -5), Some(vec![3, 0, 1, 2]));
    assert_eq!(move_entry(&list, "z", 1), None);
}
