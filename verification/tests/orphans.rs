use movie_rust::orphans::{
    keep_paths_without_source, plan_orphan_cleanup, remote_view_path, retain_live_paths, view_source, OrphanPlan,
};

const LIVE: u128 = 0x00112233_4455_6677_8899_aabbccddeeff;

fn live_simple() -> String {
    format!("{LIVE:032x}")
}

#[test]
fn view_paths_name_their_source() {
    assert_eq!(view_source("__remote_view_ABC_movies"), Some("abc".to_string()));
    assert_eq!(view_source("__remote_view___remote_view_xy_z"), Some("xy".to_string()));
    assert_eq!(view_source("__remote_view_nounderscore"), None);
    assert_eq!(view_source("/media/plain_path"), None);
    assert_eq!(view_source("x__remote_view_abc_d"), None);
}

#[test]
fn orphans_are_removed_within_the_valve() {
    let libs: Vec<(u128, String)> = vec![
        (1, format!("__remote_view_{}_a", live_simple().to_uppercase())),
        (2, "__remote_view_dead_b".to_string()),
        (3, format!("__remote_view_{}_c", live_simple())),
        (4, "__remote_view_broken".to_string()),
        (5, format!("__remote_view_{}_d", live_simple())),
    ];
    match plan_orphan_cleanup(&libs, &vec![LIVE]) {
        OrphanPlan::Remove(ids) => assert_eq!(ids, vec![2]),
        OrphanPlan::Abort(_) => panic!("expected a removal"),
    }
    match plan_orphan_cleanup(&libs[..2].to_vec(), &vec![LIVE]) {
        OrphanPlan::Abort(n) => assert_eq!(n, 1),
        OrphanPlan::Remove(_) => panic!("half of them trips the valve"),
    }
    match plan_orphan_cleanup(&libs, &Vec::new()) {
        OrphanPlan::Abort(n) => assert_eq!(n, 4),
        OrphanPlan::Remove(_) => panic!("expected the valve"),
    }
    let many: Vec<(u128, String)> = (0..200u128)
        .map(|i| if i < 51 { (i, format!("__remote_view_gone{i}_x")) } else { (i, format!("__remote_view_{}_x", live_simple())) })
        .collect();
    assert!(matches!(plan_orphan_cleanup(&many, &vec![LIVE]), OrphanPlan::Abort(51)));
    match plan_orphan_cleanup(&Vec::new(), &Vec::new()) {
        OrphanPlan::Remove(ids) => assert!(ids.is_empty()),
        OrphanPlan::Abort(_) => panic!("nothing to remove"),
    }
}

#[test]
fn path_entries_of_dead_sources_are_dropped() {
    let paths = vec![
        Some("/media/films".to_string()),
        None,
        Some(format!("__remote_view_{}_x", live_simple())),
        Some("__remote_view_Dead_x".to_string()),
        Some("__remote_view_broken".to_string()),
    ];
    let (keep, dropped) = retain_live_paths(&paths, &vec![LIVE]);
    assert_eq!(keep, vec![true, true, true, false, false]);
    assert_eq!(dropped, vec!["dead".to_string()]);
}

#[test]
fn view_paths_round_trip_their_source() {
    let path = remote_view_path(LIVE, "  view_42 ");
    assert_eq!(path, format!("__remote_view_{}_view_42", live_simple()));
    assert_eq!(view_source(&path), Some(live_simple()));
}

#[test]
fn removing_a_source_drops_its_view_paths() {
    let paths = vec![
        Some(remote_view_path(LIVE, "v1")),
        Some("/media/films".to_string()),
        Some(remote_view_path(7, "v1")),
        None,
    ];
    assert_eq!(keep_paths_without_source(&paths, LIVE), vec![false, true, true, true]);
}

#[test]
fn a_source_removal_deletes_its_view_libraries_only() {
    let id = movie_rust::orphans::libraries_of_source(
        &vec![
            (1, format!("__remote_view_{}_movies", live_simple())),
            (2, "/media/films".to_string()),
            (3, format!("__remote_view_{}Xmovies", live_simple())),
            (4, format!("__remote_view_{}_shows", live_simple())),
            (5, format!("x__remote_view_{}_shows", live_simple())),
        ],
        LIVE,
    );
    assert_eq!(id, vec![1, 4]);
}
