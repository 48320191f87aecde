use movie_rust::query::{
    apply_user_policy, effective_limit, page_bounds, effective_start, filter_clauses, needs_search_exclusions, order_plan,
    prefix_pattern, search_pattern, video_types_clause, FilterClause, PolicyLimits, SortColumn,
};

fn limits(max: Option<i32>, tags: &[&str], unrated: &[&str]) -> PolicyLimits {
    PolicyLimits {
        max_parental_rating: max,
        blocked_tags: tags.iter().map(|s| s.to_string()).collect(),
        block_unrated_items: unrated.iter().map(|s| s.to_string()).collect(),
    }
}

#[test]
fn order_defaults_to_sort_name_ascending() {
    let plan = order_plan(None, None, false);
    assert_eq!(plan.columns, vec![SortColumn::SortName]);
    assert!(!plan.descending);
    let blank = order_plan(Some(" , "), Some("ascending"), true);
    assert_eq!(blank.columns, vec![SortColumn::SortName]);
    assert!(!blank.descending);
}

#[test]
fn order_maps_each_key() {
    let plan = order_plan(
        Some("DatePlayed, DateLastContentAdded,ProductionYear,Unknown,Random"),
        Some("descending"),
        true,
    );
    assert_eq!(
        plan.columns,
        vec![
            SortColumn::DatePlayed,
            SortColumn::DateCreated,
            SortColumn::ProductionYear,
            SortColumn::SortName,
            SortColumn::Random,
        ]
    );
    assert!(plan.descending);
    let anonymous = order_plan(Some("DatePlayed,Runtime"), Some("Descending"), false);
    assert_eq!(anonymous.columns, vec![SortColumn::DateCreated, SortColumn::Runtime]);
    assert!(anonymous.descending);
}

#[test]
fn filters_become_clauses() {
    assert_eq!(
        filter_clauses(Some("IsPlayed, isFolder;bogus|IsResumable"), true),
        vec![FilterClause::Played, FilterClause::Folder, FilterClause::Resumable]
    );
    assert_eq!(
        filter_clauses(Some("IsFavorite,IsNotFolder,IsUnplayed"), false),
        vec![FilterClause::Nothing, FilterClause::NotFolder, FilterClause::Nothing]
    );
    assert_eq!(filter_clauses(None, true), Vec::<FilterClause>::new());
}

#[test]
fn video_types_select_videos_or_nothing() {
    assert_eq!(video_types_clause(&Vec::new()), None);
    assert_eq!(video_types_clause(&vec![" VideoFile ".to_string()]), Some(true));
    assert_eq!(video_types_clause(&vec!["Dvd".to_string(), "video".to_string()]), Some(true));
    assert_eq!(video_types_clause(&vec!["BluRay".to_string()]), Some(false));
}

#[test]
fn page_bounds_are_clamped() {
    assert_eq!(effective_limit(-5), 0);
    assert_eq!(effective_limit(50), 50);
    assert_eq!(effective_limit(5000), 1000);
    assert_eq!(effective_start(-3), 0);
    assert_eq!(effective_start(40), 40);
}

#[test]
fn name_patterns_trim_the_term() {
    assert_eq!(search_pattern(Some("  matrix ")), Some("%matrix%".to_string()));
    assert_eq!(search_pattern(Some("   ")), None);
    assert_eq!(search_pattern(None), None);
    assert_eq!(prefix_pattern(Some(" The ")), Some("The%".to_string()));
    assert_eq!(prefix_pattern(Some("")), None);
}

#[test]
fn user_policy_fills_missing_limits() {
    let applied = apply_user_policy(limits(None, &[], &["Movie"]), Some((false, limits(Some(10), &["gore"], &[]))));
    assert_eq!(applied.max_parental_rating, Some(10));
    assert_eq!(applied.blocked_tags, vec!["gore".to_string()]);
    assert_eq!(applied.block_unrated_items, vec!["Movie".to_string()]);
    let admin = apply_user_policy(limits(None, &[], &[]), Some((true, limits(Some(10), &["gore"], &[]))));
    assert_eq!(admin.max_parental_rating, None);
    assert!(admin.blocked_tags.is_empty());
    let given = apply_user_policy(limits(Some(5), &[], &[]), Some((false, limits(Some(10), &["gore"], &["Series"]))));
    assert_eq!(given.max_parental_rating, Some(5));
    assert!(given.block_unrated_items.is_empty());
    let unknown = apply_user_policy(limits(None, &[], &[]), None);
    assert_eq!(unknown.max_parental_rating, None);
}

#[test]
fn searches_leave_out_excluded_libraries() {
    assert!(needs_search_exclusions(&Vec::new(), Some(" heat ")));
    assert!(!needs_search_exclusions(&Vec::new(), Some("  ")));
    assert!(!needs_search_exclusions(&Vec::new(), None));
    assert!(!needs_search_exclusions(&vec![1], Some("heat")));
}

#[test]
fn pages_are_clamped_slices() {
    assert_eq!(page_bounds(10, 0, 3), Some((0, 3)));
    assert_eq!(page_bounds(10, -4, 0), Some((0, 1)));
    assert_eq!(page_bounds(10, 8, 500), Some((8, 10)));
    assert_eq!(page_bounds(300, 0, 500), Some((0, 200)));
    assert_eq!(page_bounds(10, 10, 5), None);
    assert_eq!(page_bounds(0, 0, 5), None);
}

#[test]
fn page_of_slices_the_requested_page() {
    let items: Vec<u32> = (0..10).collect();
    assert_eq!(movie_rust::query::page_of(items.clone(), 3, 4), vec![3, 4, 5, 6]);
    assert_eq!(movie_rust::query::page_of(items.clone(), -5, 0), vec![0]);
    assert_eq!(movie_rust::query::page_of(items.clone(), 8, 500), vec![8, 9]);
    assert!(movie_rust::query::page_of(items, 10, 5).is_empty());
}
