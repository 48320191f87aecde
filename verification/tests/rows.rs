use movie_rust::rows::{row_listed, row_matches, ItemRow, RowConditions};

fn s(v: &str) -> String {
    v.to_string()
}

fn movie() -> ItemRow {
    ItemRow {
        library_id: Some(7),
        ancestors: vec![100, 10],
        item_type: s("Movie"),
        genres: vec![s("Drama"), s("Crime")],
        tags: vec![s("classic")],
        studios: vec![s("Studio A")],
        production_year: Some(1994),
        official_rating: Some(s("R")),
        width: Some(1920),
        height: Some(800),
        provider_keys: vec![s("Tmdb"), s("Imdb")],
        status: None,
        parental_rating_value: Some(9),
        premiere_day: Some(9000),
    }
}

fn none() -> RowConditions {
    RowConditions {
        library_id: None,
        parent_id: None,
        recursive: true,
        include_types: vec![],
        exclude_types: vec![],
        genres: vec![],
        tags: vec![],
        years: vec![],
        studios: vec![],
        official_ratings: vec![],
        project_to_media: false,
        is_folder: None,
        is_hd: None,
        has_tmdb_id: None,
        has_imdb_id: None,
        series_status: vec![],
        policy_max_parental_rating: None,
        policy_blocked_tags: vec![],
        policy_block_unrated_items: vec![],
        excluded_library_ids: vec![],
        min_premiere_day: None,
        max_premiere_day: None,
    }
}

#[test]
fn rows_without_conditions_are_kept() {
    assert!(row_matches(&movie(), &none()));
}

#[test]
fn rows_non_recursive_listing_keeps_direct_children_only() {
    let mut c = none();
    c.parent_id = Some(100);
    c.recursive = false;
    assert!(row_matches(&movie(), &c));
    c.parent_id = Some(10);
    assert!(!row_matches(&movie(), &c));
    c.recursive = true;
    assert!(row_matches(&movie(), &c));
    c.parent_id = None;
    c.recursive = false;
    assert!(!row_matches(&movie(), &c));
}

#[test]
fn rows_type_lists_ignore_case_and_blanks() {
    let mut c = none();
    c.include_types = vec![s("  MOVIE ")];
    assert!(row_matches(&movie(), &c));
    c.include_types = vec![s("   ")];
    assert!(!row_matches(&movie(), &c));
    c.include_types = vec![];
    c.exclude_types = vec![s("movie")];
    assert!(!row_matches(&movie(), &c));
}

#[test]
fn rows_values_overlap() {
    let mut c = none();
    c.genres = vec![s("Comedy"), s("Crime")];
    assert!(row_matches(&movie(), &c));
    c.genres = vec![s("crime")];
    assert!(!row_matches(&movie(), &c));
    c.genres = vec![];
    c.years = vec![1990, 1994];
    assert!(row_matches(&movie(), &c));
    c.years = vec![2000];
    assert!(!row_matches(&movie(), &c));
}

#[test]
fn rows_hd_and_provider_flags() {
    let mut c = none();
    c.is_hd = Some(true);
    assert!(row_matches(&movie(), &c));
    let mut small = movie();
    small.width = Some(1000);
    small.height = None;
    assert!(!row_matches(&small, &c));
    c.is_hd = Some(false);
    assert!(row_matches(&small, &c));
    let mut c2 = none();
    c2.has_tmdb_id = Some(false);
    assert!(!row_matches(&movie(), &c2));
    let mut lower_keys = movie();
    lower_keys.provider_keys = vec![s("tmdb")];
    c2.has_tmdb_id = Some(true);
    assert!(row_matches(&lower_keys, &c2));
}

#[test]
fn rows_policy_limits() {
    let mut c = none();
    c.policy_max_parental_rating = Some(8);
    assert!(!row_matches(&movie(), &c));
    c.policy_max_parental_rating = Some(9);
    assert!(row_matches(&movie(), &c));
    c.policy_blocked_tags = vec![s("classic")];
    assert!(!row_matches(&movie(), &c));
    let mut unrated = movie();
    unrated.parental_rating_value = None;
    let mut c2 = none();
    c2.policy_block_unrated_items = vec![s("Movie")];
    assert!(!row_matches(&unrated, &c2));
    c2.excluded_library_ids = vec![7];
    c2.policy_block_unrated_items = vec![];
    assert!(!row_matches(&movie(), &c2));
}

#[test]
fn rows_folder_projection() {
    let mut folder = movie();
    folder.item_type = s("BoxSet");
    let mut c = none();
    c.project_to_media = true;
    assert!(!row_matches(&folder, &c));
    let mut c2 = none();
    c2.is_folder = Some(true);
    assert!(row_matches(&folder, &c2));
    assert!(!row_matches(&movie(), &c2));
}

#[test]
fn rows_listed_needs_an_allowed_library() {
    let c = none();
    assert!(row_listed(&movie(), &c, &None));
    assert!(row_listed(&movie(), &c, &Some(vec![7])));
    assert!(!row_listed(&movie(), &c, &Some(vec![8])));
    assert!(!row_listed(&movie(), &c, &Some(vec![])));
}

#[test]
fn rows_premiere_date_bounds() {
    let mut c = none();
    c.min_premiere_day = Some(9000);
    c.max_premiere_day = Some(9000);
    assert!(row_matches(&movie(), &c));
    c.min_premiere_day = Some(9001);
    assert!(!row_matches(&movie(), &c));
    let mut undated = movie();
    undated.premiere_day = None;
    let mut c2 = none();
    c2.max_premiere_day = Some(20000);
    assert!(!row_matches(&undated, &c2));
}
