use movie_rust::identity::{boxset_id, presentation_unique_key, IdentityItem, ProviderIds};
use uuid::Uuid;
use movie_rust::similar::{
    find_similar, pick_similar, rank_by_score, similarity_score, SimilarCandidate, SimilarityProfile,
};

fn strings(v: &[&str]) -> Vec<String> {
    v.iter().map(|s| s.to_string()).collect()
}

fn profile(rating: Option<&str>, genres: &[&str], tags: &[&str], studios: &[&str], year: Option<i32>) -> SimilarityProfile {
    SimilarityProfile {
        official_rating: rating.map(|s| s.to_string()),
        genres: strings(genres),
        tags: strings(tags),
        studios: strings(studios),
        production_year: year,
    }
}

fn item(id: u128, name: &str, tmdb: Option<&str>) -> (IdentityItem, ProviderIds) {
    let item = IdentityItem {
        id,
        item_type: "Movie".to_string(),
        name: name.to_string(),
        series_name: None,
        path: format!("/m/{name}.mkv"),
        production_year: Some(2000),
        index_number: None,
        index_number_end: None,
        parent_index_number: None,
        premiere_date: None,
    };
    let entries = match tmdb {
        Some(t) => vec![("Tmdb".to_string(), t.to_string())],
        None => Vec::new(),
    };
    (item, ProviderIds { entries })
}

#[test]
fn score_follows_the_weights() {
    let target = profile(Some("PG-13"), &["Action", "Drama"], &["heist"], &["WB", "Fox"], Some(2000));
    let people = strings(&["Nolan", "Bale", "Zimmer"]);
    let candidate = profile(Some("pg-13"), &["Drama", "Comedy", "Action"], &["heist", "x"], &["Fox"], Some(2004));
    let cast = vec![
        ("Nolan".to_string(), "Director".to_string()),
        ("Bale".to_string(), "Actor".to_string()),
        ("Zimmer".to_string(), "Composer".to_string()),
        ("Other".to_string(), "Writer".to_string()),
    ];
    // 10 rating + 20 genres + 10 tags + 3 studio + 5 + 3 + 3 people + 4 year
    assert_eq!(similarity_score(&target, &people, &candidate, &cast), 58);
    let far = profile(Some(""), &[], &[], &[], Some(2009));
    assert_eq!(similarity_score(&profile(Some(""), &[], &[], &[], Some(2000)), &people, &far, &Vec::new()), 2);
    assert_eq!(similarity_score(&target, &people, &profile(None, &[], &[], &[], None), &vec![("Bale".to_string(), "Producer".to_string())]), 1);
}

#[test]
fn ranking_is_a_stable_descending_sort() {
    assert_eq!(rank_by_score(&vec![3, 10, 2, 10, 5, -1, 3]), vec![1, 3, 4, 0, 6]);
    assert_eq!(rank_by_score(&vec![0, 1, 2]), Vec::<usize>::new());
}

#[test]
fn picking_groups_and_limits() {
    let keys = strings(&["a", "b", "a", "c", "d"]);
    assert_eq!(pick_similar(&keys, true, 3), vec![0, 1, 3]);
    assert_eq!(pick_similar(&keys, false, 3), vec![0, 1, 2]);
    assert_eq!(pick_similar(&keys, true, 0), vec![0]);
    assert_eq!(pick_similar(&keys, true, 100), vec![0, 1, 3, 4]);
}

#[test]
fn similar_items_skip_the_target_identity() {
    let (t_item, t_ids) = item(1, "Target", Some("42"));
    let target = profile(None, &["Drama"], &[], &[], None);
    let make = |id: u128, name: &str, tmdb: Option<&str>, genres: &[&str]| {
        let (it, ids) = item(id, name, tmdb);
        SimilarCandidate {
            id,
            library_id: Some(if id == 6 { 20 } else { 10 }),
            item: it,
            providers: ids,
            profile: profile(None, genres, &[], &[], None),
            people: Vec::new(),
        }
    };
    let candidates = vec![
        make(2, "Same", Some("42"), &["Drama"]),
        make(3, "One", Some("7"), &["Drama"]),
        make(4, "OneAgain", Some("7"), &["Drama"]),
        make(5, "Weak", None, &["Comedy"]),
        make(6, "Two", None, &["Drama"]),
    ];
    assert_eq!(find_similar(1, &None, &t_item, &t_ids, &target, &Vec::new(), &candidates, true, 10), vec![1, 4]);
    assert_eq!(find_similar(1, &None, &t_item, &t_ids, &target, &Vec::new(), &candidates, false, 10), vec![1, 2, 4]);
    assert_eq!(find_similar(1, &None, &t_item, &t_ids, &target, &Vec::new(), &candidates, false, 1), vec![1]);
    // Only libraries the user may see.
    assert_eq!(find_similar(1, &Some(vec![10]), &t_item, &t_ids, &target, &Vec::new(), &candidates, false, 10), vec![1, 2]);
    assert_eq!(find_similar(1, &Some(vec![]), &t_item, &t_ids, &target, &Vec::new(), &candidates, false, 10), Vec::<usize>::new());
    // Never the target itself, nor another item type.
    assert_eq!(find_similar(3, &None, &t_item, &t_ids, &target, &Vec::new(), &candidates, false, 10), vec![2, 4]);
    let mut other_type = candidates;
    other_type[1].item.item_type = "Series".to_string();
    assert_eq!(find_similar(1, &None, &t_item, &t_ids, &target, &Vec::new(), &other_type, false, 10), vec![2, 4]);
}

#[test]
fn boxset_ids_derive_from_presentation_keys() {
    let (it, ids) = item(7, "Heat", Some("949"));
    let key = presentation_unique_key(&it, &ids);
    let expected = Uuid::new_v5(&Uuid::NAMESPACE_URL, format!("boxset:{key}").as_bytes());
    assert_eq!(boxset_id(&it, &ids), expected.as_u128());
}
