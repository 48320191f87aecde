use movie_rust::edits::{apply_metadata_edit, edit_provider_ids, EditableMetadata, MetadataEdit};
use movie_rust::identity::ProviderIds;

fn ids(pairs: &[(&str, &str)]) -> ProviderIds {
    ProviderIds { entries: pairs.iter().map(|(k, v)| (k.to_string(), v.to_string())).collect() }
}

fn stored() -> EditableMetadata {
    EditableMetadata {
        name: "Heat".to_string(),
        original_title: None,
        sort_name: Some("heat".to_string()),
        overview: Some("Old".to_string()),
        official_rating: Some("R".to_string()),
        parental_rating_value: Some(17),
        production_year: Some(1995),
        premiere_date: Some("1995-12-15".to_string()),
        end_date: None,
        status: None,
        genres: vec!["Crime".to_string()],
        tags: Vec::new(),
        studios: Vec::new(),
        production_locations: Vec::new(),
        taglines: Vec::new(),
        locked_fields: Vec::new(),
        lock_data: false,
    }
}

fn nothing() -> MetadataEdit {
    MetadataEdit {
        name: None,
        original_title: None,
        sort_name: None,
        overview: None,
        official_rating: None,
        production_year: None,
        premiere_date: None,
        end_date: None,
        status: None,
        genres: None,
        tags: None,
        studios: None,
        production_locations: None,
        taglines: None,
        locked_fields: None,
        lock_data: None,
    }
}

#[test]
fn provider_edits_merge_then_remove() {
    let r = edit_provider_ids(
        &ids(&[("Tmdb", "1"), ("Imdb", "tt1")]),
        Some(&ids(&[("Tmdb", "2"), ("Tvdb", "9")])),
        Some(&vec!["Imdb".to_string(), "Tvdb".to_string()]),
    );
    assert_eq!(r.get("Tmdb").as_deref(), Some("2"));
    assert_eq!(r.get("Imdb"), None);
    assert_eq!(r.get("Tvdb"), None);
    let kept = edit_provider_ids(&ids(&[("Tmdb", "1")]), None, None);
    assert_eq!(kept.get("Tmdb").as_deref(), Some("1"));
}

#[test]
fn edits_write_only_given_fields() {
    let mut e = nothing();
    e.overview = Some("New".to_string());
    e.official_rating = Some(" pg-13 ".to_string());
    e.genres = Some(vec!["Drama".to_string()]);
    e.lock_data = Some(true);
    let r = apply_metadata_edit(stored(), e);
    assert_eq!(r.name, "Heat");
    assert_eq!(r.overview.as_deref(), Some("New"));
    assert_eq!(r.official_rating.as_deref(), Some(" pg-13 "));
    assert_eq!(r.parental_rating_value, Some(7));
    assert_eq!(r.genres, vec!["Drama".to_string()]);
    assert_eq!(r.sort_name.as_deref(), Some("heat"));
    assert_eq!(r.production_year, Some(1995));
    assert!(r.lock_data);
    let same = apply_metadata_edit(stored(), nothing());
    assert_eq!(same.parental_rating_value, Some(17));
    assert_eq!(same.overview.as_deref(), Some("Old"));
}

#[test]
fn dates_are_written_when_given() {
    let mut edit = nothing();
    edit.end_date = Some("1996-01-01".to_string());
    let r = apply_metadata_edit(stored(), edit);
    assert_eq!(r.premiere_date.as_deref(), Some("1995-12-15"));
    assert_eq!(r.end_date.as_deref(), Some("1996-01-01"));
    let mut edit = nothing();
    edit.premiere_date = Some("2000-02-02".to_string());
    let r = apply_metadata_edit(stored(), edit);
    assert_eq!(r.premiere_date.as_deref(), Some("2000-02-02"));
}

#[test]
fn removal_names_a_provider_in_any_case() {
    let stored_ids = ids(&[("Tmdb", "1"), ("Imdb", "tt1")]);
    let remove = vec!["tmdb".to_string()];
    let r = edit_provider_ids(&stored_ids, None, Some(&remove));
    assert_eq!(r.get("Tmdb"), None);
    assert_eq!(r.get("Imdb").as_deref(), Some("tt1"));
    assert_eq!(r.entries.len(), 1);
}
