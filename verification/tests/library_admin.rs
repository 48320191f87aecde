use movie_rust::library_admin::{check_library_rename, prepare_new_library, CreateLibraryError, RenameLibraryError};
use movie_rust::paths::{Library, LibraryOptions};

fn strings(v: &[&str]) -> Vec<String> {
    v.iter().map(|s| s.to_string()).collect()
}

fn empty_options() -> LibraryOptions {
    LibraryOptions {
        path_infos: Vec::new(),
        season_zero_display_name: String::new(),
        preferred_image_language: None,
        preferred_metadata_language: None,
        min_collection_items: 0,
    }
}

fn existing() -> Vec<Library> {
    vec![Library {
        id: 1,
        name: "Films".to_string(),
        collection_type: "movies".to_string(),
        path: "/media/films".to_string(),
        options: None,
    }]
}

#[test]
fn new_libraries_are_checked_in_order() {
    let ok = prepare_new_library(" Shows ", "TVShows", &strings(&["/media/tv/", " "]), empty_options(), false, &existing());
    let lib = match ok {
        Ok(l) => l,
        Err(_) => panic!("expected a library"),
    };
    assert_eq!(lib.name, "Shows");
    assert_eq!(lib.collection_type, "tvshows");
    assert_eq!(lib.paths, strings(&["/media/tv/"]));
    assert_eq!(lib.options.path_infos, strings(&["/media/tv/"]));
    assert!(matches!(
        prepare_new_library("  ", "movies", &Vec::new(), empty_options(), true, &existing()),
        Err(CreateLibraryError::EmptyName)
    ));
    assert!(matches!(
        prepare_new_library("Films", "movies", &Vec::new(), empty_options(), true, &existing()),
        Err(CreateLibraryError::NameTaken)
    ));
    assert!(matches!(
        prepare_new_library("New", "movies", &strings(&[" "]), empty_options(), false, &existing()),
        Err(CreateLibraryError::NoPaths)
    ));
    match prepare_new_library("New", "movies", &strings(&["/media/films/action"]), empty_options(), false, &existing()) {
        Err(CreateLibraryError::PathConflict(c)) => assert_eq!(c.existing_path, "/media/films"),
        _ => panic!("expected a conflict"),
    }
}

#[test]
fn renames_keep_names_unique() {
    assert_eq!(check_library_rename("Films", " Movies ", false), Ok("Movies".to_string()));
    assert_eq!(check_library_rename("Films", "FILMS", true), Ok("FILMS".to_string()));
    assert_eq!(check_library_rename("Films", "Shows", true), Err(RenameLibraryError::NameTaken));
    assert_eq!(check_library_rename("Films", "  ", false), Err(RenameLibraryError::EmptyName));
}
