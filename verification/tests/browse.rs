use movie_rust::browse::{directory_listing, newest_first, DirectoryEntry, LogFile};

fn entry(name: &str, is_dir: bool, is_file: bool) -> DirectoryEntry {
    DirectoryEntry { name: name.to_string(), path: format!("/media/{name}"), is_dir, is_file }
}

fn names_and_types(entries: &[movie_rust::browse::FileSystemEntry]) -> Vec<(String, String)> {
    entries.iter().map(|e| (e.name.clone(), e.entry_type.clone())).collect()
}

#[test]
fn directories_come_first_then_names_ignoring_case() {
    let entries = vec![
        entry("zeta.mkv", false, true),
        entry("Movies", true, false),
        entry("alpha.mkv", false, true),
        entry("anime", true, false),
    ];
    let listed = directory_listing(&entries, true, true);
    assert_eq!(
        names_and_types(&listed),
        vec![
            ("anime".to_string(), "Directory".to_string()),
            ("Movies".to_string(), "Directory".to_string()),
            ("alpha.mkv".to_string(), "File".to_string()),
            ("zeta.mkv".to_string(), "File".to_string()),
        ]
    );
    assert_eq!(listed[1].path, "/media/Movies");
}

#[test]
fn files_are_left_out_unless_asked_for() {
    let entries = vec![entry("a.mkv", false, true), entry("Shows", true, false)];
    let listed = directory_listing(&entries, false, true);
    assert_eq!(names_and_types(&listed), vec![("Shows".to_string(), "Directory".to_string())]);
}

#[test]
fn directories_can_be_left_out() {
    let entries = vec![entry("a.mkv", false, true), entry("Shows", true, false)];
    let listed = directory_listing(&entries, true, false);
    assert_eq!(names_and_types(&listed), vec![("a.mkv".to_string(), "File".to_string())]);
}

#[test]
fn entries_that_are_neither_file_nor_directory_are_skipped() {
    let entries = vec![entry("socket", false, false), entry("b", false, true)];
    let listed = directory_listing(&entries, true, true);
    assert_eq!(names_and_types(&listed), vec![("b".to_string(), "File".to_string())]);
}

#[test]
fn names_equal_but_for_case_keep_the_order_read() {
    let entries = vec![entry("Readme", false, true), entry("README", false, true), entry("readme", false, true)];
    let listed = directory_listing(&entries, true, true);
    let names: Vec<String> = listed.iter().map(|e| e.name.clone()).collect();
    assert_eq!(names, vec!["Readme", "README", "readme"]);
}

#[test]
fn log_files_newest_first_ties_in_order_read() {
    let files = vec![
        LogFile { name: "old.log".to_string(), date_modified: 100 },
        LogFile { name: "new.log".to_string(), date_modified: 300 },
        LogFile { name: "mid-a.log".to_string(), date_modified: 200 },
        LogFile { name: "mid-b.log".to_string(), date_modified: 200 },
    ];
    let sorted = newest_first(&files);
    let names: Vec<&str> = sorted.iter().map(|f| f.name.as_str()).collect();
    assert_eq!(names, vec!["new.log", "mid-a.log", "mid-b.log", "old.log"]);
    assert_eq!(sorted[0].date_modified, 300);
}

#[test]
fn no_log_files_gives_none() {
    assert!(newest_first(&Vec::new()).is_empty());
}
