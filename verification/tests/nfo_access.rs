use movie_rust::access::{check_allowed_library_short_circuit, effective_library_filter_for_user};
use movie_rust::identity::ProviderIds;
use movie_rust::nfo::{
    first_tag_value, merge_nfo_text, nfo_candidates_for_item, provider_ids_for_item, provider_ids_from_nfo_text,
    strip_xml_tags, uniqueid_provider_name,
};
use movie_rust::pathids::{provider_ids_from_path_text, provider_ids_in_path};
use movie_rust::web::{dashboard_dir, list_root_entries};

fn providers(pairs: &[(&str, &str)]) -> ProviderIds {
    ProviderIds { entries: pairs.iter().map(|(k, v)| (k.to_string(), v.to_string())).collect() }
}

#[test]
fn strip_tags_removes_markup() {
    assert_eq!(strip_xml_tags("a<b>c</b>d"), "acd");
    assert_eq!(strip_xml_tags("x <> y"), "x <> y");
    assert_eq!(strip_xml_tags("1 < 2"), "1 < 2");
    assert_eq!(strip_xml_tags("<<b>>"), ">");
}

#[test]
fn tag_values_and_unique_ids() {
    let xml = "<movie><title>T</title><IMDBID> tt01 </IMDBID><tmdbid></tmdbid>\
               <uniqueid type=\"tvdb\">77</uniqueid><uniqueid type='TheMovieDB' default=\"true\">603</uniqueid>\
               <uniqueid>9</uniqueid><uniqueid type=\"imdb\">tt99</uniqueid></movie>";
    assert_eq!(first_tag_value(xml, &["imdbid"]), Some("tt01".to_string()));
    assert_eq!(first_tag_value(xml, &["tmdbid", "title"]), Some("T".to_string()));
    assert_eq!(uniqueid_provider_name(" type=\"TheTVDB\""), Some("Tvdb".to_string()));
    assert_eq!(uniqueid_provider_name(" provider='anidb'"), Some("anidb".to_string()));
    assert_eq!(uniqueid_provider_name(" default=\"true\""), None);
    let p = provider_ids_from_nfo_text(xml);
    assert_eq!(p.get("Imdb"), Some("tt01".to_string()));
    assert_eq!(p.get("Tmdb"), Some("603".to_string()));
    assert_eq!(p.get("Tvdb"), Some("77".to_string()));
    assert_eq!(p.get("Unknown"), Some("9".to_string()));
    assert_eq!(p.get("Trakt"), None);
}

#[test]
fn nfo_candidates_by_item_type() {
    assert_eq!(nfo_candidates_for_item("Movie", "/m/Film/film.mkv"), vec![
        "/m/Film/film.nfo".to_string(),
        "/m/Film/movie.nfo".to_string(),
    ]);
    assert_eq!(nfo_candidates_for_item("Series", "/tv/Show"), vec![
        "/tv/Show/tvshow.nfo".to_string(),
        "/tv/Show/series.nfo".to_string(),
        "/tv/tvshow.nfo".to_string(),
        "/tv/series.nfo".to_string(),
    ]);
    assert_eq!(nfo_candidates_for_item("Season", "/tv/Show/S1").len(), 5);
    let ep = nfo_candidates_for_item("Episode", "/tv/Show/S1/e1.mkv");
    assert_eq!(ep[..4].to_vec(), vec![
        "/tv/Show/S1/e1.nfo".to_string(),
        "/tv/Show/S1/episodedetails.nfo".to_string(),
        "/tv/Show/S1/episode.nfo".to_string(),
        "/tv/Show/S1/season.nfo".to_string(),
    ]);
    assert_eq!(ep[4..].to_vec(), vec![
        "/tv/Show/S1/tvshow.nfo".to_string(),
        "/tv/Show/S1/series.nfo".to_string(),
        "/tv/Show/tvshow.nfo".to_string(),
        "/tv/Show/series.nfo".to_string(),
        "/tv/tvshow.nfo".to_string(),
        "/tv/series.nfo".to_string(),
        "/tvshow.nfo".to_string(),
        "/series.nfo".to_string(),
    ]);
    assert_eq!(nfo_candidates_for_item("Audio", "/music/a.mp3"), vec!["/music/a.nfo".to_string()]);
    assert!(nfo_candidates_for_item("Movie", "/").is_empty());
}

#[test]
fn provider_sources_merge_in_order() {
    let found = merge_nfo_text(providers(&[("Tmdb", "1")]), "<tmdbid>2</tmdbid><imdbid>tt3</imdbid>");
    assert_eq!(found.get("Tmdb"), Some("1".to_string()));
    assert_eq!(found.get("Imdb"), Some("tt3".to_string()));
    let all = provider_ids_for_item(
        providers(&[("Tmdb", "1")]),
        &providers(&[("Tmdb", "2"), ("Imdb", "tt3")]),
        &providers(&[("Imdb", "tt4"), ("Tvdb", "5")]),
    );
    assert_eq!(all.get("Tmdb"), Some("1".to_string()));
    assert_eq!(all.get("Imdb"), Some("tt3".to_string()));
    assert_eq!(all.get("Tvdb"), Some("5".to_string()));
}

#[test]
fn library_filters_follow_policy() {
    let libs = vec![1u128, 2, 3];
    assert_eq!(effective_library_filter_for_user(false, true, true, &vec![], &vec![], &libs), Some(vec![]));
    assert_eq!(effective_library_filter_for_user(true, true, false, &vec![], &vec![], &libs), None);
    assert_eq!(effective_library_filter_for_user(true, false, true, &vec![2], &vec![], &libs), None);
    assert_eq!(effective_library_filter_for_user(true, false, false, &vec![3], &vec![3, 1], &libs), Some(vec![1]));
}

#[test]
fn short_circuit_when_nothing_visible() {
    assert!(!check_allowed_library_short_circuit(&None, Some(1)));
    assert!(check_allowed_library_short_circuit(&Some(vec![]), None));
    assert!(check_allowed_library_short_circuit(&Some(vec![2]), Some(1)));
    assert!(!check_allowed_library_short_circuit(&Some(vec![1]), Some(1)));
    assert!(!check_allowed_library_short_circuit(&Some(vec![1]), None));
}

#[test]
fn dashboard_and_roots() {
    assert_eq!(dashboard_dir("/srv/static", true), "/srv/static/dashboard-ui");
    assert_eq!(dashboard_dir("/srv/static", false), "/srv/static");
    let roots = list_root_entries();
    assert_eq!(roots.len(), 1);
    assert_eq!(roots[0].path, "/");
    assert_eq!(roots[0].entry_type, "Directory");
}

#[test]
fn path_markers_give_provider_ids() {
    let p = provider_ids_from_path_text("/movies/Film {TmdbId=603} {imdbid= tt1 }/film {tvdbid=}.mkv");
    assert_eq!(p.get("Tmdb"), Some("603".to_string()));
    assert_eq!(p.get("Imdb"), Some("tt1".to_string()));
    assert_eq!(p.get("Tvdb"), None);
    assert_eq!(p.get("Trakt"), None);
    let open = provider_ids_from_path_text("/x/{traktid=42");
    assert_eq!(open.get("Trakt"), None);
    assert!(provider_ids_in_path("/x/{tmdbid=1}").is_some());
    assert!(provider_ids_in_path("İ{tmdbid=é}").is_none());
    let shifted = provider_ids_in_path("İ{tmdbid=5}").expect("readable");
    assert_eq!(shifted.get("Tmdb"), None);
}
