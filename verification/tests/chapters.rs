use movie_rust::detail::{
    additional_parts_page, chapter_view, resolve_series_and_season_ids, resume_position, version_source_types, ParentRow,
};

#[test]
fn chapters_get_default_names_and_tags() {
    let c = chapter_view(100, None, 0, true, 1700000000, None);
    assert_eq!(c.name, "第 01 章");
    assert_eq!(c.image_tag.as_deref(), Some("1700000000"));
    assert_eq!(c.marker_type, "Chapter");
    let named = chapter_view(5, Some("Intro".to_string()), 11, false, 1, Some("IntroStart".to_string()));
    assert_eq!(named.name, "Intro");
    assert_eq!(named.image_tag, None);
    assert_eq!(named.marker_type, "IntroStart");
    assert_eq!(chapter_view(0, None, 99, false, 0, None).name, "第 100 章");
}

#[test]
fn versions_are_typed_and_paged() {
    assert_eq!(version_source_types(2, &vec![1, 2, 3]), vec!["Grouping", "Default", "Grouping"]);
    let (page, total) = additional_parts_page(&vec![1, 2, 3, 4, 5], 2, 1, 2);
    assert_eq!(total, 4);
    assert_eq!(page, vec![3, 4]);
    assert_eq!(additional_parts_page(&vec![1, 2, 3], 2, 5, 2).0, Vec::<u128>::new());
    assert_eq!(additional_parts_page(&vec![1, 2, 3], 9, -1, 0).0, vec![1]);
}

#[test]
fn series_and_seasons_follow_parents() {
    let season = Some(ParentRow { id: 20, item_type: "Season".to_string(), parent_id: Some(10) });
    assert_eq!(resolve_series_and_season_ids("Episode", Some(20), &season), (Some(10), Some(20)));
    let series = Some(ParentRow { id: 10, item_type: "Series".to_string(), parent_id: None });
    assert_eq!(resolve_series_and_season_ids("Episode", Some(10), &series), (Some(10), Some(10)));
    assert_eq!(resolve_series_and_season_ids("Episode", Some(20), &None), (None, Some(20)));
    assert_eq!(resolve_series_and_season_ids("Episode", None, &season), (None, None));
    assert_eq!(resolve_series_and_season_ids("Season", Some(10), &None), (Some(10), None));
    assert_eq!(resolve_series_and_season_ids("Movie", Some(10), &series), (None, None));
}

#[test]
fn view_fetches_resume_only_in_the_same_window() {
    assert_eq!(resume_position(Some((400, Some(7))), Some(7)), Some(400));
    assert_eq!(resume_position(Some((400, Some(7))), Some(8)), None);
    assert_eq!(resume_position(Some((400, None)), None), Some(400));
    assert_eq!(resume_position(None, None), None);
}

#[test]
fn detail_views_choose_their_play_state() {
    use_detail_user_data();
}

fn use_detail_user_data() {
    let row = || movie_rust::userdata::UserItemRow {
        playback_position_ticks: 30,
        play_count: 2,
        is_favorite: true,
        is_played: false,
        last_played_date: None,
    };
    assert_eq!(movie_rust::detail::user_data_to_fetch(Some(7), &None), Some(7));
    assert_eq!(movie_rust::detail::user_data_to_fetch(Some(7), &Some(None)), None);
    assert_eq!(movie_rust::detail::user_data_to_fetch(None, &None), None);
    let d = movie_rust::detail::detail_user_data(None, Some(row()), 1, Some(100), 2, true, Some(4));
    assert_eq!(d.play_count, Some(2));
    assert_eq!(d.unplayed_item_count, Some(4));
    assert_eq!(d.server_id.as_deref(), Some("00000000000000000000000000000002"));
    let e = movie_rust::detail::detail_user_data(Some(None), Some(row()), 1, Some(100), 2, false, Some(4));
    assert_eq!(e.play_count, None);
    assert_eq!(e.unplayed_item_count, None);
}
