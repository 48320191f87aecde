use movie_rust::accounts::{easy_password_to_store, new_password_to_store, PasswordRefusal};
use movie_rust::accounts::{session_info_at, session_to_dto, user_to_dto, user_to_public_dto, SessionRow, UserRecord};
use movie_rust::counts::DtoCountPrefetch;
use movie_rust::extras::{
    credited_people, emby_extra_fields, person_images, video_3d_format_of_tags, CreditKind, MetadataPreferences,
    ParentItem, Person,
};
use movie_rust::listing::{infer_primary_image_aspect_ratio, media_item_to_dto_for_list, ListItem};
use movie_rust::userdata::{
    empty_user_data, empty_user_data_for_item, list_user_data, user_item_data_to_dto,
    user_item_data_to_dto_for_item, user_item_data_to_dto_with_runtime, UserItemRow,
};

fn list_item(item_type: &str) -> ListItem {
    ListItem {
        id: 0x10,
        item_type: item_type.to_string(),
        media_type: "Video".to_string(),
        path: "/m/a.mkv".to_string(),
        parent_id: Some(0x20),
        series_id: None,
        has_primary_image: false,
        has_logo: false,
        has_thumb: false,
        has_banner: false,
        has_disc: false,
        has_art: false,
        has_backdrop: false,
        extra_backdrops: 0,
        width: None,
        height: None,
        date_modified: 42,
        studios: Vec::new(),
        lock_data: false,
        runtime_ticks: Some(1000),
    }
}

#[test]
fn aspect_ratios_as_fractions() {
    assert_eq!(infer_primary_image_aspect_ratio("Movie", true, false, None, None), Some((2, 3)));
    assert_eq!(infer_primary_image_aspect_ratio("Movie", false, true, None, None), None);
    assert_eq!(infer_primary_image_aspect_ratio("Episode", false, true, None, None), Some((16, 9)));
    assert_eq!(infer_primary_image_aspect_ratio("Audio", false, false, Some(4), Some(3)), Some((4, 3)));
    assert_eq!(infer_primary_image_aspect_ratio("Audio", false, false, Some(0), Some(3)), None);
}

#[test]
fn list_shape_of_a_movie() {
    let mut it = list_item("Movie");
    it.has_primary_image = true;
    it.has_thumb = true;
    it.has_art = true;
    it.has_backdrop = true;
    it.extra_backdrops = 2;
    it.studios = vec!["Studio".to_string()];
    let s = media_item_to_dto_for_list(&it, 0x30, None, DtoCountPrefetch::default());
    assert!(s.media_sources.is_empty());
    assert_eq!(s.user_data.server_id.as_deref(), Some("00000000000000000000000000000030"));
    assert_eq!(s.user_data.play_count, None);
    assert!(!s.user_data.played);
    assert_eq!(s.id, "00000000000000000000000000000010");
    assert_eq!(s.server_id, "00000000000000000000000000000030");
    assert_eq!(s.etag, "42");
    assert!(!s.is_folder);
    assert!(s.can_download);
    assert_eq!(s.media_type.as_deref(), Some("Video"));
    assert_eq!(s.location_type, "FileSystem");
    assert_eq!(s.image_tags, vec![
        ("Art".to_string(), "42".to_string()),
        ("Primary".to_string(), "42".to_string()),
        ("Thumb".to_string(), "42".to_string()),
    ]);
    assert_eq!(s.backdrop_image_tags, vec!["42".to_string(); 3]);
    assert_eq!(s.child_count, None);
    assert_eq!(s.series_studio.as_deref(), Some("Studio"));
    assert_eq!(s.primary_image_item_id.as_deref(), Some("00000000000000000000000000000010"));
    assert_eq!(s.part_count, 1);
    assert!(s.is_movie);
    assert_eq!(s.aspect_ratio, Some((2, 3)));
}

#[test]
fn list_shape_of_a_season_and_series() {
    let mut season = list_item("Season");
    season.path = "https://remote/x".to_string();
    let counts = DtoCountPrefetch { child_count: Some(5), recursive_item_count: None, season_count: Some(2) };
    let s = media_item_to_dto_for_list(&season, 0x30, None, counts);
    assert!(s.is_folder);
    assert_eq!(s.location_type, "Remote");
    assert_eq!(s.child_count, Some(5));
    assert_eq!(s.recursive_item_count, Some(0));
    assert_eq!(s.season_count, None);
    assert_eq!(s.series_id.as_deref(), Some("00000000000000000000000000000020"));
    assert_eq!(s.parent_backdrop_item_id.as_deref(), Some("00000000000000000000000000000020"));
    assert_eq!(s.parent_backdrop_image_tags, vec!["42".to_string()]);
    assert_eq!(s.series_primary_image_tag.as_deref(), Some("42"));
    assert_eq!(s.primary_image_item_id.as_deref(), Some("00000000000000000000000000000020"));
    assert_eq!(s.media_type, None);
    assert_eq!(s.part_count, 0);
    let series = media_item_to_dto_for_list(&list_item("Series"), 0x30, None, counts);
    assert_eq!(series.season_count, Some(2));
    assert!(series.is_series);
    let mut ep = list_item("Episode");
    ep.series_id = Some(0x40);
    let e = media_item_to_dto_for_list(&ep, 0x30, None, counts);
    assert_eq!(e.series_id.as_deref(), Some("00000000000000000000000000000040"));
    assert_eq!(e.season_id.as_deref(), Some("00000000000000000000000000000020"));
}

fn row() -> UserItemRow {
    UserItemRow { playback_position_ticks: 30, play_count: 2, is_favorite: true, is_played: false, last_played_date: Some(7) }
}

#[test]
fn user_data_views() {
    let d = user_item_data_to_dto_with_runtime(row(), Some(120));
    assert_eq!(d.played_fraction, Some((30, 120)));
    assert_eq!(d.play_count, Some(2));
    assert!(d.is_favorite);
    assert_eq!(user_item_data_to_dto_with_runtime(row(), Some(0)).played_fraction, None);
    assert_eq!(user_item_data_to_dto(row()).played_fraction, None);
    let e = empty_user_data();
    assert_eq!(e.playback_position_ticks, 0);
    assert_eq!(e.play_count, None);
    let k = empty_user_data_for_item(1);
    assert_eq!(k.key.as_deref(), Some("00000000000000000000000000000001"));
    let f = user_item_data_to_dto_for_item(row(), 1);
    assert_eq!(f.item_id.as_deref(), Some("00000000000000000000000000000001"));
    let l = list_user_data(Some(None), 1, Some(100), 2);
    assert_eq!(l.server_id.as_deref(), Some("00000000000000000000000000000002"));
    assert_eq!(l.play_count, None);
    let l2 = list_user_data(Some(Some(row())), 1, Some(100), 2);
    assert_eq!(l2.played_fraction, Some((30, 100)));
}

fn user() -> UserRecord {
    UserRecord {
        id: 5,
        name: "alice".to_string(),
        password_hash: "hash".to_string(),
        easy_password_hash: Some("  ".to_string()),
        primary_image_path: Some("/img.png".to_string()),
        is_admin: true,
        is_hidden: false,
        is_disabled: false,
        date_modified: 99,
    }
}

#[test]
fn user_views() {
    let p = user_to_public_dto(&user(), 1);
    assert!(p.has_password);
    assert!(!p.has_configured_easy_password);
    assert_eq!(p.id, "00000000000000000000000000000005");
    let mut u = user();
    u.password_hash = " ".to_string();
    u.primary_image_path = Some(String::new());
    let d = user_to_dto(&u, 1);
    assert!(!d.has_password);
    assert_eq!(d.primary_image_tag, None);
    assert!(d.is_administrator);
    assert_eq!(user_to_dto(&user(), 1).primary_image_tag.as_deref(), Some("99"));
}

fn session(expires: Option<i64>) -> SessionRow {
    SessionRow {
        access_token: "tok".to_string(),
        user_id: 5,
        user_name: "alice".to_string(),
        client: None,
        device_id: Some("dev".to_string()),
        device_name: None,
        application_version: None,
        expires_at: expires,
        last_activity_at: None,
        remote_address: None,
    }
}

#[test]
fn session_views() {
    let s = session_info_at(&session(Some(2_000_000)), 1, 1, 999_999_999);
    assert!(s.is_active);
    let s = session_info_at(&session(Some(2_000_000)), 1, 2, 0);
    assert!(!s.is_active);
    assert_eq!(s.client, "Movie Rust Client");
    assert_eq!(s.device_id, "dev");
    assert_eq!(s.device_name, "Unknown Device");
    assert_eq!(s.application_version, "0.1.0");
    assert_eq!(s.playable_media_types, vec!["Audio".to_string(), "Video".to_string()]);
    assert_eq!(s.supported_commands.len(), 36);
    assert_eq!(s.supported_commands[0], "MoveUp");
    assert_eq!(s.supported_commands[35], "ToggleFullscreen");
    assert!(session_to_dto(&session(None), 1).is_active);
    assert!(!session_to_dto(&session(Some(0)), 1).is_active);
}

fn person(name: &str, kind: Option<&str>) -> Person {
    Person { name: name.to_string(), id: format!("id-{name}"), person_type: kind.map(str::to_string) }
}

#[test]
fn extra_fields_of_a_track() {
    let people = vec![
        person("A", Some("AlbumArtist")),
        person("B", Some("composer")),
        person("C", Some("Artist")),
        person("D", None),
    ];
    let parent = ParentItem { id: 9, name: "Album X".to_string(), item_type: "MusicAlbum".to_string(), has_primary_image: true, date_modified: 11 };
    let prefs = MetadataPreferences { language: "en".to_string(), country_code: " ".to_string() };
    let tags = vec!["x".to_string(), " HSBS ".to_string(), "tab".to_string()];
    let f = emby_extra_fields(Some(3), None, &Some(" ".to_string()), &tags, &people, Some(&parent), Some(&prefs));
    assert!(!f.can_make_public && !f.can_manage_access && !f.can_leave_content);
    assert_eq!(f.preferred_metadata_language.as_deref(), Some("en"));
    assert_eq!(f.preferred_metadata_country_code, None);
    assert_eq!(f.sort_index_number, Some(3));
    assert_eq!(f.custom_rating, None);
    assert_eq!(f.video_3d_format.as_deref(), Some("HalfSideBySide"));
    assert_eq!(f.artists, vec![("A".to_string(), "id-A".to_string()), ("C".to_string(), "id-C".to_string())]);
    assert_eq!(f.composers, vec![("B".to_string(), "id-B".to_string())]);
    assert_eq!(f.album.as_deref(), Some("Album X"));
    assert_eq!(f.album_id.as_deref(), Some("00000000000000000000000000000009"));
    assert_eq!(f.album_primary_image_tag.as_deref(), Some("11"));
    assert_eq!(f.album_artist.as_deref(), Some("A"));
    assert_eq!(f.album_artists.len(), 1);
    let plain = emby_extra_fields(None, None, &Some("PG".to_string()), &Vec::new(), &people, None, None);
    assert_eq!(plain.custom_rating.as_deref(), Some("PG"));
    assert_eq!(plain.album, None);
    assert!(plain.album_artists.is_empty());
    assert_eq!(video_3d_format_of_tags(&vec!["htab".to_string()]).as_deref(), Some("HalfTopAndBottom"));
    assert_eq!(credited_people(&people, CreditKind::AlbumArtist).len(), 1);
}

#[test]
fn person_image_fields() {
    let p = person_images(true, true, 5, &Some("Paris".to_string()));
    assert_eq!(p.primary_image_tag.as_deref(), Some("5"));
    assert_eq!(p.image_tags, Some(vec![("Primary".to_string(), "5".to_string()), ("Backdrop".to_string(), "5".to_string())]));
    assert_eq!(p.production_locations, Some(vec!["Paris".to_string()]));
    let q = person_images(false, true, 5, &Some(" ".to_string()));
    assert_eq!(q.image_tags, None);
    assert_eq!(q.backdrop_image_tag.as_deref(), Some("5"));
    assert_eq!(q.production_locations, None);
}

#[test]
fn list_items_carry_the_prefetched_play_state() {
    let it = list_item("Movie");
    let s = media_item_to_dto_for_list(&it, 0x30, Some(Some(row())), DtoCountPrefetch::default());
    assert_eq!(s.user_data.server_id.as_deref(), Some("00000000000000000000000000000030"));
    assert_eq!(s.user_data.play_count, Some(row().play_count));
    let none = media_item_to_dto_for_list(&it, 0x30, Some(None), DtoCountPrefetch::default());
    assert_eq!(none.user_data.play_count, None);
    assert_eq!(none.user_data.playback_position_ticks, 0);
}

#[test]
fn sessions_at_a_clock_reading() {
    use_reading();
}

fn use_reading() {
    let at = |c: Result<(u64, u32), (u64, u32)>, e: Option<i64>| {
        movie_rust::accounts::session_info_at_reading(&session(e), 1, c).is_active
    };
    assert!(at(Ok((1, 999_999_999)), Some(2_000_000)));
    assert!(!at(Ok((2, 0)), Some(2_000_000)));
    assert!(at(Err((5, 0)), Some(-4_000_000)));
    assert!(!at(Err((3, 0)), Some(-4_000_000)));
    assert!(at(Ok((u64::MAX, 0)), None));
    assert!(!at(Ok((u64::MAX, 999_999_999)), Some(i64::MAX)));
}

#[test]
fn password_rules() {
    use_passwords();
}

fn use_passwords() {
    assert_eq!(new_password_to_store("  abcd  "), Ok("abcd".to_string()));
    assert_eq!(new_password_to_store(" abc "), Err(PasswordRefusal::TooShort));
    assert_eq!(new_password_to_store("中文"), Ok("中文".to_string()));
    assert_eq!(new_password_to_store("é"), Err(PasswordRefusal::TooShort));
    assert_eq!(easy_password_to_store(None), Ok(None));
    assert_eq!(easy_password_to_store(Some("   ")), Ok(None));
    assert_eq!(easy_password_to_store(Some(" 12 ")), Err(PasswordRefusal::EasyTooShort));
    assert_eq!(easy_password_to_store(Some("1234")), Ok(Some("1234".to_string())));
    assert_eq!(PasswordRefusal::TooShort.message(), "新密码至少需要 4 个字符");
}
