use movie_rust::people::{canonical_role_type, people_from_edit, person_role_id, PersonEdit};
use uuid::Uuid;

fn edit(name: Option<&str>, kind: Option<&str>, role: Option<&str>) -> PersonEdit {
    PersonEdit {
        name: name.map(|s| s.to_string()),
        person_type: kind.map(|s| s.to_string()),
        role: role.map(|s| s.to_string()),
    }
}

#[test]
fn role_types_are_canonical() {
    assert_eq!(canonical_role_type(&Some(" gueststar ".to_string())), "GuestStar");
    assert_eq!(canonical_role_type(&Some("DIRECTOR".to_string())), "Director");
    assert_eq!(canonical_role_type(&Some(" Lyricist ".to_string())), "Lyricist");
    assert_eq!(canonical_role_type(&Some("  ".to_string())), "Actor");
    assert_eq!(canonical_role_type(&None), "Actor");
}

#[test]
fn blank_names_are_skipped_and_order_counts_kept_ones() {
    let people = people_from_edit(&vec![
        edit(Some(" Émile Zola "), Some("writer"), Some(" ")),
        edit(Some("   "), Some("actor"), None),
        edit(None, None, None),
        edit(Some("Bob"), None, Some(" Hero ")),
    ]);
    assert_eq!(people.len(), 2);
    assert_eq!(people[0].name, "Émile Zola");
    assert_eq!(people[0].sort_name, "émile zola");
    assert_eq!(people[0].role_type, "Writer");
    assert_eq!(people[0].role, None);
    assert_eq!(people[0].sort_order, 0);
    assert_eq!(people[1].name, "Bob");
    assert_eq!(people[1].role_type, "Actor");
    assert_eq!(people[1].role.as_deref(), Some("Hero"));
    assert_eq!(people[1].sort_order, 1);
}

#[test]
fn role_ids_are_derived_from_the_item() {
    let item = Uuid::from_u128(0x1111_2222_3333_4444_5555_6666_7777_8888);
    let person = Uuid::from_u128(0x0123_4567_89ab_cdef_0123_4567_89ab_cdef);
    let expected = Uuid::new_v5(&item, format!("person-role:{person}:Actor:Hero").as_bytes());
    assert_eq!(person_role_id(item.as_u128(), person.as_u128(), "Actor", Some("Hero")), expected.as_u128());
    let none = Uuid::new_v5(&item, format!("person-role:{person}:Director:<none>").as_bytes());
    assert_eq!(person_role_id(item.as_u128(), person.as_u128(), "Director", None), none.as_u128());
}

#[test]
fn repeated_roles_are_stored_once_with_the_last_position() {
    let people = people_from_edit(&vec![
        edit(Some("Ann"), Some("actor"), Some("Lead")),
        edit(Some("Bob"), Some("director"), None),
        edit(Some(" Ann "), Some("ACTOR"), Some(" Lead ")),
        edit(Some("Ann"), Some("writer"), Some("Lead")),
    ]);
    let summary: Vec<(String, String, i32)> =
        people.iter().map(|p| (p.name.clone(), p.role_type.clone(), p.sort_order)).collect();
    assert_eq!(
        summary,
        vec![
            ("Bob".to_string(), "Director".to_string(), 1),
            ("Ann".to_string(), "Actor".to_string(), 2),
            ("Ann".to_string(), "Writer".to_string(), 3),
        ]
    );
}
