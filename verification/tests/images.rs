use movie_rust::images::{image_slot, set_item_image, ImageSlot, ImageUpdateError, ItemImages};

fn empty() -> ItemImages {
    ItemImages {
        primary: None,
        backdrop: None,
        logo: None,
        thumb: None,
        banner: None,
        disc: None,
        art: None,
        backdrop_paths: Vec::new(),
    }
}

#[test]
fn image_types_name_slots() {
    assert_eq!(image_slot("BACKDROP"), ImageSlot::Backdrop);
    assert_eq!(image_slot("Logo"), ImageSlot::Logo);
    assert_eq!(image_slot("Screenshot"), ImageSlot::Primary);
}

#[test]
fn uploads_fill_slots_and_extra_backdrops() {
    let i = set_item_image(empty(), "Primary", Some("/p.jpg".to_string()), None).ok().unwrap();
    assert_eq!(i.primary.as_deref(), Some("/p.jpg"));
    let i = set_item_image(i, "Backdrop", Some("/b0.jpg".to_string()), None).ok().unwrap();
    assert_eq!(i.backdrop.as_deref(), Some("/b0.jpg"));
    let i = set_item_image(i, "Backdrop", Some("/b1.jpg".to_string()), Some(1)).ok().unwrap();
    let i = set_item_image(i, "Backdrop", Some("/b2.jpg".to_string()), Some(2)).ok().unwrap();
    assert_eq!(i.backdrop_paths, vec!["/b1.jpg".to_string(), "/b2.jpg".to_string()]);
    let i = set_item_image(i, "backdrop", Some("/b1x.jpg".to_string()), Some(1)).ok().unwrap();
    assert_eq!(i.backdrop_paths, vec!["/b1x.jpg".to_string(), "/b2.jpg".to_string()]);
    assert_eq!(
        set_item_image(i, "Backdrop", Some("/far.jpg".to_string()), Some(4)).err(),
        Some(ImageUpdateError::InvalidBackdropIndex)
    );
}

#[test]
fn deletions_clear_or_remove() {
    let mut i = empty();
    i.logo = Some("/l.png".to_string());
    i.backdrop_paths = vec!["/b1.jpg".to_string(), "/b2.jpg".to_string()];
    let i = set_item_image(i, "LOGO", None, None).ok().unwrap();
    assert_eq!(i.logo, None);
    let i = set_item_image(i, "Backdrop", None, Some(1)).ok().unwrap();
    assert_eq!(i.backdrop_paths, vec!["/b2.jpg".to_string()]);
    let i = set_item_image(i, "Backdrop", None, Some(9)).ok().unwrap();
    assert_eq!(i.backdrop_paths, vec!["/b2.jpg".to_string()]);
    assert_eq!(set_item_image(i, "Backdrop", None, Some(-1)).err(), Some(ImageUpdateError::InvalidBackdropIndex));
}

#[test]
fn appending_then_deleting_a_backdrop_restores_the_list() {
    let mut i = empty();
    i.backdrop_paths = vec!["/b1.jpg".to_string()];
    let added = set_item_image(i, "Backdrop", Some("/b2.jpg".to_string()), Some(2)).ok().unwrap();
    assert_eq!(added.backdrop_paths, vec!["/b1.jpg".to_string(), "/b2.jpg".to_string()]);
    let back = set_item_image(added, "Backdrop", None, Some(2)).ok().unwrap();
    assert_eq!(back.backdrop_paths, vec!["/b1.jpg".to_string()]);
}
