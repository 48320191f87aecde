//! The image slots of an item and how an upload or a deletion changes
//! them.

use vstd::prelude::*;
use crate::text::{ascii_lower_seq, str_eq, to_ascii_lowercase, views};

verus! {

/// The image paths stored for an item.
pub struct ItemImages {
    pub primary: Option<String>,
    pub backdrop: Option<String>,
    pub logo: Option<String>,
    pub thumb: Option<String>,
    pub banner: Option<String>,
    pub disc: Option<String>,
    pub art: Option<String>,
    /// The backdrops after the first, in order.
    pub backdrop_paths: Vec<String>,
}

/// The slot an image type names (ASCII case ignored; anything unknown is
/// the primary image).
#[derive(Clone, Copy, Debug, PartialEq, Eq, Structural)]
pub enum ImageSlot {
    Primary,
    Backdrop,
    Logo,
    Thumb,
    Banner,
    Disc,
    Art,
}

pub open spec fn slot_of(image_type: Seq<char>) -> ImageSlot {
    let t = ascii_lower_seq(image_type);
    if t == "backdrop"@ {
        ImageSlot::Backdrop
    } else if t == "logo"@ {
        ImageSlot::Logo
    } else if t == "thumb"@ {
        ImageSlot::Thumb
    } else if t == "banner"@ {
        ImageSlot::Banner
    } else if t == "disc"@ {
        ImageSlot::Disc
    } else if t == "art"@ {
        ImageSlot::Art
    } else {
        ImageSlot::Primary
    }
}

/// The slot an image type names (see `slot_of`).
pub fn image_slot(image_type: &str) -> (r: ImageSlot)
    ensures
        r == slot_of(image_type@),
{
    let l = to_ascii_lowercase(image_type);
    let t = l.as_str();
    if str_eq(t, "backdrop") {
        ImageSlot::Backdrop
    } else if str_eq(t, "logo") {
        ImageSlot::Logo
    } else if str_eq(t, "thumb") {
        ImageSlot::Thumb
    } else if str_eq(t, "banner") {
        ImageSlot::Banner
    } else if str_eq(t, "disc") {
        ImageSlot::Disc
    } else if str_eq(t, "art") {
        ImageSlot::Art
    } else {
        ImageSlot::Primary
    }
}

pub open spec fn text_of(v: Option<String>) -> Option<Seq<char>> {
    match v {
        Some(s) => Some(s@),
        None => None,
    }
}

/// The texts of an item's images: the seven single slots, then the extra
/// backdrops.
pub open spec fn image_texts(i: ItemImages) -> (Seq<Option<Seq<char>>>, Seq<Seq<char>>) {
    (
        seq![
            text_of(i.primary),
            text_of(i.backdrop),
            text_of(i.logo),
            text_of(i.thumb),
            text_of(i.banner),
            text_of(i.disc),
            text_of(i.art),
        ],
        views(i.backdrop_paths@),
    )
}

pub open spec fn slot_index(s: ImageSlot) -> int {
    match s {
        ImageSlot::Primary => 0,
        ImageSlot::Backdrop => 1,
        ImageSlot::Logo => 2,
        ImageSlot::Thumb => 3,
        ImageSlot::Banner => 4,
        ImageSlot::Disc => 5,
        ImageSlot::Art => 6,
    }
}

/// Why an image change is refused.
#[derive(Clone, Copy, Debug, PartialEq, Eq, Structural)]
pub enum ImageUpdateError {
    /// The backdrop index is negative, or more than one past the last
    /// extra backdrop for an upload.
    InvalidBackdropIndex,
}

/// The images after setting (`Some`) or clearing (`None`) the image of a
/// type; for backdrops the index (default 0) picks the first backdrop (0)
/// or an extra one (1 and up): an upload replaces it or, one past the
/// last, appends it; a deletion removes it when it exists. Refused for a
/// negative index, or an upload more than one past the last.
pub open spec fn images_after(
    before: (Seq<Option<Seq<char>>>, Seq<Seq<char>>),
    slot: ImageSlot,
    path: Option<Seq<char>>,
    backdrop_index: Option<i32>,
) -> Result<(Seq<Option<Seq<char>>>, Seq<Seq<char>>), ImageUpdateError> {
    let idx: int = match backdrop_index {
        Some(i) => i as int,
        None => 0,
    };
    if slot != ImageSlot::Backdrop || idx == 0 {
        Ok((before.0.update(slot_index(slot), path), before.1))
    } else if idx < 0 {
        Err(ImageUpdateError::InvalidBackdropIndex)
    } else {
        let u = idx - 1;
        let extra = before.1;
        match path {
            Some(p) => if u > extra.len() {
                Err(ImageUpdateError::InvalidBackdropIndex)
            } else if u == extra.len() {
                Ok((before.0, extra.push(p)))
            } else {
                Ok((before.0, extra.update(u, p)))
            },
            None => if u < extra.len() {
                Ok((before.0, extra.remove(u)))
            } else {
                Ok((before.0, extra))
            },
        }
    }
}

fn set_slot(images: &mut ItemImages, slot: ImageSlot, path: Option<String>)
    ensures
        image_texts(*final(images)) == (image_texts(*old(images)).0.update(slot_index(slot), text_of(path)), image_texts(
            *old(images),
        ).1),
{
    let ghost before = image_texts(*images);
    match slot {
        ImageSlot::Primary => images.primary = path,
        ImageSlot::Backdrop => images.backdrop = path,
        ImageSlot::Logo => images.logo = path,
        ImageSlot::Thumb => images.thumb = path,
        ImageSlot::Banner => images.banner = path,
        ImageSlot::Disc => images.disc = path,
        ImageSlot::Art => images.art = path,
    }
    assert(image_texts(*images).0 =~= before.0.update(slot_index(slot), text_of(path)));
}

/// The images after an upload (`Some`) or a deletion (`None`) of an image
/// of the given type (see `images_after`).
pub fn set_item_image(images: ItemImages, image_type: &str, path: Option<String>, backdrop_index: Option<i32>) -> (r:
    Result<ItemImages, ImageUpdateError>)
    ensures
        match r {
            Ok(after) => images_after(image_texts(images), slot_of(image_type@), text_of(path), backdrop_index) == Ok::<
                (Seq<Option<Seq<char>>>, Seq<Seq<char>>),
                ImageUpdateError,
            >(image_texts(after)),
            Err(e) => images_after(image_texts(images), slot_of(image_type@), text_of(path), backdrop_index) == Err::<
                (Seq<Option<Seq<char>>>, Seq<Seq<char>>),
                ImageUpdateError,
            >(e),
        },
{
    let ghost before = image_texts(images);
    let slot = image_slot(image_type);
    let idx: i32 = match backdrop_index {
        Some(i) => i,
        None => 0,
    };
    let mut out = images;
    if slot != ImageSlot::Backdrop || idx == 0 {
        set_slot(&mut out, slot, path);
        return Ok(out);
    }
    if idx < 0 {
        return Err(ImageUpdateError::InvalidBackdropIndex);
    }
    let u = (idx - 1) as usize;
    let len = out.backdrop_paths.len();
    let ghost extra = before.1;
    match path {
        Some(p) => {
            if u > len {
                return Err(ImageUpdateError::InvalidBackdropIndex);
            }
            let ghost pv = p@;
            if u == len {
                out.backdrop_paths.push(p);
                assert(views(out.backdrop_paths@) =~= extra.push(pv));
            } else {
                out.backdrop_paths.set(u, p);
                assert(views(out.backdrop_paths@) =~= extra.update(u as int, pv));
            }
        },
        None => {
            if u < len {
                out.backdrop_paths.remove(u);
                assert(views(out.backdrop_paths@) =~= extra.remove(u as int));
            }
        },
    }
    assert(image_texts(out).0 =~= before.0);
    Ok(out)
}

/// The image a slot holds: a single slot's path, or for backdrops the one
/// at the index (0 the first, then the extra ones).
pub open spec fn image_at(
    images: (Seq<Option<Seq<char>>>, Seq<Seq<char>>),
    slot: ImageSlot,
    backdrop_index: Option<i32>,
) -> Option<Seq<char>> {
    let idx: int = match backdrop_index {
        Some(i) => i as int,
        None => 0,
    };
    if slot != ImageSlot::Backdrop || idx == 0 {
        images.0[slot_index(slot)]
    } else if 0 < idx <= images.1.len() {
        Some(images.1[idx - 1])
    } else {
        None
    }
}

/// An accepted upload is what the slot then holds.
pub proof fn law_upload_is_read_back(
    before: (Seq<Option<Seq<char>>>, Seq<Seq<char>>),
    slot: ImageSlot,
    path: Seq<char>,
    backdrop_index: Option<i32>,
)
    requires
        before.0.len() == 7,
        images_after(before, slot, Some(path), backdrop_index) is Ok,
    ensures
        image_at(images_after(before, slot, Some(path), backdrop_index)->Ok_0, slot, backdrop_index) == Some(path),
{
}

/// Appending an extra backdrop and then deleting it at the same index gives
/// back the backdrops as they were.
pub proof fn law_append_then_delete_restores(
    before: (Seq<Option<Seq<char>>>, Seq<Seq<char>>),
    path: Seq<char>,
)
    requires
        before.1.len() + 1 <= i32::MAX,
    ensures
        ({
            let idx = Some((before.1.len() + 1) as i32);
            let added = images_after(before, ImageSlot::Backdrop, Some(path), idx)->Ok_0;
            images_after(added, ImageSlot::Backdrop, None, idx) == Ok::<
                (Seq<Option<Seq<char>>>, Seq<Seq<char>>),
                ImageUpdateError,
            >(before)
        }),
{
    let added = before.1.push(path);
    assert(added.remove(before.1.len() as int) =~= before.1);
}

} // verus!
