//! How a scanned item is written over its stored row: its id, the image
//! paths kept, the season it hangs under, and when a write is retried.

use vstd::prelude::*;
use vstd::utf8::encode_utf8;
use crate::ids::{uuid_v5, uuid_v5_of};
use crate::text::{starts_with, starts_with_seq, str_eq};

verus! {

/// The id of an item's row: the one stored for its library and path, else
/// the version 5 id of its path in the library's id as namespace.
pub open spec fn item_id_of(existing: Option<u128>, library_id: u128, path: Seq<char>) -> u128 {
    match existing {
        Some(id) => id,
        None => uuid_v5_of(library_id, encode_utf8(path)),
    }
}

/// The id of an item's row, as `item_id_of` states.
pub fn media_item_id(existing: Option<u128>, library_id: u128, path: &str) -> (r: u128)
    ensures
        r == item_id_of(existing, library_id, path@),
{
    match existing {
        Some(id) => id,
        None => uuid_v5(library_id, path.as_bytes()),
    }
}

/// Whether a path is a web address (`http://` or `https://`).
pub open spec fn is_web_address(p: Seq<char>) -> bool {
    starts_with_seq(p, "http://"@) || starts_with_seq(p, "https://"@)
}

/// The image path a rescan leaves: the scanned one when images are forced;
/// else the stored one when nothing was scanned, or when a stored local
/// file would give way to a web address; else the scanned one.
pub open spec fn merged_image(stored: Option<Seq<char>>, scanned: Option<Seq<char>>, force: bool) -> Option<Seq<char>> {
    if force {
        scanned
    } else if scanned is None {
        stored
    } else if stored is Some && !is_web_address(stored->0) && is_web_address(scanned->0) {
        stored
    } else {
        scanned
    }
}

pub open spec fn text_of(v: Option<String>) -> Option<Seq<char>> {
    match v {
        Some(s) => Some(s@),
        None => None,
    }
}

fn web_address(p: &str) -> (r: bool)
    ensures
        r == is_web_address(p@),
{
    starts_with(p, "http://") || starts_with(p, "https://")
}

/// The image path a rescan leaves (see `merged_image`).
pub fn merge_image_path(stored: Option<String>, scanned: Option<String>, force: bool) -> (r: Option<String>)
    ensures
        text_of(r) == merged_image(text_of(stored), text_of(scanned), force),
{
    if force {
        return scanned;
    }
    match scanned {
        None => stored,
        Some(new_path) => {
            let keep_stored = match &stored {
                Some(old_path) => !web_address(old_path.as_str()) && web_address(new_path.as_str()),
                None => false,
            };
            if keep_stored {
                stored
            } else {
                Some(new_path)
            }
        },
    }
}

/// A local image is never replaced by a web address unless images are
/// forced.
pub proof fn law_local_image_kept(stored: Seq<char>, scanned: Option<Seq<char>>)
    requires
        !is_web_address(stored),
        scanned matches Some(s) ==> is_web_address(s),
    ensures
        merged_image(Some(stored), scanned, false) == Some(stored),
{
}

/// Writing the same scan twice leaves what writing it once left.
pub proof fn law_merge_image_idempotent(stored: Option<Seq<char>>, scanned: Option<Seq<char>>, force: bool)
    ensures
        merged_image(merged_image(stored, scanned, force), scanned, force) == merged_image(stored, scanned, force),
{
}

/// The season an item hangs under: an episode's parent; none for any other
/// item type.
pub fn episode_season_id(item_type: &str, parent_id: Option<u128>) -> (r: Option<u128>)
    ensures
        r == (if item_type@ == "Episode"@ {
            parent_id
        } else {
            None
        }),
{
    if str_eq(item_type, "Episode") {
        parent_id
    } else {
        None
    }
}

/// How many times a write of a scanned item is tried at most.
pub const UPSERT_MAX_ATTEMPTS: usize = 3;

/// Whether a failed write is tried again: it failed on the (library, path)
/// key, which a concurrent rewrite of the same path causes, and attempts
/// are left.
pub fn retries_upsert(attempt: usize, path_key_conflict: bool) -> (r: bool)
    ensures
        r == (path_key_conflict && attempt + 1 < UPSERT_MAX_ATTEMPTS),
{
    path_key_conflict && attempt < UPSERT_MAX_ATTEMPTS - 1
}

/// Saving an item again keeps its id: the second save finds the row the
/// first one wrote, and a save that finds no row (its row was lost) gives
/// the same id again.
pub proof fn law_item_id_stable(library_id: u128, path: Seq<char>)
    ensures
        item_id_of(Some(item_id_of(None, library_id, path)), library_id, path) == item_id_of(None, library_id, path),
        item_id_of(None, library_id, path) == uuid_v5_of(library_id, encode_utf8(path)),
{
}

} // verus!
