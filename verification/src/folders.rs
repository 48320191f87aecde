//! The root folder and the libraries as folders of the catalogue.

use vstd::prelude::*;
use crate::ids::{simple_form, simple_id};
use crate::paths::{library_path_list, library_paths, Library};
use crate::text::{i64_to_string, int_decimal, is_blank, is_blank_str, owned, str_eq, views};
use crate::userdata::{empty_user_data, is_empty_data, opt_view, UserItemData};

verus! {

/// The decided fields of the root folder shown above all libraries.
pub struct RootItem {
    pub name: String,
    pub server_id: String,
    pub id: String,
    pub guid: Option<String>,
    pub presentation_unique_key: String,
    pub item_type: String,
    pub is_folder: bool,
    pub sort_name: String,
    pub location_type: String,
    pub display_preferences_id: String,
    pub user_data: UserItemData,
}

/// The root folder: named `Root`, with the nil id (also as its guid), the
/// `Folder` type (a folder), the
/// sort name and display preferences `root`, a virtual location, and the
/// empty play state carrying the server's id.
pub fn root_item_dto(server_id: u128) -> (r: RootItem)
    ensures
        r.name@ == "Root"@,
        r.server_id@ == simple_form(server_id),
        r.id@ == simple_form(0),
        opt_view(r.guid) == Some(simple_form(0)),
        r.presentation_unique_key@ == "root_"@,
        r.item_type@ == "Folder"@,
        r.is_folder,
        r.sort_name@ == "root"@,
        r.location_type@ == "Virtual"@,
        r.display_preferences_id@ == "root"@,
        is_empty_data(UserItemData { server_id: None, ..r.user_data }),
        opt_view(r.user_data.server_id) == Some(simple_form(server_id)),
{
    let mut user_data = empty_user_data();
    user_data.server_id = Some(simple_id(server_id));
    RootItem {
        name: owned("Root"),
        server_id: simple_id(server_id),
        id: simple_id(0),
        guid: Some(simple_id(0)),
        presentation_unique_key: owned("root_"),
        item_type: owned("Folder"),
        is_folder: true,
        sort_name: owned("root"),
        location_type: owned("Virtual"),
        display_preferences_id: owned("root"),
        user_data,
    }
}

/// The decided fields of a library shown as a collection folder.
pub struct LibraryItem {
    pub name: String,
    pub server_id: String,
    pub id: String,
    pub guid: Option<String>,
    pub item_type: String,
    pub is_folder: bool,
    pub collection_type: String,
    pub locations: Vec<String>,
    /// The tag of the folder's primary image, if it shows one.
    pub primary_image_tag: Option<String>,
    pub child_count: i64,
    pub recursive_item_count: Option<i64>,
    pub movie_count: Option<i32>,
    pub series_count: Option<i32>,
}

/// The primary image tag of a library folder: with a non-blank image path,
/// its stored tag or else the decimal creation time; without one, the
/// decimal change time of its first child with an image, if any.
pub open spec fn library_image_tag(
    image_path: Option<String>,
    image_tag: Option<String>,
    created_at: i64,
    first_child_modified: Option<i64>,
) -> Option<Seq<char>> {
    if image_path is Some && !is_blank(image_path->0@) {
        match image_tag {
            Some(t) => Some(t@),
            None => Some(int_decimal(created_at as int)),
        }
    } else {
        match first_child_modified {
            Some(m) => Some(int_decimal(m as int)),
            None => None,
        }
    }
}

/// A library as a collection folder (type `CollectionFolder`, its id also
/// its guid): its paths as locations, its image tag
/// as `library_image_tag` states, its child count (at least 0) and its
/// other counts when positive.
pub fn library_to_item_dto(
    library: &Library,
    image_path: &Option<String>,
    image_tag: &Option<String>,
    created_at: i64,
    first_child_modified: Option<i64>,
    server_id: u128,
    child_count: i64,
    recursive_item_count: i64,
    movie_count: i32,
    series_count: i32,
) -> (r: LibraryItem)
    ensures
        r.name@ == library.name@,
        r.server_id@ == simple_form(server_id),
        r.id@ == simple_form(library.id),
        opt_view(r.guid) == Some(simple_form(library.id)),
        r.item_type@ == "CollectionFolder"@,
        r.is_folder,
        r.collection_type@ == library.collection_type@,
        views(r.locations@) == library_path_list(*library),
        opt_view(r.primary_image_tag) == library_image_tag(*image_path, *image_tag, created_at, first_child_modified),
        r.child_count == (if child_count < 0 { 0 } else { child_count }),
        r.recursive_item_count == (if recursive_item_count > 0 { Some(recursive_item_count) } else { None }),
        r.movie_count == (if movie_count > 0 { Some(movie_count) } else { None }),
        r.series_count == (if series_count > 0 { Some(series_count) } else { None }),
{
    let has_image = match image_path {
        Some(p) => !is_blank_str(p.as_str()),
        None => false,
    };
    let tag = if has_image {
        match image_tag {
            Some(t) => Some(t.clone()),
            None => Some(i64_to_string(created_at)),
        }
    } else {
        match first_child_modified {
            Some(m) => Some(i64_to_string(m)),
            None => None,
        }
    };
    LibraryItem {
        name: library.name.clone(),
        server_id: simple_id(server_id),
        id: simple_id(library.id),
        guid: Some(simple_id(library.id)),
        item_type: owned("CollectionFolder"),
        is_folder: true,
        collection_type: library.collection_type.clone(),
        locations: library_paths(library),
        primary_image_tag: tag,
        child_count: if child_count < 0 { 0 } else { child_count },
        recursive_item_count: if recursive_item_count > 0 { Some(recursive_item_count) } else { None },
        movie_count: if movie_count > 0 { Some(movie_count) } else { None },
        series_count: if series_count > 0 { Some(series_count) } else { None },
    }
}

/// Folder ids sorted by the type of item they are.
pub struct FolderBuckets {
    pub series_ids: Vec<u128>,
    pub season_ids: Vec<u128>,
    pub other_ids: Vec<u128>,
}

/// The ids of the rows of one type, in row order.
pub open spec fn ids_of_type(rows: Seq<(u128, String)>, item_type: Seq<char>) -> Seq<u128>
    decreases rows.len(),
{
    if rows.len() == 0 {
        Seq::empty()
    } else {
        let prev = ids_of_type(rows.drop_last(), item_type);
        if rows.last().1@ == item_type {
            prev.push(rows.last().0)
        } else {
            prev
        }
    }
}

/// The ids of the rows neither series nor season, in row order.
pub open spec fn ids_of_other_types(rows: Seq<(u128, String)>) -> Seq<u128>
    decreases rows.len(),
{
    if rows.len() == 0 {
        Seq::empty()
    } else {
        let prev = ids_of_other_types(rows.drop_last());
        if rows.last().1@ != "Series"@ && rows.last().1@ != "Season"@ {
            prev.push(rows.last().0)
        } else {
            prev
        }
    }
}

/// The requested ids no row has, in request order.
pub open spec fn unknown_ids(ids: Seq<u128>, rows: Seq<(u128, String)>) -> Seq<u128>
    decreases ids.len(),
{
    if ids.len() == 0 {
        Seq::empty()
    } else {
        let prev = unknown_ids(ids.drop_last(), rows);
        if exists|k: int| 0 <= k < rows.len() && rows[k].0 == ids.last() {
            prev
        } else {
            prev.push(ids.last())
        }
    }
}

fn row_has_id(rows: &Vec<(u128, String)>, id: u128) -> (r: bool)
    ensures
        r == exists|k: int| 0 <= k < rows@.len() && rows@[k].0 == id,
{
    let n = rows.len();
    let mut k: usize = 0;
    while k < n
        invariant
            k <= n,
            n == rows@.len(),
            forall|j: int| 0 <= j < k ==> rows@[j].0 != id,
        decreases n - k,
    {
        if rows[k].0 == id {
            return true;
        }
        k = k + 1;
    }
    false
}

/// The requested folders sorted by their type (`rows` are the (id, type)
/// pairs found for them): series, seasons, and the others, with the
/// requested ids that were not found last among the others.
pub fn split_folder_ids_by_type(parent_ids: &Vec<u128>, rows: &Vec<(u128, String)>) -> (r: FolderBuckets)
    ensures
        r.series_ids@ == ids_of_type(rows@, "Series"@),
        r.season_ids@ == ids_of_type(rows@, "Season"@),
        r.other_ids@ == ids_of_other_types(rows@) + unknown_ids(parent_ids@, rows@),
{
    let mut series: Vec<u128> = Vec::new();
    let mut seasons: Vec<u128> = Vec::new();
    let mut others: Vec<u128> = Vec::new();
    let n = rows.len();
    let mut i: usize = 0;
    while i < n
        invariant
            i <= n,
            n == rows@.len(),
            series@ == ids_of_type(rows@.take(i as int), "Series"@),
            seasons@ == ids_of_type(rows@.take(i as int), "Season"@),
            others@ == ids_of_other_types(rows@.take(i as int)),
        decreases n - i,
    {
        assert(rows@.take(i + 1).drop_last() =~= rows@.take(i as int));
        assert(rows@.take(i + 1).last() == rows@[i as int]);
        proof {
            reveal_strlit("Series");
            reveal_strlit("Season");
            assert("Series"@[2] != "Season"@[2]);
        }
        let t = rows[i].1.as_str();
        if str_eq(t, "Series") {
            series.push(rows[i].0);
        } else if str_eq(t, "Season") {
            seasons.push(rows[i].0);
        } else {
            others.push(rows[i].0);
        }
        i = i + 1;
    }
    assert(rows@.take(n as int) =~= rows@);
    let ghost known = others@;
    let m = parent_ids.len();
    let mut j: usize = 0;
    while j < m
        invariant
            j <= m,
            m == parent_ids@.len(),
            others@ == known + unknown_ids(parent_ids@.take(j as int), rows@),
        decreases m - j,
    {
        assert(parent_ids@.take(j + 1).drop_last() =~= parent_ids@.take(j as int));
        assert(parent_ids@.take(j + 1).last() == parent_ids@[j as int]);
        if !row_has_id(rows, parent_ids[j]) {
            others.push(parent_ids[j]);
            assert(others@ =~= known + unknown_ids(parent_ids@.take(j + 1), rows@));
        }
        j = j + 1;
    }
    assert(parent_ids@.take(m as int) =~= parent_ids@);
    FolderBuckets { series_ids: series, season_ids: seasons, other_ids: others }
}

} // verus!
