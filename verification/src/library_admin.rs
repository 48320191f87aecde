//! Creating and renaming a library: what is checked, in which order, and
//! what is stored.

use vstd::prelude::*;
use crate::paths::{
    canonical_collection_type, conflict_at, find_path_conflict, library_path_list, normalize_collection_type,
    normalize_library_options, normalize_library_paths, normalized_options, normalized_paths, Library,
    LibraryOptions, PathConflict,
};
use crate::text::{eq_ignore_ascii_case, eq_ignore_case_seq, is_blank, owned, trim, trim_seq, views};

verus! {

/// Why a new library is refused.
pub enum CreateLibraryError {
    /// The name is blank.
    EmptyName,
    /// Another library has the name.
    NameTaken,
    /// No path is left once the paths are cleaned.
    NoPaths,
    /// A path overlaps a path of an existing library.
    PathConflict(PathConflict),
}

/// A library as it is stored when created.
pub struct NewLibrary {
    pub name: String,
    pub collection_type: String,
    pub paths: Vec<String>,
    pub options: LibraryOptions,
}

/// The checks of a new library before its paths are compared with those
/// of the other libraries.
#[derive(Clone, Copy, Debug, PartialEq, Eq, Structural)]
pub enum CreateCheck {
    BlankName,
    NameInUse,
    NoPaths,
}

/// The refusal a new library gets without its path conflicts: a blank
/// name, then a name in use, then no paths once cleaned.
pub open spec fn create_refusal(name: Seq<char>, name_taken: bool, paths: Seq<Seq<char>>) -> Option<CreateCheck> {
    if is_blank(name) {
        Some(CreateCheck::BlankName)
    } else if name_taken {
        Some(CreateCheck::NameInUse)
    } else if normalized_paths(paths).len() == 0 {
        Some(CreateCheck::NoPaths)
    } else {
        None
    }
}

/// A new library, or the refusal: the name trimmed and not blank, not in
/// use (`name_taken`, as the caller looked it up), at least one path once
/// the paths are normalised, and no path overlapping one of `libraries`;
/// its collection type canonical and its options normalised against its
/// paths.
pub fn prepare_new_library(
    name: &str,
    collection_type: &str,
    paths: &Vec<String>,
    options: LibraryOptions,
    name_taken: bool,
    libraries: &Vec<Library>,
) -> (r: Result<NewLibrary, CreateLibraryError>)
    ensures
        match r {
            Ok(lib) => {
                &&& create_refusal(name@, name_taken, views(paths@)) is None
                &&& forall|li: int, pi: int|
                    !conflict_at(libraries@, None, normalized_paths(views(paths@)), li, pi)
                &&& lib.name@ == trim_seq(name@)
                &&& lib.collection_type@ == canonical_collection_type(collection_type@)
                &&& views(lib.paths@) == normalized_paths(views(paths@))
                &&& normalized_options(options, normalized_paths(views(paths@)), lib.options)
            },
            Err(CreateLibraryError::EmptyName) => create_refusal(name@, name_taken, views(paths@)) == Some(CreateCheck::BlankName),
            Err(CreateLibraryError::NameTaken) => create_refusal(name@, name_taken, views(paths@)) == Some(CreateCheck::NameInUse),
            Err(CreateLibraryError::NoPaths) => create_refusal(name@, name_taken, views(paths@)) == Some(CreateCheck::NoPaths),
            Err(CreateLibraryError::PathConflict(c)) => {
                &&& create_refusal(name@, name_taken, views(paths@)) is None
                &&& conflict_at(
                    libraries@,
                    None,
                    normalized_paths(views(paths@)),
                    c.library_index as int,
                    c.path_index as int,
                )
            },
        },
{
    let trimmed = trim(name);
    let ctype = normalize_collection_type(collection_type);
    let cleaned = normalize_library_paths(paths);
    if trimmed.unicode_len() == 0 {
        return Err(CreateLibraryError::EmptyName);
    }
    if name_taken {
        return Err(CreateLibraryError::NameTaken);
    }
    if cleaned.len() == 0 {
        return Err(CreateLibraryError::NoPaths);
    }
    match find_path_conflict(None, libraries, &cleaned) {
        Some(c) => return Err(CreateLibraryError::PathConflict(c)),
        None => {},
    }
    let normalized = normalize_library_options(options, &cleaned);
    Ok(NewLibrary { name: owned(trimmed), collection_type: ctype, paths: cleaned, options: normalized })
}

/// Why a library rename is refused.
#[derive(Clone, Copy, Debug, PartialEq, Eq, Structural)]
pub enum RenameLibraryError {
    /// The new name is blank.
    EmptyName,
    /// Another library has the new name.
    NameTaken,
}

/// The name a library is renamed to, or the refusal: the new name trimmed
/// and not blank; a name another library has is refused, unless it is the
/// library's own name up to ASCII case (`new_name_taken` says whether some
/// library has the new name, as the caller looked it up).
pub fn check_library_rename(current_name: &str, new_name: &str, new_name_taken: bool) -> (r: Result<
    String,
    RenameLibraryError,
>)
    ensures
        match r {
            Ok(n) => !is_blank(new_name@) && n@ == trim_seq(new_name@) && (eq_ignore_case_seq(
                current_name@,
                trim_seq(new_name@),
            ) || !new_name_taken),
            Err(RenameLibraryError::EmptyName) => is_blank(new_name@),
            Err(RenameLibraryError::NameTaken) => !is_blank(new_name@) && !eq_ignore_case_seq(
                current_name@,
                trim_seq(new_name@),
            ) && new_name_taken,
        },
{
    let t = trim(new_name);
    if t.unicode_len() == 0 {
        return Err(RenameLibraryError::EmptyName);
    }
    if !eq_ignore_ascii_case(current_name, t) && new_name_taken {
        return Err(RenameLibraryError::NameTaken);
    }
    Ok(owned(t))
}

} // verus!
