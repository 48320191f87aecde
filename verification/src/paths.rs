//! Library folders: normalising path lists and options, and the rules by
//! which two library paths conflict.

use vstd::prelude::*;
use crate::ids::{hyphenated_form, hyphenated_id, simple_form, simple_id};
use crate::text::{int_decimal, u64_to_string};
use crate::text::{
    ascii_lower_seq, eq_ignore_ascii_case, eq_ignore_case_seq, is_blank, is_blank_str, owned,
    push_char, replace_char, replace_char_seq, starts_with_seq, str_eq, to_ascii_lowercase, trim,
    trim_seq, views, lemma_trim_idempotent, lemma_trim_ends,
};

verus! {

/// `s` without trailing `c` characters (`trim_end_matches`).
pub open spec fn strip_end_char(s: Seq<char>, c: char) -> Seq<char>
    decreases s.len(),
{
    if s.len() > 0 && s.last() == c {
        strip_end_char(s.drop_last(), c)
    } else {
        s
    }
}

/// A path in the form used to compare library paths: trimmed, with `/`
/// for `\`, without trailing `/`, ASCII lower case.
pub open spec fn compare_form(path: Seq<char>) -> Seq<char> {
    ascii_lower_seq(strip_end_char(replace_char_seq(trim_seq(path), '\\', '/'), '/'))
}

fn strip_end_char_exec(s: &str, c: char) -> (r: &str)
    ensures
        r@ == strip_end_char(s@, c),
{
    let n = s.unicode_len();
    let mut j: usize = n;
    assert(s@.subrange(0, n as int) =~= s@);
    loop
        invariant
            j <= n,
            n == s@.len(),
            strip_end_char(s@, c) == strip_end_char(s@.subrange(0, j as int), c),
        ensures
            j <= n,
            strip_end_char(s@, c) == s@.subrange(0, j as int),
        decreases j,
    {
        if j == 0 {
            break;
        }
        if s.get_char(j - 1) != c {
            break;
        }
        assert(s@.subrange(0, j as int).drop_last() =~= s@.subrange(0, j - 1));
        j = j - 1;
    }
    s.substring_char(0, j)
}

/// A path in the form used to compare library paths.
pub fn normalize_path_for_compare(path: &str) -> (r: String)
    ensures
        r@ == compare_form(path@),
{
    let replaced = replace_char(trim(path), '\\', '/');
    let stripped = strip_end_char_exec(replaced.as_str(), '/');
    to_ascii_lowercase(stripped)
}

/// `parent` is a proper ancestor of `child`: both non-empty, different, and
/// `child` starts with `parent` followed by `/`.
pub open spec fn is_parent(parent: Seq<char>, child: Seq<char>) -> bool {
    parent.len() > 0 && child.len() > 0 && parent != child && starts_with_seq(
        child,
        parent.push('/'),
    )
}

/// Two compared paths conflict when equal or when one contains the other.
pub open spec fn conflicts(left: Seq<char>, right: Seq<char>) -> bool {
    left == right || is_parent(left, right) || is_parent(right, left)
}

/// Whether `parent` is a proper ancestor of `child`, as `is_parent` states.
pub fn is_parent_path(parent: &str, child: &str) -> (r: bool)
    ensures
        r == is_parent(parent@, child@),
{
    if parent.unicode_len() == 0 || child.unicode_len() == 0 || str_eq(parent, child) {
        return false;
    }
    let mut prefix = owned(parent);
    push_char(&mut prefix, '/');
    crate::text::starts_with(child, prefix.as_str())
}

/// Whether two compared paths conflict, as `conflicts` states.
pub fn paths_conflict(left: &str, right: &str) -> (r: bool)
    ensures
        r == conflicts(left@, right@),
{
    str_eq(left, right) || is_parent_path(left, right) || is_parent_path(right, left)
}

/// Conflict is symmetric.
pub proof fn law_conflict_symmetric(a: Seq<char>, b: Seq<char>)
    ensures
        conflicts(a, b) == conflicts(b, a),
{
}

/// No path is its own parent, and the parent relation is never mutual.
pub proof fn law_parent_strict(a: Seq<char>, b: Seq<char>)
    ensures
        !is_parent(a, a),
        is_parent(a, b) ==> !is_parent(b, a),
{
}

/// A library's paths, normalised: each trimmed, blank ones dropped, and a
/// path equal (ignoring ASCII case) to an earlier one dropped.
pub open spec fn normalized_paths(paths: Seq<Seq<char>>) -> Seq<Seq<char>>
    decreases paths.len(),
{
    if paths.len() == 0 {
        Seq::empty()
    } else {
        let prev = normalized_paths(paths.drop_last());
        let p = trim_seq(paths.last());
        if p.len() == 0 || exists|i: int| 0 <= i < prev.len() && eq_ignore_case_seq(prev[i], p) {
            prev
        } else {
            prev.push(p)
        }
    }
}

/// Every path is trimmed and non-empty, and no two are equal ignoring ASCII case.
pub open spec fn clean_paths(paths: Seq<Seq<char>>) -> bool {
    &&& forall|i: int| 0 <= i < paths.len() ==> #[trigger] trim_seq(paths[i]) == paths[i] && paths[i].len() > 0
    &&& forall|i: int, j: int| 0 <= i < j < paths.len() ==> !eq_ignore_case_seq(paths[i], paths[j])
}

fn contains_ignore_case(list: &Vec<String>, p: &str) -> (r: bool)
    ensures
        r == exists|i: int| 0 <= i < list@.len() && eq_ignore_case_seq(list@[i]@, p@),
{
    let n = list.len();
    let mut i: usize = 0;
    while i < n
        invariant
            i <= n,
            n == list@.len(),
            forall|k: int| 0 <= k < i ==> !eq_ignore_case_seq(list@[k]@, p@),
        decreases n - i,
    {
        if eq_ignore_ascii_case(list[i].as_str(), p) {
            return true;
        }
        i = i + 1;
    }
    false
}

/// A library's paths, normalised as `normalized_paths` states.
pub fn normalize_library_paths(paths: &Vec<String>) -> (r: Vec<String>)
    ensures
        views(r@) == normalized_paths(views(paths@)),
{
    let mut result: Vec<String> = Vec::new();
    let n = paths.len();
    let mut i: usize = 0;
    assert(views(paths@).take(0) =~= Seq::<Seq<char>>::empty());
    while i < n
        invariant
            i <= n,
            n == paths@.len(),
            views(result@) == normalized_paths(views(paths@).take(i as int)),
        decreases n - i,
    {
        let p = trim(paths[i].as_str());
        proof {
            assert(views(paths@).take(i + 1).drop_last() =~= views(paths@).take(i as int));
            assert(views(paths@).take(i + 1).last() == paths@[i as int]@);
        }
        if p.unicode_len() != 0 {
            let found = contains_ignore_case(&result, p);
            proof {
                if found {
                    let k = choose|k: int| 0 <= k < result@.len() && eq_ignore_case_seq(result@[k]@, p@);
                    assert(views(result@)[k] == result@[k]@);
                } else {
                    assert forall|k: int| 0 <= k < views(result@).len() implies !eq_ignore_case_seq(
                        views(result@)[k],
                        p@,
                    ) by {
                        assert(views(result@)[k] == result@[k]@);
                    }
                }
            }
            if !found {
                result.push(owned(p));
                assert(views(result@) =~= views(result@).drop_last().push(p@));
            }
        }
        i = i + 1;
    }
    assert(views(paths@).take(n as int) =~= views(paths@));
    result
}

/// Normalised paths are clean.
pub proof fn law_normalized_paths_clean(paths: Seq<Seq<char>>)
    ensures
        clean_paths(normalized_paths(paths)),
    decreases paths.len(),
{
    if paths.len() > 0 {
        law_normalized_paths_clean(paths.drop_last());
        let prev = normalized_paths(paths.drop_last());
        let p = trim_seq(paths.last());
        lemma_trim_idempotent(paths.last());
        let r = normalized_paths(paths);
        if !(p.len() == 0 || exists|i: int| 0 <= i < prev.len() && eq_ignore_case_seq(prev[i], p)) {
            assert(r == prev.push(p));
            assert forall|i: int, j: int| 0 <= i < j < r.len() implies !eq_ignore_case_seq(r[i], r[j]) by {
                if j == r.len() - 1 {
                    assert(r[i] == prev[i]);
                }
            }
            assert forall|i: int| 0 <= i < r.len() implies #[trigger] trim_seq(r[i]) == r[i] && r[i].len() > 0 by {
                if i < prev.len() {
                    assert(r[i] == prev[i]);
                }
            }
        }
    }
}

/// Normalising clean paths changes nothing.
pub proof fn lemma_clean_fixed(paths: Seq<Seq<char>>)
    requires
        clean_paths(paths),
    ensures
        normalized_paths(paths) == paths,
    decreases paths.len(),
{
    if paths.len() > 0 {
        let init = paths.drop_last();
        assert(clean_paths(init)) by {
            assert forall|i: int| 0 <= i < init.len() implies #[trigger] trim_seq(init[i]) == init[i] && init[i].len() > 0 by {
                assert(init[i] == paths[i]);
            }
            assert forall|i: int, j: int| 0 <= i < j < init.len() implies !eq_ignore_case_seq(init[i], init[j]) by {
                assert(init[i] == paths[i]);
                assert(init[j] == paths[j]);
            }
        }
        lemma_clean_fixed(init);
        let last = paths.last();
        assert(trim_seq(paths[paths.len() - 1]) == paths[paths.len() - 1]);
        assert forall|i: int| 0 <= i < init.len() implies !eq_ignore_case_seq(init[i], last) by {
            assert(init[i] == paths[i]);
        }
        assert(init.push(last) =~= paths);
    }
}

/// Normalising paths twice is normalising them once.
pub proof fn law_normalize_paths_idempotent(paths: Seq<Seq<char>>)
    ensures
        normalized_paths(normalized_paths(paths)) == normalized_paths(paths),
{
    law_normalized_paths_clean(paths);
    lemma_clean_fixed(normalized_paths(paths));
}


/// The collection type of a library, in canonical form.
pub open spec fn canonical_collection_type(value: Seq<char>) -> Seq<char> {
    let v = ascii_lower_seq(trim_seq(value));
    if v == "tvshows"@ || v == "series"@ || v == "shows"@ {
        "tvshows"@
    } else if v == "music"@ || v == "audio"@ {
        "music"@
    } else if v == "homevideos"@ || v == "homevideo"@ || v == "videos"@ {
        "homevideos"@
    } else if v == "mixed"@ {
        "mixed"@
    } else {
        "movies"@
    }
}

/// The collection type of a library in canonical form, as
/// `canonical_collection_type` states; unknown types are movie libraries.
pub fn normalize_collection_type(value: &str) -> (r: String)
    ensures
        r@ == canonical_collection_type(value@),
{
    let lowered = to_ascii_lowercase(trim(value));
    let v = lowered.as_str();
    let out = if str_eq(v, "tvshows") || str_eq(v, "series") || str_eq(v, "shows") {
        "tvshows"
    } else if str_eq(v, "music") || str_eq(v, "audio") {
        "music"
    } else if str_eq(v, "homevideos") || str_eq(v, "homevideo") || str_eq(v, "videos") {
        "homevideos"
    } else if str_eq(v, "mixed") {
        "mixed"
    } else {
        "movies"
    };
    owned(out)
}

/// The options of a library that the library rules read and set.
pub struct LibraryOptions {
    pub path_infos: Vec<String>,
    pub season_zero_display_name: String,
    pub preferred_image_language: Option<String>,
    pub preferred_metadata_language: Option<String>,
    pub min_collection_items: i32,
}

impl LibraryOptions {
    /// Options with no paths, no names and no languages.
    pub fn empty() -> (r: Self)
        ensures
            r.path_infos@.len() == 0,
            r.season_zero_display_name@.len() == 0,
            r.preferred_image_language is None,
            r.preferred_metadata_language is None,
            r.min_collection_items == 0,
    {
        LibraryOptions {
            path_infos: Vec::new(),
            season_zero_display_name: String::new(),
            preferred_image_language: None,
            preferred_metadata_language: None,
            min_collection_items: 0,
        }
    }
}

pub open spec fn opt_blank(o: Option<String>) -> bool {
    match o {
        Some(s) => is_blank(s@),
        None => true,
    }
}

/// Options after normalisation: the paths (or, without any, the fallback
/// paths) normalised, "Specials" for a blank season-zero name, the metadata
/// language for a blank image language, and at least 2 items per collection.
pub open spec fn normalized_options(options: LibraryOptions, fallback: Seq<Seq<char>>, r: LibraryOptions) -> bool {
    &&& views(r.path_infos@) == normalized_paths(
        if options.path_infos@.len() == 0 {
            fallback
        } else {
            views(options.path_infos@)
        },
    )
    &&& r.season_zero_display_name@ == (if is_blank(options.season_zero_display_name@) {
        "Specials"@
    } else {
        options.season_zero_display_name@
    })
    &&& r.preferred_image_language == (if opt_blank(options.preferred_image_language) {
        options.preferred_metadata_language
    } else {
        options.preferred_image_language
    })
    &&& r.preferred_metadata_language == options.preferred_metadata_language
    &&& r.min_collection_items == (if options.min_collection_items < 2 {
        2
    } else {
        options.min_collection_items
    })
}

fn clone_opt(v: &Option<String>) -> (r: Option<String>)
    ensures
        r == *v,
{
    match v {
        Some(s) => Some(s.clone()),
        None => None,
    }
}

fn opt_blank_exec(v: &Option<String>) -> (r: bool)
    ensures
        r == opt_blank(*v),
{
    match v {
        Some(s) => is_blank_str(s.as_str()),
        None => true,
    }
}

/// Library options normalised as `normalized_options` states.
pub fn normalize_library_options(options: LibraryOptions, fallback_paths: &Vec<String>) -> (r: LibraryOptions)
    ensures
        normalized_options(options, views(fallback_paths@), r),
{
    let LibraryOptions {
        path_infos,
        season_zero_display_name,
        preferred_image_language,
        preferred_metadata_language,
        min_collection_items,
    } = options;
    let paths = if path_infos.len() == 0 {
        normalize_library_paths(fallback_paths)
    } else {
        normalize_library_paths(&path_infos)
    };
    let season_zero = if is_blank_str(season_zero_display_name.as_str()) {
        owned("Specials")
    } else {
        season_zero_display_name
    };
    let image_language = if opt_blank_exec(&preferred_image_language) {
        clone_opt(&preferred_metadata_language)
    } else {
        preferred_image_language
    };
    LibraryOptions {
        path_infos: paths,
        season_zero_display_name: season_zero,
        preferred_image_language: image_language,
        preferred_metadata_language,
        min_collection_items: if min_collection_items < 2 {
            2
        } else {
            min_collection_items
        },
    }
}

/// The paths a library scans: the paths of its parsed options (none when the
/// options did not parse), or else its own path, normalised.
pub open spec fn paths_from_options(parsed: Option<Seq<Seq<char>>>, fallback: Seq<char>) -> Seq<Seq<char>> {
    let paths = match parsed {
        Some(p) => p,
        None => Seq::empty(),
    };
    normalized_paths(if paths.len() == 0 { seq![fallback] } else { paths })
}

pub open spec fn opt_views(v: Option<Vec<String>>) -> Option<Seq<Seq<char>>> {
    match v {
        Some(p) => Some(views(p@)),
        None => None,
    }
}

fn clone_strings(v: &Vec<String>) -> (r: Vec<String>)
    ensures
        r@ == v@,
{
    let mut out: Vec<String> = Vec::new();
    let n = v.len();
    let mut i: usize = 0;
    while i < n
        invariant
            i <= n,
            n == v@.len(),
            out@ =~= v@.take(i as int),
        decreases n - i,
    {
        out.push(v[i].clone());
        i = i + 1;
    }
    assert(v@.take(n as int) =~= v@);
    out
}

/// The paths a library scans, as `paths_from_options` states.
pub fn library_paths_from_options_or_path(parsed_paths: Option<&Vec<String>>, fallback_path: &str) -> (r: Vec<String>)
    ensures
        views(r@) == paths_from_options(
            match parsed_paths {
                Some(p) => Some(views(p@)),
                None => None,
            },
            fallback_path@,
        ),
{
    let mut paths: Vec<String> = match parsed_paths {
        Some(p) => clone_strings(p),
        None => Vec::new(),
    };
    if paths.len() == 0 {
        paths.push(owned(fallback_path));
        assert(views(paths@) =~= seq![fallback_path@]);
    }
    normalize_library_paths(&paths)
}

/// A media library as the library rules read it.
pub struct Library {
    pub id: u128,
    pub name: String,
    pub collection_type: String,
    pub path: String,
    /// Its stored options, `None` when they do not parse.
    pub options: Option<LibraryOptions>,
}

pub open spec fn option_paths(lib: Library) -> Option<Seq<Seq<char>>> {
    match lib.options {
        Some(o) => Some(views(o.path_infos@)),
        None => None,
    }
}

/// The paths of a library.
pub open spec fn library_path_list(lib: Library) -> Seq<Seq<char>> {
    paths_from_options(option_paths(lib), lib.path@)
}

/// The paths of a library, as `library_path_list` states.
pub fn library_paths(library: &Library) -> (r: Vec<String>)
    ensures
        views(r@) == library_path_list(*library),
{
    match &library.options {
        Some(o) => library_paths_from_options_or_path(Some(&o.path_infos), library.path.as_str()),
        None => library_paths_from_options_or_path(None, library.path.as_str()),
    }
}

/// `r` is the options of `library`: its stored options (empty ones when
/// they do not parse), with its own path when they name none, normalised
/// against the library's paths.
pub open spec fn options_of_library(library: Library, r: LibraryOptions) -> bool {
        exists|base: LibraryOptions|
            normalized_options(base, library_path_list(library), r) && match library.options {
                Some(o) => base.season_zero_display_name == o.season_zero_display_name
                    && base.preferred_image_language == o.preferred_image_language
                    && base.preferred_metadata_language == o.preferred_metadata_language
                    && base.min_collection_items == o.min_collection_items && views(base.path_infos@)
                    == (if o.path_infos@.len() == 0 {
                    seq![library.path@]
                } else {
                    views(o.path_infos@)
                }),
                None => base.season_zero_display_name@.len() == 0 && base.preferred_image_language is None
                    && base.preferred_metadata_language is None && base.min_collection_items == 0
                    && views(base.path_infos@) == seq![library.path@],
            }
}

/// The options of a library: its stored options (empty ones when they do
/// not parse), with its own path when they name none, normalised against
/// its paths.
pub fn library_options(library: &Library) -> (r: LibraryOptions)
    ensures
        options_of_library(*library, r),
{
    let mut base = match &library.options {
        Some(o) => LibraryOptions {
            path_infos: clone_strings(&o.path_infos),
            season_zero_display_name: o.season_zero_display_name.clone(),
            preferred_image_language: clone_opt(&o.preferred_image_language),
            preferred_metadata_language: clone_opt(&o.preferred_metadata_language),
            min_collection_items: o.min_collection_items,
        },
        None => LibraryOptions::empty(),
    };
    if base.path_infos.len() == 0 {
        base.path_infos.push(library.path.clone());
        assert(views(base.path_infos@) =~= seq![library.path@]);
    }
    let ghost b = base;
    let paths = library_paths(library);
    let r = normalize_library_options(base, &paths);
    assert(normalized_options(b, library_path_list(*library), r));
    r
}

/// A library as a client's virtual folder.
pub struct VirtualFolderInfo {
    pub name: String,
    pub collection_type: String,
    pub item_id: String,
    pub guid: String,
    pub locations: Vec<String>,
    pub library_options: LibraryOptions,
}

/// A library as a client's virtual folder: its name and type, its id in
/// 32-digit form as both item id and guid, its options as `library_options`
/// gives them, and their paths as locations.
pub fn library_to_virtual_folder_dto(library: &Library) -> (r: VirtualFolderInfo)
    ensures
        r.name == library.name,
        r.collection_type == library.collection_type,
        r.item_id@ == simple_form(library.id),
        r.guid@ == simple_form(library.id),
        r.locations@ == r.library_options.path_infos@,
        options_of_library(*library, r.library_options),
{
    let options = library_options(library);
    let locations = clone_strings(&options.path_infos);
    let item_id = simple_id(library.id);
    VirtualFolderInfo {
        name: library.name.clone(),
        collection_type: library.collection_type.clone(),
        guid: item_id.clone(),
        item_id,
        locations,
        library_options: options,
    }
}


/// The paths of a library's options are its paths.
pub proof fn lemma_option_paths_are_library_paths(library: Library, o: LibraryOptions)
    requires
        options_of_library(library, o),
    ensures
        views(o.path_infos@) == library_path_list(library),
{
    let base = choose|base: LibraryOptions|
        normalized_options(base, library_path_list(library), o) && match library.options {
            Some(lo) => base.season_zero_display_name == lo.season_zero_display_name
                && base.preferred_image_language == lo.preferred_image_language
                && base.preferred_metadata_language == lo.preferred_metadata_language
                && base.min_collection_items == lo.min_collection_items && views(base.path_infos@)
                == (if lo.path_infos@.len() == 0 {
                seq![library.path@]
            } else {
                views(lo.path_infos@)
            }),
            None => base.season_zero_display_name@.len() == 0 && base.preferred_image_language is None
                && base.preferred_metadata_language is None && base.min_collection_items == 0
                && views(base.path_infos@) == seq![library.path@],
        };
    assert(views(base.path_infos@).len() == base.path_infos@.len());
}

/// One path of a library as a folder an administrator can grant access to.
pub struct SubFolderView {
    pub name: String,
    pub id: String,
    pub path: String,
}

/// A library as a folder an administrator can grant access to.
pub struct MediaFolderView {
    pub name: String,
    pub id: String,
    pub guid: String,
    pub sub_folders: Vec<SubFolderView>,
}

/// Whether `f` shows library `library` whose locations are `locations`:
/// its id (hyphenated) as id and guid, and per location at position `k` a
/// sub-folder named `<library name>-<k + 1>` with id `<library id>:<k>`.
pub open spec fn shows_media_folder(f: MediaFolderView, library: Library, locations: Seq<Seq<char>>) -> bool {
    &&& f.name@ == library.name@
    &&& f.id@ == hyphenated_form(library.id)
    &&& f.guid@ == hyphenated_form(library.id)
    &&& f.sub_folders@.len() == locations.len()
    &&& forall|k: int|
        0 <= k < locations.len() ==> {
            &&& (#[trigger] f.sub_folders@[k]).name@ == library.name@ + "-"@ + int_decimal(k + 1)
            &&& f.sub_folders@[k].id@ == hyphenated_form(library.id) + ":"@ + int_decimal(k)
            &&& f.sub_folders@[k].path@ == locations[k]
        }
}

/// A library as a folder an administrator can grant access to, its
/// locations its paths (see `shows_media_folder`).
pub fn library_media_folder(library: &Library) -> (r: MediaFolderView)
    ensures
        shows_media_folder(r, *library, library_path_list(*library)),
{
    let folder = library_to_virtual_folder_dto(library);
    let ghost locs = views(folder.locations@);
    let id = hyphenated_id(library.id);
    let n = folder.locations.len();
    let mut subs: Vec<SubFolderView> = Vec::new();
    let mut k: usize = 0;
    while k < n
        invariant
            k <= n,
            n == folder.locations@.len(),
            locs == views(folder.locations@),
            id@ == hyphenated_form(library.id),
            subs@.len() == k,
            forall|j: int|
                0 <= j < k ==> {
                    &&& (#[trigger] subs@[j]).name@ == library.name@ + "-"@ + int_decimal(j + 1)
                    &&& subs@[j].id@ == hyphenated_form(library.id) + ":"@ + int_decimal(j)
                    &&& subs@[j].path@ == locs[j]
                },
        decreases n - k,
    {
        let mut name = library.name.clone();
        name.append("-");
        let number = u64_to_string(k as u64 + 1);
        name.append(number.as_str());
        let mut sub_id = id.clone();
        sub_id.append(":");
        let index = u64_to_string(k as u64);
        sub_id.append(index.as_str());
        subs.push(SubFolderView { name, id: sub_id, path: folder.locations[k].clone() });
        k = k + 1;
    }
    proof {
        lemma_option_paths_are_library_paths(*library, folder.library_options);
    }
    MediaFolderView { name: library.name.clone(), id: id.clone(), guid: id, sub_folders: subs }
}

/// Path `pi` of library `li` conflicts with one of the requested paths, the
/// library not being the excluded one.
pub open spec fn conflict_at(
    libs: Seq<Library>,
    exclude: Option<u128>,
    requested: Seq<Seq<char>>,
    li: int,
    pi: int,
) -> bool {
    &&& 0 <= li < libs.len()
    &&& exclude != Some(libs[li].id)
    &&& 0 <= pi < library_path_list(libs[li]).len()
    &&& exists|ri: int|
        0 <= ri < requested.len() && conflicts(
            compare_form(library_path_list(libs[li])[pi]),
            compare_form(#[trigger] requested[ri]),
        )
}

/// The first existing library path that a requested path conflicts with.
pub struct PathConflict {
    pub library_index: usize,
    pub path_index: usize,
    pub existing_path: String,
}

fn conflicts_any(existing: &str, requested: &Vec<String>) -> (r: bool)
    ensures
        r == exists|ri: int|
            0 <= ri < requested@.len() && conflicts(existing@, #[trigger] compare_form(requested@[ri]@)),
{
    let n = requested.len();
    let mut i: usize = 0;
    while i < n
        invariant
            i <= n,
            n == requested@.len(),
            forall|k: int| 0 <= k < i ==> !conflicts(existing@, #[trigger] compare_form(requested@[k]@)),
        decreases n - i,
    {
        let req = normalize_path_for_compare(requested[i].as_str());
        if paths_conflict(existing, req.as_str()) {
            return true;
        }
        i = i + 1;
    }
    false
}

/// The first conflict between a requested path and the paths of the other
/// libraries, libraries and their paths taken in order; `None` when the
/// requested paths are free.
pub fn find_path_conflict(exclude: Option<u128>, libraries: &Vec<Library>, requested: &Vec<String>) -> (r:
    Option<PathConflict>)
    ensures
        match r {
            Some(c) => conflict_at(libraries@, exclude, views(requested@), c.library_index as int, c.path_index as int)
                && c.existing_path@ == library_path_list(libraries@[c.library_index as int])[c.path_index as int]
                && forall|li: int, pi: int|
                    (li < c.library_index || (li == c.library_index && pi < c.path_index)) ==> !conflict_at(
                        libraries@,
                        exclude,
                        views(requested@),
                        li,
                        pi,
                    ),
            None => forall|li: int, pi: int| !conflict_at(libraries@, exclude, views(requested@), li, pi),
        },
{
    let n = libraries.len();
    let mut li: usize = 0;
    while li < n
        invariant
            li <= n,
            n == libraries@.len(),
            forall|a: int, b: int| a < li ==> !conflict_at(libraries@, exclude, views(requested@), a, b),
        decreases n - li,
    {
        let lib = &libraries[li];
        let skip = match exclude {
            Some(x) => x == lib.id,
            None => false,
        };
        if !skip {
            let paths = library_paths(lib);
            let m = paths.len();
            let mut pi: usize = 0;
            while pi < m
                invariant
                    pi <= m,
                    li < n,
                    n == libraries@.len(),
                    m == paths@.len(),
                    views(paths@) == library_path_list(libraries@[li as int]),
                    exclude != Some(libraries@[li as int].id),
                    forall|a: int, b: int| a < li ==> !conflict_at(libraries@, exclude, views(requested@), a, b),
                    forall|b: int| b < pi ==> !conflict_at(libraries@, exclude, views(requested@), li as int, b),
                decreases m - pi,
            {
                let existing = normalize_path_for_compare(paths[pi].as_str());
                assert(views(paths@)[pi as int] == paths@[pi as int]@);
                if conflicts_any(existing.as_str(), requested) {
                    proof {
                        let ri = choose|ri: int|
                            0 <= ri < requested@.len() && conflicts(
                                existing@,
                                #[trigger] compare_form(requested@[ri]@),
                            );
                        assert(views(requested@)[ri] == requested@[ri]@);
                    }
                    return Some(PathConflict { library_index: li, path_index: pi, existing_path: paths[pi].clone() });
                }
                proof {
                    assert forall|ri: int| 0 <= ri < views(requested@).len() implies !conflicts(
                        compare_form(library_path_list(libraries@[li as int])[pi as int]),
                        compare_form(#[trigger] views(requested@)[ri]),
                    ) by {
                        assert(views(requested@)[ri] == requested@[ri]@);
                    }
                }
                pi = pi + 1;
            }
        }
        li = li + 1;
    }
    None
}

/// Paths a library scans together with extra watched folders: each extra
/// folder that is not blank and not already listed (trimmed, ignoring ASCII
/// case) is added, then the list is normalised.
pub open spec fn merged_scan_paths(base: Seq<Seq<char>>, extra: Seq<Seq<char>>) -> Seq<Seq<char>>
    decreases extra.len(),
{
    if extra.len() == 0 {
        base
    } else {
        let prev = merged_scan_paths(base, extra.drop_last());
        let s = extra.last();
        if is_blank(s) || exists|i: int| 0 <= i < prev.len() && eq_ignore_case_seq(trim_seq(prev[i]), trim_seq(s)) {
            prev
        } else {
            prev.push(s)
        }
    }
}

fn listed_trimmed(list: &Vec<String>, s: &str) -> (r: bool)
    ensures
        r == exists|i: int| 0 <= i < list@.len() && eq_ignore_case_seq(trim_seq(list@[i]@), trim_seq(s@)),
{
    let t = trim(s);
    let n = list.len();
    let mut i: usize = 0;
    while i < n
        invariant
            i <= n,
            n == list@.len(),
            t@ == trim_seq(s@),
            forall|k: int| 0 <= k < i ==> !eq_ignore_case_seq(trim_seq(list@[k]@), trim_seq(s@)),
        decreases n - i,
    {
        if eq_ignore_ascii_case(trim(list[i].as_str()), t) {
            return true;
        }
        i = i + 1;
    }
    false
}

/// The paths to scan for a library with extra watched folders, as
/// `merged_scan_paths` and `normalized_paths` state.
pub fn merge_scan_paths(library: &Library, extra: &Vec<String>) -> (r: Vec<String>)
    ensures
        views(r@) == normalized_paths(merged_scan_paths(library_path_list(*library), views(extra@))),
{
    let mut merged = library_paths(library);
    let ghost base = views(merged@);
    let n = extra.len();
    let mut i: usize = 0;
    assert(views(extra@).take(0) =~= Seq::<Seq<char>>::empty());
    while i < n
        invariant
            i <= n,
            n == extra@.len(),
            base == library_path_list(*library),
            views(merged@) == merged_scan_paths(base, views(extra@).take(i as int)),
        decreases n - i,
    {
        proof {
            assert(views(extra@).take(i + 1).drop_last() =~= views(extra@).take(i as int));
            assert(views(extra@).take(i + 1).last() == extra@[i as int]@);
        }
        let s = extra[i].as_str();
        if !is_blank_str(s) {
            let found = listed_trimmed(&merged, s);
            proof {
                if found {
                    let k = choose|k: int|
                        0 <= k < merged@.len() && eq_ignore_case_seq(trim_seq(merged@[k]@), trim_seq(s@));
                    assert(views(merged@)[k] == merged@[k]@);
                } else {
                    assert forall|k: int| 0 <= k < views(merged@).len() implies !eq_ignore_case_seq(
                        trim_seq(views(merged@)[k]),
                        trim_seq(s@),
                    ) by {
                        assert(views(merged@)[k] == merged@[k]@);
                    }
                }
            }
            if !found {
                merged.push(extra[i].clone());
                assert(views(merged@) =~= views(merged@).drop_last().push(s@));
            }
        }
        i = i + 1;
    }
    assert(views(extra@).take(n as int) =~= views(extra@));
    normalize_library_paths(&merged)
}

/// A path as library updates are matched: trimmed, `/` for `\`, without
/// trailing `/`.
pub open spec fn match_form(path: Seq<char>) -> Seq<char> {
    strip_end_char(replace_char_seq(trim_seq(path), '\\', '/'), '/')
}

/// A path as library updates are matched, as `match_form` states.
pub fn normalize_match_path(path: &str) -> (r: String)
    ensures
        r@ == match_form(path@),
{
    let replaced = replace_char(trim(path), '\\', '/');
    owned(strip_end_char_exec(replaced.as_str(), '/'))
}

/// An updated path belongs to a library path when both are non-empty once
/// matched and they are equal or one contains the other.
pub open spec fn update_matches(update: Seq<char>, library: Seq<char>) -> bool {
    let u = match_form(update);
    let l = match_form(library);
    u.len() > 0 && l.len() > 0 && (u == l || starts_with_seq(u, l.push('/')) || starts_with_seq(
        l,
        u.push('/'),
    ))
}

/// Whether an updated path belongs to a library path, as `update_matches`
/// states.
pub fn path_matches_library(update_path: &str, library_path: &str) -> (r: bool)
    ensures
        r == update_matches(update_path@, library_path@),
{
    let update = normalize_match_path(update_path);
    let library = normalize_match_path(library_path);
    if update.unicode_len() == 0 || library.unicode_len() == 0 {
        return false;
    }
    if str_eq(update.as_str(), library.as_str()) {
        return true;
    }
    let mut lib_slash = library.clone();
    push_char(&mut lib_slash, '/');
    if crate::text::starts_with(update.as_str(), lib_slash.as_str()) {
        return true;
    }
    let mut upd_slash = update.clone();
    push_char(&mut upd_slash, '/');
    crate::text::starts_with(library.as_str(), upd_slash.as_str())
}

/// Why a change of a library's paths is refused.
#[derive(Clone, Copy, Debug, PartialEq, Eq, Structural)]
pub enum LibraryPathError {
    /// The path is blank.
    EmptyPath,
    /// Removing the path would leave the library without any.
    LastPath,
}

/// The message each refusal of a path change is answered with.
pub open spec fn path_error_message(e: LibraryPathError) -> Seq<char> {
    match e {
        LibraryPathError::EmptyPath => "媒体路径不能为空"@,
        LibraryPathError::LastPath => "媒体库至少需要保留一个路径"@,
    }
}

impl LibraryPathError {
    /// The message the refusal is answered with.
    pub fn message(&self) -> (r: &'static str)
        ensures
            r@ == path_error_message(*self),
    {
        match self {
            LibraryPathError::EmptyPath => "媒体路径不能为空",
            LibraryPathError::LastPath => "媒体库至少需要保留一个路径",
        }
    }
}

/// Whether a path list holds `path` up to ASCII case.
pub open spec fn holds_path(paths: Seq<Seq<char>>, path: Seq<char>) -> bool {
    exists|k: int| 0 <= k < paths.len() && eq_ignore_case_seq(#[trigger] paths[k], path)
}

/// The paths with every one equal to `path` up to ASCII case removed.
pub open spec fn without_path(paths: Seq<Seq<char>>, path: Seq<char>) -> Seq<Seq<char>>
    decreases paths.len(),
{
    if paths.len() == 0 {
        Seq::empty()
    } else {
        let prev = without_path(paths.drop_last(), path);
        if eq_ignore_case_seq(paths.last(), path) {
            prev
        } else {
            prev.push(paths.last())
        }
    }
}

fn holds_path_exec(paths: &Vec<String>, path: &str) -> (r: bool)
    ensures
        r == holds_path(views(paths@), path@),
{
    let n = paths.len();
    let mut i: usize = 0;
    while i < n
        invariant
            i <= n,
            n == paths@.len(),
            forall|k: int| 0 <= k < i ==> !eq_ignore_case_seq(#[trigger] views(paths@)[k], path@),
        decreases n - i,
    {
        assert(views(paths@)[i as int] == paths@[i as int]@);
        if eq_ignore_ascii_case(paths[i].as_str(), path) {
            return true;
        }
        i = i + 1;
    }
    false
}

/// The options with a path added: the path trimmed, added at the end unless
/// the library already has it (ASCII case ignored); refused when blank.
pub fn add_path_to_options(options: LibraryOptions, path: &str) -> (r: Result<LibraryOptions, LibraryPathError>)
    ensures
        match r {
            Ok(o) => {
                &&& !is_blank(path@)
                &&& views(o.path_infos@) == with_path(views(options.path_infos@), trim_seq(path@))
                &&& o.season_zero_display_name == options.season_zero_display_name
                &&& o.preferred_image_language == options.preferred_image_language
                &&& o.preferred_metadata_language == options.preferred_metadata_language
                &&& o.min_collection_items == options.min_collection_items
            },
            Err(e) => is_blank(path@) && e == LibraryPathError::EmptyPath,
        },
{
    let t = trim(path);
    if t.unicode_len() == 0 {
        return Err(LibraryPathError::EmptyPath);
    }
    let mut o = options;
    if !holds_path_exec(&o.path_infos, t) {
        let ghost before = views(o.path_infos@);
        o.path_infos.push(owned(t));
        assert(views(o.path_infos@) =~= before.push(t@));
    }
    Ok(o)
}

/// The options with their first path replaced (or, without any, set): the
/// path trimmed; refused when blank.
pub fn set_first_path(options: LibraryOptions, path: &str) -> (r: Result<LibraryOptions, LibraryPathError>)
    ensures
        match r {
            Ok(o) => {
                &&& !is_blank(path@)
                &&& views(o.path_infos@) == (if options.path_infos@.len() == 0 {
                    seq![trim_seq(path@)]
                } else {
                    views(options.path_infos@).update(0, trim_seq(path@))
                })
                &&& o.season_zero_display_name == options.season_zero_display_name
                &&& o.preferred_image_language == options.preferred_image_language
                &&& o.preferred_metadata_language == options.preferred_metadata_language
                &&& o.min_collection_items == options.min_collection_items
            },
            Err(e) => is_blank(path@) && e == LibraryPathError::EmptyPath,
        },
{
    let t = trim(path);
    if t.unicode_len() == 0 {
        return Err(LibraryPathError::EmptyPath);
    }
    let mut o = options;
    let ghost before = views(o.path_infos@);
    if o.path_infos.len() == 0 {
        o.path_infos.push(owned(t));
        assert(views(o.path_infos@) =~= seq![t@]);
    } else {
        o.path_infos.set(0, owned(t));
        assert(views(o.path_infos@) =~= before.update(0, t@));
    }
    Ok(o)
}

/// The options with a path removed: every path equal to it (trimmed, ASCII
/// case ignored) goes; refused when none would be left.
pub fn remove_path_from_options(options: LibraryOptions, path: &str) -> (r: Result<LibraryOptions, LibraryPathError>)
    ensures
        match r {
            Ok(o) => {
                &&& views(o.path_infos@) == without_path(views(options.path_infos@), trim_seq(path@))
                &&& o.path_infos@.len() > 0
                &&& o.season_zero_display_name == options.season_zero_display_name
                &&& o.preferred_image_language == options.preferred_image_language
                &&& o.preferred_metadata_language == options.preferred_metadata_language
                &&& o.min_collection_items == options.min_collection_items
            },
            Err(e) => without_path(views(options.path_infos@), trim_seq(path@)).len() == 0 && e
                == LibraryPathError::LastPath,
        },
{
    let t = trim(path);
    let ghost all = views(options.path_infos@);
    let mut kept: Vec<String> = Vec::new();
    let n = options.path_infos.len();
    let mut i: usize = 0;
    while i < n
        invariant
            i <= n,
            n == options.path_infos@.len(),
            all == views(options.path_infos@),
            t@ == trim_seq(path@),
            views(kept@) == without_path(all.take(i as int), t@),
        decreases n - i,
    {
        assert(all.take(i + 1).drop_last() =~= all.take(i as int));
        assert(all.take(i + 1).last() == options.path_infos@[i as int]@);
        if !eq_ignore_ascii_case(options.path_infos[i].as_str(), t) {
            let ghost before = views(kept@);
            kept.push(options.path_infos[i].clone());
            assert(views(kept@) =~= before.push(options.path_infos@[i as int]@));
        }
        i = i + 1;
    }
    assert(all.take(n as int) =~= all);
    if kept.len() == 0 {
        return Err(LibraryPathError::LastPath);
    }
    Ok(LibraryOptions {
        path_infos: kept,
        season_zero_display_name: options.season_zero_display_name,
        preferred_image_language: options.preferred_image_language,
        preferred_metadata_language: options.preferred_metadata_language,
        min_collection_items: options.min_collection_items,
    })
}

/// A removed path is gone: no path left equals it up to ASCII case.
pub proof fn law_removed_path_gone(paths: Seq<Seq<char>>, path: Seq<char>)
    ensures
        !holds_path(without_path(paths, path), path),
    decreases paths.len(),
{
    if paths.len() > 0 {
        law_removed_path_gone(paths.drop_last(), path);
        let prev = without_path(paths.drop_last(), path);
        let out = without_path(paths, path);
        if !eq_ignore_case_seq(paths.last(), path) {
            assert forall|k: int| 0 <= k < out.len() implies !eq_ignore_case_seq(#[trigger] out[k], path) by {
                if k < prev.len() {
                    assert(out[k] == prev[k]);
                }
            }
        }
    }
}

/// The paths with `path` added unless held (ASCII case ignored).
pub open spec fn with_path(paths: Seq<Seq<char>>, path: Seq<char>) -> Seq<Seq<char>> {
    if holds_path(paths, path) {
        paths
    } else {
        paths.push(path)
    }
}

/// Adding a path twice is adding it once.
pub proof fn law_add_path_idempotent(paths: Seq<Seq<char>>, path: Seq<char>)
    ensures
        with_path(with_path(paths, path), path) == with_path(paths, path),
{
    if !holds_path(paths, path) {
        let out = paths.push(path);
        assert(eq_ignore_case_seq(out[paths.len() as int], path));
        assert(holds_path(out, path));
    }
}

} // verus!
