//! Parts of file paths, as `std::path::Path` reads them.

use vstd::prelude::*;
use crate::text::owned;

verus! {

/// What `Path::file_name` gives for a path, as text.
pub uninterp spec fn file_name_of(path: Seq<char>) -> Option<Seq<char>>;

/// The position of the last `.` in a name.
pub open spec fn last_dot(name: Seq<char>) -> Option<int>
    decreases name.len(),
{
    if name.len() == 0 {
        None
    } else if name.last() == '.' {
        Some(name.len() - 1)
    } else {
        last_dot(name.drop_last())
    }
}

/// A file name split into stem and extension as `Path` splits it: at the
/// last `.`, except that `..`, a name without a `.`, and a name whose only
/// leading part before the last `.` is empty have no extension.
pub open spec fn split_name(name: Seq<char>) -> (Seq<char>, Option<Seq<char>>) {
    if name == seq!['.', '.'] {
        (name, None)
    } else {
        match last_dot(name) {
            None => (name, None),
            Some(i) => if i == 0 {
                (name, None)
            } else {
                (name.take(i), Some(name.skip(i + 1)))
            },
        }
    }
}

/// What `Path::file_stem` gives for a path, as text.
pub open spec fn file_stem_of(path: Seq<char>) -> Option<Seq<char>> {
    match file_name_of(path) {
        Some(n) => Some(split_name(n).0),
        None => None,
    }
}

/// What `Path::extension` gives for a path, as text.
pub open spec fn extension_of(path: Seq<char>) -> Option<Seq<char>> {
    match file_name_of(path) {
        Some(n) => split_name(n).1,
        None => None,
    }
}

/// The name of the folder holding a path: the last component of its parent.
pub open spec fn parent_name_of(path: Seq<char>) -> Option<Seq<char>> {
    match parent_path_of(path) {
        Some(p) => file_name_of(p),
        None => None,
    }
}

/// The name of the folder holding a path, as `parent_name_of` states.
pub fn parent_folder_name(path: &str) -> (r: Option<String>)
    ensures
        match r {
            Some(s) => parent_name_of(path@) == Some(s@),
            None => parent_name_of(path@) is None,
        },
{
    match parent_path(path) {
        Some(p) => file_name(p.as_str()),
        None => None,
    }
}

/// The last component of a path (`Path::file_name`, lossily converted);
/// named `file_name_of` of the path.
#[verifier::external_body]
pub(crate) fn file_name(path: &str) -> (r: Option<String>)
    ensures
        match r {
            Some(s) => file_name_of(path@) == Some(s@),
            None => file_name_of(path@) is None,
        },
{
    std::path::Path::new(path).file_name().map(|v| v.to_string_lossy().to_string())
}

/// A file name split into stem and extension, as `split_name` states.
fn split_file_name(name: &str) -> (r: (String, Option<String>))
    ensures
        r.0@ == split_name(name@).0,
        match r.1 {
            Some(e) => split_name(name@).1 == Some(e@),
            None => split_name(name@).1 is None,
        },
{
    let n = name.unicode_len();
    if n == 2 && name.get_char(0) == '.' && name.get_char(1) == '.' {
        assert(name@ =~= seq!['.', '.']);
        return (owned(name), None);
    }
    assert(name@ != seq!['.', '.']) by {
        if name@ == seq!['.', '.'] {
            assert(n == 2 && name@[0] == '.' && name@[1] == '.');
        }
    }
    let mut i = n;
    assert(name@.take(n as int) =~= name@);
    while i > 0
        invariant
            i <= n,
            n == name@.len(),
            name@ != seq!['.', '.'],
            last_dot(name@) == last_dot(name@.take(i as int)),
        decreases i,
    {
        assert(name@.take(i as int).drop_last() =~= name@.take(i - 1));
        if name.get_char(i - 1) == '.' {
            assert(name@.take(i as int).last() == '.');
            assert(last_dot(name@) == Some(i - 1));
            let stem = name.substring_char(0, i - 1);
            let ext = name.substring_char(i, n);
            assert(stem@ =~= name@.take(i - 1));
            assert(ext@ =~= name@.skip(i as int));
            if i - 1 == 0 {
                return (owned(name), None);
            }
            return (owned(stem), Some(owned(ext)));
        }
        i = i - 1;
    }
    (owned(name), None)
}

/// The file name without its extension, as `file_stem_of` states.
pub(crate) fn file_stem(path: &str) -> (r: Option<String>)
    ensures
        match r {
            Some(s) => file_stem_of(path@) == Some(s@),
            None => file_stem_of(path@) is None,
        },
{
    match file_name(path) {
        Some(n) => Some(split_file_name(n.as_str()).0),
        None => None,
    }
}

/// The extension of a path, as `extension_of` states.
pub(crate) fn extension(path: &str) -> (r: Option<String>)
    ensures
        match r {
            Some(s) => extension_of(path@) == Some(s@),
            None => extension_of(path@) is None,
        },
{
    match file_name(path) {
        Some(n) => split_file_name(n.as_str()).1,
        None => None,
    }
}

/// What `Path::parent` gives for a path, as text.
pub uninterp spec fn parent_path_of(path: Seq<char>) -> Option<Seq<char>>;

/// What `Path::join` gives for a base path and a further part, as text.
pub uninterp spec fn joined_path_of(base: Seq<char>, part: Seq<char>) -> Seq<char>;

/// The path holding a path (`Path::parent`, converted to text); named
/// `parent_path_of` of the path.
#[verifier::external_body]
pub(crate) fn parent_path(path: &str) -> (r: Option<String>)
    ensures
        match r {
            Some(s) => parent_path_of(path@) == Some(s@),
            None => parent_path_of(path@) is None,
        },
{
    std::path::Path::new(path).parent().map(|p| p.to_string_lossy().into_owned())
}

/// A path extended by a further part (`Path::join`, converted to text);
/// named `joined_path_of` of the two.
#[verifier::external_body]
pub(crate) fn join_path(base: &str, part: &str) -> (r: String)
    ensures
        r@ == joined_path_of(base@, part@),
{
    std::path::Path::new(base).join(part).to_string_lossy().into_owned()
}

} // verus!
