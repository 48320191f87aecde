//! The places the web dashboard and the file browser start from.

use vstd::prelude::*;
use crate::ids::{hyphenated_form, hyphenated_upper_id};
use crate::pathnames::{join_path, joined_path_of, parent_path, parent_path_of};
use crate::json::{as_boolean, field, JsonDoc, JsonScalar};
use crate::text::{ascii_upper_seq, is_blank, is_blank_str, owned, str_eq, trim, trim_seq};

verus! {

/// The folder the web dashboard is served from: the `dashboard-ui` folder
/// inside the static folder when that is a folder, else the static folder.
/// `nested_is_dir` tells whether `<static_dir>/dashboard-ui` is a folder.
pub fn dashboard_dir(static_dir: &str, nested_is_dir: bool) -> (r: String)
    ensures
        r@ == (if nested_is_dir { joined_path_of(static_dir@, "dashboard-ui"@) } else { static_dir@ }),
{
    let nested = join_path(static_dir, "dashboard-ui");
    if nested_is_dir {
        nested
    } else {
        owned(static_dir)
    }
}

/// An entry of the server's file browser.
pub struct FileSystemEntryInfo {
    pub name: String,
    pub path: String,
    pub entry_type: String,
}

/// The roots the file browser starts from on Unix-like systems: the
/// directory `/`.
pub fn list_root_entries() -> (r: Vec<FileSystemEntryInfo>)
    ensures
        r@.len() == 1,
        r@[0].name@ == "/"@,
        r@[0].path@ == "/"@,
        r@[0].entry_type@ == "Directory"@,
{
    vec![FileSystemEntryInfo { name: owned("/"), path: owned("/"), entry_type: owned("Directory") }]
}

/// The message answering a request for a configuration page (always "not
/// found"): whether the page name is missing (blank) or the page is not
/// implemented.
pub fn configuration_page_message(name: Option<&str>) -> (r: &'static str)
    ensures
        r@ == (if name is None || is_blank(name->0@) {
            "Configuration page name is required"@
        } else {
            "Configuration page is not implemented yet"@
        }),
{
    match name {
        Some(n) => if is_blank_str(n) {
            "Configuration page name is required"
        } else {
            "Configuration page is not implemented yet"
        },
        None => "Configuration page name is required",
    }
}

/// A request for the folder above a path that names no path.
#[derive(Debug, PartialEq, Eq)]
pub enum ParentPathError {
    MissingPath,
}

/// The folder above a path (trimmed; `Path::parent`), empty when it has
/// none; an error when no path is given or it is blank.
pub fn environment_parent_path(path: Option<&str>) -> (r: Result<String, ParentPathError>)
    ensures
        match path {
            Some(p) if !is_blank(p@) => r is Ok && r->Ok_0@ == (match parent_path_of(trim_seq(p@)) {
                Some(q) => q,
                None => Seq::empty(),
            }),
            _ => r == Err::<String, ParentPathError>(ParentPathError::MissingPath),
        },
{
    match path {
        Some(p) => {
            let t = trim(p);
            if t.unicode_len() == 0 {
                return Err(ParentPathError::MissingPath);
            }
            match parent_path(t) {
                Some(q) => Ok(q),
                None => Ok(String::new()),
            }
        },
        None => Err(ParentPathError::MissingPath),
    }
}

/// The display preferences a client gets for an item view before any are
/// stored.
pub struct DisplayPreferences {
    pub id: String,
    /// The user's id, hyphenated, in upper case.
    pub user_id: String,
    pub client: String,
    pub view_type: String,
    pub sort_by: String,
    pub index_by: String,
    pub remember_indexing: bool,
    pub primary_image_height: i32,
    pub primary_image_width: i32,
    pub scroll_direction: String,
    pub show_backdrop: bool,
    pub show_sidebar: bool,
}

/// The display preferences before any are stored: for `id` and the user,
/// the client `emby` unless named, poster view sorted and indexed by sort
/// name, 250 by 166 images, horizontal scrolling, backdrop and sidebar.
pub fn display_preferences_value(id: String, user_id: u128, client: Option<&str>) -> (r: DisplayPreferences)
    ensures
        r.id@ == id@,
        r.user_id@ == ascii_upper_seq(hyphenated_form(user_id)),
        r.client@ == (match client { Some(c) => c@, None => "emby"@ }),
        r.view_type@ == "Poster"@,
        r.sort_by@ == "SortName"@,
        r.index_by@ == "SortName"@,
        !r.remember_indexing,
        r.primary_image_height == 250,
        r.primary_image_width == 166,
        r.scroll_direction@ == "Horizontal"@,
        r.show_backdrop,
        r.show_sidebar,
{
    DisplayPreferences {
        id,
        user_id: hyphenated_upper_id(user_id),
        client: match client {
            Some(c) => owned(c),
            None => owned("emby"),
        },
        view_type: owned("Poster"),
        sort_by: owned("SortName"),
        index_by: owned("SortName"),
        remember_indexing: false,
        primary_image_height: 250,
        primary_image_width: 166,
        scroll_direction: owned("Horizontal"),
        show_backdrop: true,
        show_sidebar: true,
    }
}

/// A notification type offered to administrators.
pub struct NotificationType {
    pub kind: String,
    pub name: String,
    pub category: String,
    pub is_based_on_user_event: bool,
    pub enabled: bool,
}

/// Whether the stored notification options enable type `t`: the last
/// option (an object) whose `Type` is the string `t` decides by its
/// boolean `Enabled` (false when not a boolean); with no such option,
/// false.
pub open spec fn type_enabled(options: Seq<JsonDoc>, t: Seq<char>) -> bool
    decreases options.len(),
{
    if options.len() == 0 {
        false
    } else {
        match options.last() {
            JsonDoc::Object(f) => match field(f.entries@, "Type"@) {
                Some(JsonScalar::Str(s)) => if s@ == t {
                    as_boolean(field(f.entries@, "Enabled"@)) == Some(true)
                } else {
                    type_enabled(options.drop_last(), t)
                },
                _ => type_enabled(options.drop_last(), t),
            },
            _ => type_enabled(options.drop_last(), t),
        }
    }
}

fn type_enabled_exec(options: &Vec<JsonDoc>, t: &str) -> (r: bool)
    ensures
        r == type_enabled(options@, t@),
{
    let n = options.len();
    let mut i: usize = n;
    assert(options@.take(n as int) =~= options@);
    while i > 0
        invariant
            i <= n,
            n == options@.len(),
            type_enabled(options@, t@) == type_enabled(options@.take(i as int), t@),
        decreases i,
    {
        let ghost prefix = options@.take(i as int);
        assert(prefix.drop_last() =~= options@.take(i - 1));
        assert(prefix.last() == options@[i - 1]);
        if let JsonDoc::Object(f) = &options[i - 1] {
            if let Some(JsonScalar::Str(s)) = f.get("Type") {
                if str_eq(s.as_str(), t) {
                    return match f.get("Enabled") {
                        Some(JsonScalar::Bool(b)) => b,
                        _ => false,
                    };
                }
            }
        }
        i = i - 1;
    }
    assert(options@.take(0) =~= Seq::<JsonDoc>::empty());
    false
}

/// The notification types: playback started, playback stopped and system
/// update, each enabled as `type_enabled` says of the stored options.
pub fn notification_types(options: &Vec<JsonDoc>) -> (r: Vec<NotificationType>)
    ensures
        r@.len() == 3,
        r@[0].kind@ == "PlaybackStart"@ && r@[0].name@ == "Playback Started"@ && r@[0].category@
            == "Playback"@ && r@[0].is_based_on_user_event && r@[0].enabled == type_enabled(options@, "PlaybackStart"@),
        r@[1].kind@ == "PlaybackStopped"@ && r@[1].name@ == "Playback Stopped"@ && r@[1].category@
            == "Playback"@ && r@[1].is_based_on_user_event && r@[1].enabled == type_enabled(options@, "PlaybackStopped"@),
        r@[2].kind@ == "SystemUpdate"@ && r@[2].name@ == "System Update"@ && r@[2].category@
            == "System"@ && !r@[2].is_based_on_user_event && r@[2].enabled == type_enabled(options@, "SystemUpdate"@),
{
    vec![
        NotificationType {
            kind: owned("PlaybackStart"),
            name: owned("Playback Started"),
            category: owned("Playback"),
            is_based_on_user_event: true,
            enabled: type_enabled_exec(options, "PlaybackStart"),
        },
        NotificationType {
            kind: owned("PlaybackStopped"),
            name: owned("Playback Stopped"),
            category: owned("Playback"),
            is_based_on_user_event: true,
            enabled: type_enabled_exec(options, "PlaybackStopped"),
        },
        NotificationType {
            kind: owned("SystemUpdate"),
            name: owned("System Update"),
            category: owned("System"),
            is_based_on_user_event: false,
            enabled: type_enabled_exec(options, "SystemUpdate"),
        },
    ]
}

} // verus!
