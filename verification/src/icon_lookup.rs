//! The pure parts of the best-effort window-icon resolution.
//!
//! To find a window's icon, the catalog looks for a desktop-entry file
//! named after the window's application class under a search path derived
//! from the user's data-home directory and the system-wide data
//! directories, reads its `Icon=` key, and resolves that name through the
//! icon theme.  The file reads and the theme lookup are performed by the
//! caller; this module decides where to look and how to phrase the
//! result, and absence at any step yields "no icon", never an error.

use vstd::prelude::*;

verus! {

use vstd::string::StringExecFns;

/// What reading an environment variable produced: a value, nothing, or a
/// value that is not valid text.
pub enum EnvLookup {
    Present(String),
    Absent,
    Invalid,
}

/// The user data-home directory: the dedicated environment variable when
/// it is set, else the `.local/share` directory under the user's home;
/// `None` (no user-level lookup) when the variable is unreadable or when
/// neither variable is set.
pub fn get_xdg_data_home(xdg_data_home: EnvLookup, home: EnvLookup) -> (r: Option<String>)
    ensures
        match xdg_data_home {
            EnvLookup::Present(x) => r matches Some(d) && d@ == x@,
            EnvLookup::Absent => match home {
                EnvLookup::Present(h) => r matches Some(d) && d@ == h@ + ("/.local/share")@,
                EnvLookup::Absent => r is None,
                EnvLookup::Invalid => r is None,
            },
            EnvLookup::Invalid => r is None,
        },
{
    match xdg_data_home {
        EnvLookup::Present(x) => Some(x),
        EnvLookup::Absent => match home {
            EnvLookup::Present(h) => Some(h.concat("/.local/share")),
            EnvLookup::Absent => None,
            EnvLookup::Invalid => None,
        },
        EnvLookup::Invalid => None,
    }
}

/// The directories searched for desktop-entry files, in order: the user
/// data-home first (skipped when unavailable or empty), then the
/// system-wide data directories.
pub fn icon_search_paths(xdg_data_home: Option<String>) -> (r: Vec<String>)
    ensures
        match xdg_data_home {
            Some(d) => if d@.len() == 0 {
                r@.len() == 2 && r@[0]@ == ("/usr/local/share")@ && r@[1]@ == ("/usr/share")@
            } else {
                r@.len() == 3 && r@[0]@ == d@ && r@[1]@ == ("/usr/local/share")@ && r@[2]@
                    == ("/usr/share")@
            },
            None => r@.len() == 2 && r@[0]@ == ("/usr/local/share")@ && r@[1]@ == ("/usr/share")@,
        },
{
    let mut r: Vec<String> = Vec::new();
    match xdg_data_home {
        Some(d) => {
            if !d.as_str().is_empty() {
                r.push(d);
            }
        },
        None => {},
    }
    r.push(String::from_str("/usr/local/share"));
    r.push(String::from_str("/usr/share"));
    r
}

/// The path of the desktop-entry file for application class `app_id`
/// under `search_path`.
pub fn desktop_file_path(search_path: &String, app_id: &String) -> (r: String)
    ensures
        r@ == search_path@ + ("/applications/")@ + app_id@ + (".desktop")@,
{
    let mut r = search_path.clone();
    r.append("/applications/");
    r.append(app_id.as_str());
    r.append(".desktop");
    r
}

/// The icon reference handed to the picker: a file URI for the resolved
/// icon path.
pub fn icon_uri(icon_path: &String) -> (r: String)
    ensures
        r@ == ("file://")@ + icon_path@,
{
    let mut r = String::from_str("file://");
    r.append(icon_path.as_str());
    r
}

} // verus!
