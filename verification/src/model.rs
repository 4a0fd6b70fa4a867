//! The records the application stores and exchanges.

use vstd::prelude::*;
use crate::text::{trim_spec, trim};

verus! {

/// One program the user added: the source it came from, the executable it
/// runs, its cached icon, and the scheduled task and desktop shortcut made
/// for it.
pub struct ProgramEntry {
    pub id: String,
    pub name: String,
    pub source_path: String,
    pub target_path: String,
    pub arguments: Option<String>,
    pub icon_path: String,
    pub icon_data_url: Option<String>,
    pub desktop_shortcut_path: Option<String>,
    pub installed: bool,
    pub task_name: String,
    pub created_at_unix_ms: i64,
}

pub fn clone_opt_string(s: &Option<String>) -> (r: Option<String>)
    ensures
        r == *s,
{
    match s {
        Some(v) => Some(v.clone()),
        None => None,
    }
}

impl ProgramEntry {
    /// A copy of the entry, field for field.
    pub fn duplicate(&self) -> (r: ProgramEntry)
        ensures
            r == *self,
    {
        ProgramEntry {
            id: self.id.clone(),
            name: self.name.clone(),
            source_path: self.source_path.clone(),
            target_path: self.target_path.clone(),
            arguments: clone_opt_string(&self.arguments),
            icon_path: self.icon_path.clone(),
            icon_data_url: clone_opt_string(&self.icon_data_url),
            desktop_shortcut_path: clone_opt_string(&self.desktop_shortcut_path),
            installed: self.installed,
            task_name: self.task_name.clone(),
            created_at_unix_ms: self.created_at_unix_ms,
        }
    }
}

/// Where the application keeps its data: the data directory, the program
/// list file inside it, and the icon cache directory.
pub struct AppPaths {
    pub data_dir: String,
    pub programs_json: String,
    pub icons_dir: String,
}

/// Work handed to the elevated installer: which programs to install, from
/// which list, with shortcuts in which desktop directory.
pub struct PendingInstall {
    pub programs_json: String,
    pub desktop_dir: String,
    pub ids: Vec<String>,
}

/// Work handed to the elevated cleaner: which programs to remove from which
/// list.
pub struct PendingCleanup {
    pub programs_json: String,
    pub ids: Vec<String>,
}

/// What a `.lnk` shortcut points to.
pub struct ResolvedShortcut {
    pub target_path: String,
    pub arguments: Option<String>,
    pub icon_path: Option<String>,
}

/// `None` for text that is blank after trimming white space, else the text
/// itself (untrimmed).
pub open spec fn non_blank(s: Seq<char>) -> Option<Seq<char>> {
    if trim_spec(s).len() == 0 {
        None
    } else {
        Some(s)
    }
}

/// The view of an optional value.
pub open spec fn opt_view<T: View>(o: Option<T>) -> Option<T::V> {
    match o {
        Some(v) => Some(v@),
        None => None,
    }
}

fn non_blank_string(s: String) -> (r: Option<String>)
    ensures
        opt_view(r) == non_blank(s@),
        r matches Some(v) ==> v == s,
{
    let t = trim(s.as_str());
    if t.as_str().unicode_len() == 0 {
        None
    } else {
        Some(s)
    }
}

impl ResolvedShortcut {
    /// Builds the description of a shortcut from the target, argument and
    /// icon texts read out of it; blank arguments and a blank icon location
    /// count as absent.
    pub fn from_link_texts(target: String, args: String, icon: String) -> (r: ResolvedShortcut)
        ensures
            r.target_path@ == target@,
            opt_view(r.arguments) == non_blank(args@),
            opt_view(r.icon_path) == non_blank(icon@),
    {
        ResolvedShortcut {
            target_path: target,
            arguments: non_blank_string(args),
            icon_path: non_blank_string(icon),
        }
    }
}

} // verus!
