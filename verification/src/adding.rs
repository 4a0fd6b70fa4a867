//! Adding a program: which executable a dropped file stands for, and the
//! checks it has to pass.

use vstd::prelude::*;
use crate::catalog::{find_by_id, index_of_id, lemma_index_of_id};
use crate::model::{opt_view, ProgramEntry, ResolvedShortcut};
use crate::text::{ascii_lower, ascii_lower_char, contains, contains_spec, same_text, to_ascii_lowercase, trim_char, trim_char_spec};

verus! {

pub open spec fn unwrap_or_empty(s: Option<Seq<char>>) -> Seq<char> {
    match s {
        Some(v) => v,
        None => seq![],
    }
}

/// Whether a file extension (as read from a path, if any) is `want`,
/// ignoring ASCII case.
pub fn extension_is(ext: Option<&str>, want: &str) -> (r: bool)
    ensures
        r == (ascii_lower(unwrap_or_empty(opt_view(ext))) == want@),
{
    let lower = match ext {
        Some(e) => to_ascii_lowercase(e),
        None => String::new(),
    };
    proof {
        assert(ascii_lower(Seq::<char>::empty()) =~= Seq::<char>::empty());
    }
    same_text(lower.as_str(), want)
}

/// Whether a shortcut's arguments show that it is one of this
/// application's own elevated shortcuts: in lower case they contain both
/// `--run-task` and `elevated_`.
pub open spec fn is_elevated_link_spec(arguments: Option<Seq<char>>) -> bool {
    let lower = ascii_lower(unwrap_or_empty(arguments));
    contains_spec(lower, "--run-task"@) && contains_spec(lower, "elevated_"@)
}

/// The refusal of one of this application's own shortcuts.
pub open spec fn elevated_link_message() -> Seq<char> {
    "You dropped an (elevated).lnk. Please drop the original shortcut (.lnk) that points to the target app."@
}

/// What a dropped file leads to: the executable, its arguments, and the
/// file to take its icon from.
pub struct Selection {
    pub target_path: String,
    pub arguments: Option<String>,
    pub icon_source: String,
}

/// The selection for a dropped executable: itself, without arguments.
pub fn select_plain(source: &str) -> (sel: Selection)
    ensures
        sel.target_path@ == source@,
        sel.arguments is None,
        sel.icon_source@ == source@,
{
    Selection {
        target_path: String::from_str(source),
        arguments: None,
        icon_source: String::from_str(source),
    }
}

/// The selection for a dropped shortcut: what it points to, with its icon
/// location or else its target as the icon source. One of this
/// application's own elevated shortcuts is refused.
pub fn select_from_link(link: ResolvedShortcut) -> (r: Result<Selection, String>)
    ensures
        is_elevated_link_spec(opt_view(link.arguments)) ==> (r matches Err(e) && e@
            == elevated_link_message()),
        !is_elevated_link_spec(opt_view(link.arguments)) ==> (r matches Ok(sel) && sel.target_path
            == link.target_path && sel.arguments == link.arguments && sel.icon_source == (
        match link.icon_path {
            Some(i) => i,
            None => link.target_path,
        })),
{
    let lower = match &link.arguments {
        Some(a) => to_ascii_lowercase(a.as_str()),
        None => String::new(),
    };
    proof {
        assert(ascii_lower(Seq::<char>::empty()) =~= Seq::<char>::empty());
    }
    if contains(lower.as_str(), "--run-task") && contains(lower.as_str(), "elevated_") {
        return Err(
            String::from_str(
                "You dropped an (elevated).lnk. Please drop the original shortcut (.lnk) that points to the target app.",
            ),
        );
    }
    let icon_source = match &link.icon_path {
        Some(i) => i.clone(),
        None => link.target_path.clone(),
    };
    Ok(Selection { target_path: link.target_path, arguments: link.arguments, icon_source })
}

/// The checks a selection has to pass, given whether its icon source and
/// its target exist and the target's extension: a missing icon source is
/// replaced by the target; the target must exist and be an `.exe`.
pub fn check_selection(
    sel: Selection,
    icon_source_exists: bool,
    target_exists: bool,
    target_ext: Option<&str>,
) -> (r: Result<Selection, String>)
    ensures
        !target_exists ==> (r matches Err(e) && e@ == "target path does not exist"@),
        target_exists && ascii_lower(unwrap_or_empty(opt_view(target_ext))) != "exe"@ ==> (
        r matches Err(e) && e@ == "only .exe targets are supported"@),
        target_exists && ascii_lower(unwrap_or_empty(opt_view(target_ext))) == "exe"@ ==> (
        r matches Ok(s) && s.target_path == sel.target_path && s.arguments == sel.arguments
            && s.icon_source == (if icon_source_exists {
            sel.icon_source
        } else {
            sel.target_path
        })),
{
    let icon_source = if icon_source_exists {
        sel.icon_source
    } else {
        sel.target_path.clone()
    };
    if !target_exists {
        return Err(String::from_str("target path does not exist"));
    }
    if !extension_is(target_ext, "exe") {
        return Err(String::from_str("only .exe targets are supported"));
    }
    Ok(Selection { target_path: sel.target_path, arguments: sel.arguments, icon_source })
}

/// A program's display name: the dropped file's stem, or `App`.
pub fn program_name(stem: Option<&str>) -> (name: String)
    ensures
        name@ == (match stem {
            Some(s) => s@,
            None => "App"@,
        }),
{
    match stem {
        Some(s) => String::from_str(s),
        None => String::from_str("App"),
    }
}

/// Whether `c` is a lower-case hexadecimal digit.
pub open spec fn lower_hex_digit(c: char) -> bool {
    ('0' <= c && c <= '9') || ('a' <= c && c <= 'f')
}

/// The text of a random (version 4, RFC 4122 variant) UUID in hyphenated
/// lower-case form: 8-4-4-4-12 hexadecimal digits, `4` as the version digit
/// and one of `8`, `9`, `a`, `b` as the variant digit.
pub open spec fn uuid_v4_text(s: Seq<char>) -> bool {
    &&& s.len() == 36
    &&& forall|i: int|
        0 <= i < 36 ==> if i == 8 || i == 13 || i == 18 || i == 23 {
            #[trigger] s[i] == '-'
        } else {
            lower_hex_digit(s[i])
        }
    &&& s[14] == '4'
    &&& (s[19] == '8' || s[19] == '9' || s[19] == 'a' || s[19] == 'b')
}

/// Wraps `uuid::Uuid::new_v4` and its `to_string`: a random version-4 UUID
/// (version and variant bits set, the rest random) in hyphenated lower-case
/// form. Which UUID comes back is chance.
#[verifier::external_body]
fn new_program_id() -> (id: String)
    ensures
        uuid_v4_text(id@),
{
    uuid::Uuid::new_v4().to_string()
}

/// A newly added program, under a fresh random id, with no desktop
/// shortcut yet.
pub fn new_entry(
    name: String,
    source_path: String,
    target_path: String,
    arguments: Option<String>,
    icon_path: String,
    icon_data_url: Option<String>,
    installed: bool,
    task_name: String,
    created_at_unix_ms: i64,
) -> (e: ProgramEntry)
    ensures
        uuid_v4_text(e.id@),
        e.name == name,
        e.source_path == source_path,
        e.target_path == target_path,
        e.arguments == arguments,
        e.icon_path == icon_path,
        e.icon_data_url == icon_data_url,
        e.desktop_shortcut_path is None,
        e.installed == installed,
        e.task_name == task_name,
        e.created_at_unix_ms == created_at_unix_ms,
{
    ProgramEntry {
        id: new_program_id(),
        name,
        source_path,
        target_path,
        arguments,
        icon_path,
        icon_data_url,
        desktop_shortcut_path: None,
        installed,
        task_name,
        created_at_unix_ms,
    }
}

/// Whether a program that is already in the list still needs a desktop
/// shortcut: it has none recorded, or the recorded one is gone.
pub fn shortcut_needed(existing: &ProgramEntry, recorded_shortcut_exists: bool) -> (r: bool)
    ensures
        r == (existing.desktop_shortcut_path is None || !recorded_shortcut_exists),
{
    match &existing.desktop_shortcut_path {
        None => true,
        Some(_) => !recorded_shortcut_exists,
    }
}

/// A path with surrounding double quotes removed.
pub fn unquoted(s: &str) -> (r: String)
    ensures
        r@ == trim_char_spec(s@, '"'),
{
    trim_char(s, '"')
}

/// The path whose folder is opened to show a program.
pub enum LocationCandidate {
    /// The program's executable.
    Target(String),
    /// The program's desktop shortcut.
    Shortcut(String),
}

impl LocationCandidate {
    /// The message when the path has no parent folder.
    pub fn no_parent_message(&self) -> (m: String)
        ensures
            self is Target ==> m@ == "target has no parent directory"@,
            self is Shortcut ==> m@ == "shortcut has no parent directory"@,
    {
        match self {
            LocationCandidate::Target(_) => String::from_str("target has no parent directory"),
            LocationCandidate::Shortcut(_) => String::from_str("shortcut has no parent directory"),
        }
    }
}

/// Which path to open for a program: its unquoted executable path when that
/// exists, else its unquoted shortcut path when it has one.
pub fn location_candidate(entry: &ProgramEntry, target_exists: bool) -> (r: Result<
    LocationCandidate,
    String,
>)
    ensures
        target_exists ==> (r matches Ok(LocationCandidate::Target(t)) && t@ == trim_char_spec(
            entry.target_path@,
            '"',
        )),
        !target_exists && entry.desktop_shortcut_path is Some ==> (r matches Ok(
            LocationCandidate::Shortcut(p),
        ) && p@ == trim_char_spec(entry.desktop_shortcut_path->0@, '"')),
        !target_exists && entry.desktop_shortcut_path is None ==> (r matches Err(e) && e@
            == "path does not exist"@),
{
    if target_exists {
        Ok(LocationCandidate::Target(unquoted(entry.target_path.as_str())))
    } else {
        match &entry.desktop_shortcut_path {
            Some(p) => Ok(LocationCandidate::Shortcut(unquoted(p.as_str()))),
            None => Err(String::from_str("path does not exist")),
        }
    }
}

/// Whether removing the program with the given id needs the elevated
/// cleaner (it is installed) or not (it is a draft); `program not found`
/// when there is no such program.
pub fn removal_needs_elevation(programs: &Vec<ProgramEntry>, id: &str) -> (r: Result<bool, String>)
    ensures
        index_of_id(programs@, id@) is None ==> (r matches Err(e) && e@ == "program not found"@),
        index_of_id(programs@, id@) matches Some(i) ==> r == Ok::<bool, String>(
            programs@[i].installed,
        ),
{
    proof {
        lemma_index_of_id(programs@, id@);
    }
    match find_by_id(programs, id) {
        None => Err(String::from_str("program not found")),
        Some(i) => Ok(programs[i].installed),
    }
}

/// Whether `pat` stands in `a` from position `i` on when ASCII letters of
/// `a` are taken in lower case.
pub open spec fn occurs_at_ignoring_ascii_case(a: Seq<char>, pat: Seq<char>, i: int) -> bool {
    &&& 0 <= i
    &&& i + pat.len() <= a.len()
    &&& forall|t: int| 0 <= t < pat.len() ==> #[trigger] ascii_lower_char(a[i + t]) == pat[t]
}

/// Whether `pat` occurs in `a` at some position, ignoring ASCII case in `a`.
pub open spec fn occurs_ignoring_ascii_case(a: Seq<char>, pat: Seq<char>) -> bool {
    exists|i: int| #[trigger] occurs_at_ignoring_ascii_case(a, pat, i)
}

proof fn lemma_contains_lower(a: Seq<char>, pat: Seq<char>)
    ensures
        contains_spec(ascii_lower(a), pat) <==> occurs_ignoring_ascii_case(a, pat),
{
    let l = ascii_lower(a);
    if contains_spec(l, pat) {
        let i = choose|i: int|
            0 <= i && i + pat.len() <= l.len() && #[trigger] l.subrange(i, i + pat.len()) == pat;
        assert forall|t: int| 0 <= t < pat.len() implies #[trigger] ascii_lower_char(a[i + t])
            == pat[t] by {
            assert(l.subrange(i, i + pat.len())[t] == l[i + t]);
        }
        assert(occurs_at_ignoring_ascii_case(a, pat, i));
    }
    if occurs_ignoring_ascii_case(a, pat) {
        let i = choose|i: int| #[trigger] occurs_at_ignoring_ascii_case(a, pat, i);
        assert forall|t: int| 0 <= t < pat.len() implies #[trigger] l.subrange(i, i + pat.len())[t]
            == pat[t] by {
            assert(ascii_lower_char(a[i + t]) == pat[t]);
            assert(l[i + t] == ascii_lower_char(a[i + t]));
        }
        assert(l.subrange(i, i + pat.len()) =~= pat);
    }
}

/// Only this application's own elevated shortcuts are refused: a shortcut
/// is refused exactly when it has arguments that contain both
/// `--run-task` and `elevated_`, ignoring ASCII case; a shortcut without
/// arguments is always accepted (with its target, arguments and icon
/// source, by `select_from_link`).
pub proof fn law_only_own_shortcuts_refused(arguments: Option<Seq<char>>)
    ensures
        arguments is None ==> !is_elevated_link_spec(arguments),
        is_elevated_link_spec(arguments) <==> (arguments matches Some(a) && occurs_ignoring_ascii_case(
            a,
            "--run-task"@,
        ) && occurs_ignoring_ascii_case(a, "elevated_"@)),
{
    reveal_strlit("--run-task");
    reveal_strlit("elevated_");
    match arguments {
        Some(a) => {
            lemma_contains_lower(a, "--run-task"@);
            lemma_contains_lower(a, "elevated_"@);
        },
        None => {
            let l = ascii_lower(Seq::<char>::empty());
            assert(l.len() == 0);
            if contains_spec(l, "--run-task"@) {
                let i = choose|i: int|
                    0 <= i && i + "--run-task"@.len() <= l.len() && #[trigger] l.subrange(
                        i,
                        i + "--run-task"@.len(),
                    ) == "--run-task"@;
                assert(false);
            }
        },
    }
}

} // verus!
