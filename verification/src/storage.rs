//! Layout of the data directory and the form in which the program list is
//! written out.

use vstd::prelude::*;
use crate::model::{opt_view, AppPaths, ProgramEntry};

verus! {

/// Whether `f` names one plain path component: not empty, not `.` or `..`,
/// and free of `/`, `\` and `:`.
pub open spec fn plain_component(f: Seq<char>) -> bool {
    &&& f.len() > 0
    &&& f != seq!['.']
    &&& f != seq!['.', '.']
    &&& forall|i: int| 0 <= i < f.len() ==> #[trigger] f[i] != '/' && f[i] != '\\' && f[i] != ':'
}

/// Whether a path is in the verbatim form `\\?\...`, which `Path::join`
/// rebuilds from its components instead of appending to.
pub open spec fn verbatim_form(p: Seq<char>) -> bool {
    p.len() >= 4 && p.take(4) == seq!['\\', '\\', '?', '\\']
}

/// The text of `Path::parent` of the path `p` (`None` when it has no
/// parent), under the path rules of the platform the library is built for.
pub uninterp spec fn std_path_parent(p: Seq<char>) -> Option<Seq<char>>;

/// The text of `Path::join` of `base` and `part`, under the path rules of
/// the platform the library is built for.
pub uninterp spec fn std_path_join(base: Seq<char>, part: Seq<char>) -> Seq<char>;

/// Wraps `Path::parent` (read back with `to_string_lossy`, exact for a path
/// made from text). Its result is named `std_path_parent`. Its
/// documentation gives `None` for the empty path; a parent is the path
/// without its final component, so a shorter prefix of it; a path of one
/// plain relative component has the empty path as parent.
#[verifier::external_body]
fn path_parent(p: &str) -> (r: Option<String>)
    ensures
        opt_view(r) == std_path_parent(p@),
        p@.len() == 0 ==> r is None,
        r matches Some(d) ==> d@.len() < p@.len() && p@.take(d@.len() as int) == d@,
        plain_component(p@) ==> opt_view(r) == Some(Seq::<char>::empty()),
{
    std::path::Path::new(p).parent().map(|d| d.to_string_lossy().to_string())
}

pub open spec fn path_separator(c: char) -> bool {
    c == '/' || c == '\\'
}

/// A directory path of the ordinary kind: not empty, not in verbatim form,
/// not starting with two separators (a network share or device prefix), and
/// not ending in a separator or in a `.` component. Its text is exactly what
/// `Path::parent` gives back of a name joined onto it.
pub open spec fn ordinary_dir(d: Seq<char>) -> bool {
    &&& d.len() > 0
    &&& !verbatim_form(d)
    &&& !(d.len() >= 2 && path_separator(d[0]) && path_separator(d[1]))
    &&& !path_separator(d.last())
    &&& !(d.len() >= 2 && d.last() == '.' && path_separator(d[d.len() - 2]))
}

/// Wraps `Path::join` (read back with `to_string_lossy`). Its result is
/// named `std_path_join`. Joining a plain relative component onto the empty
/// path gives the component; onto another path that is not in verbatim
/// form, it appends the component, after a separator when the base does not
/// end in one. The component is then the final one, so the parent of the
/// result (the path without its final component, with trailing separators
/// and `.` components normalized away) is an ordinary base again. Which
/// separator the platform uses is not stated.
#[verifier::external_body]
fn path_join(base: &str, part: &str) -> (r: String)
    ensures
        r@ == std_path_join(base@, part@),
        plain_component(part@) && base@.len() == 0 ==> r@ == part@,
        plain_component(part@) && !verbatim_form(base@) ==> (r@ == base@ + part@ || r@ == base@
            + seq!['/'] + part@ || r@ == base@ + seq!['\\'] + part@),
        plain_component(part@) && ordinary_dir(base@) ==> std_path_parent(r@) == Some(base@),
{
    std::path::Path::new(base).join(part).to_string_lossy().to_string()
}

proof fn lemma_plain_names()
    ensures
        plain_component("icons"@),
        plain_component("programs.json"@),
        "icons"@.len() == 5,
        "programs.json"@.len() == 13,
{
    reveal_strlit("icons");
    reveal_strlit("programs.json");
    assert("icons"@.len() == 5);
    assert("icons"@ != seq!['.']);
    assert("icons"@ != seq!['.', '.']);
    assert("programs.json"@.len() == 13);
    assert("programs.json"@ != seq!['.']);
    assert("programs.json"@ != seq!['.', '.']);
}

/// The directory of a program list file: its parent, or `.` when it has
/// none.
pub open spec fn data_dir_of(programs_json: Seq<char>) -> Seq<char> {
    match std_path_parent(programs_json) {
        Some(d) => d,
        None => "."@,
    }
}

/// The paths as text: data directory, program list file, icons directory.
pub open spec fn paths_view(p: AppPaths) -> (Seq<char>, Seq<char>, Seq<char>) {
    (p.data_dir@, p.programs_json@, p.icons_dir@)
}

/// The paths used with a given program list file.
pub open spec fn paths_from_list_file(programs_json: Seq<char>) -> (Seq<char>, Seq<char>, Seq<char>) {
    (data_dir_of(programs_json), programs_json, std_path_join(data_dir_of(programs_json), "icons"@))
}

/// The paths inside a data directory.
pub open spec fn paths_inside(data_dir: Seq<char>) -> (Seq<char>, Seq<char>, Seq<char>) {
    (data_dir, std_path_join(data_dir, "programs.json"@), std_path_join(data_dir, "icons"@))
}

/// The paths used with a given program list file: its directory (its
/// parent, `.` when it has none) and the `icons` directory joined onto
/// that.
pub fn paths_from_programs_json(programs_json: String) -> (paths: AppPaths)
    ensures
        paths.programs_json == programs_json,
        paths_view(paths) == paths_from_list_file(programs_json@),
        programs_json@.len() == 0 ==> paths.data_dir@ == "."@,
        plain_component(programs_json@) ==> paths.data_dir@.len() == 0 && paths.icons_dir@
            == "icons"@,
        paths.data_dir@ != "."@ ==> paths.data_dir@.len() < programs_json@.len()
            && programs_json@.take(paths.data_dir@.len() as int) == paths.data_dir@,
        !verbatim_form(paths.data_dir@) ==> paths.icons_dir@.len() >= 5
            && paths.icons_dir@.skip(paths.icons_dir@.len() - 5) == "icons"@,
{
    let data_dir = match path_parent(programs_json.as_str()) {
        Some(d) => d,
        None => String::from_str("."),
    };
    proof {
        lemma_plain_names();
        reveal_strlit(".");
    }
    let icons_dir = path_join(data_dir.as_str(), "icons");
    proof {
        if data_dir@.len() == 0 {
            assert(icons_dir@.skip(0) =~= icons_dir@);
        } else if !verbatim_form(data_dir@) {
            lemma_appended(data_dir@, "icons"@, icons_dir@);
        }
    }
    AppPaths { data_dir, programs_json, icons_dir }
}

/// The paths inside a data directory: `programs.json` and `icons`, each
/// joined onto it. For an ordinary directory, reading the paths back from
/// the list file (`paths_from_programs_json`) gives the same paths.
pub fn paths_in_data_dir(data_dir: String) -> (paths: AppPaths)
    ensures
        paths.data_dir == data_dir,
        paths_view(paths) == paths_inside(data_dir@),
        ordinary_dir(data_dir@) ==> paths_from_list_file(paths.programs_json@) == paths_view(paths),
        !verbatim_form(data_dir@) ==> paths.programs_json@.len() >= data_dir@.len() + 13
            && paths.programs_json@.take(data_dir@.len() as int) == data_dir@
            && paths.programs_json@.skip(paths.programs_json@.len() - 13) == "programs.json"@,
        !verbatim_form(data_dir@) ==> paths.icons_dir@.len() >= data_dir@.len() + 5
            && paths.icons_dir@.take(data_dir@.len() as int) == data_dir@
            && paths.icons_dir@.skip(paths.icons_dir@.len() - 5) == "icons"@,
{
    proof {
        lemma_plain_names();
    }
    let programs_json = path_join(data_dir.as_str(), "programs.json");
    let icons_dir = path_join(data_dir.as_str(), "icons");
    proof {
        if !verbatim_form(data_dir@) {
            lemma_appended(data_dir@, "programs.json"@, programs_json@);
            lemma_appended(data_dir@, "icons"@, icons_dir@);
        }
    }
    AppPaths { data_dir, programs_json, icons_dir }
}

proof fn lemma_appended(base: Seq<char>, part: Seq<char>, r: Seq<char>)
    requires
        r == base + part || r == base + seq!['/'] + part || r == base + seq!['\\'] + part,
    ensures
        r.len() >= base.len() + part.len(),
        r.take(base.len() as int) == base,
        r.skip(r.len() - part.len()) == part,
{
    if r == base + part {
        assert(r.take(base.len() as int) =~= base);
        assert(r.skip(r.len() - part.len()) =~= part);
    } else if r == base + seq!['/'] + part {
        assert(r.take(base.len() as int) =~= base);
        assert(r.skip(r.len() - part.len()) =~= part);
    } else {
        assert(r.take(base.len() as int) =~= base);
        assert(r.skip(r.len() - part.len()) =~= part);
    }
}

/// An entry as it is stored: everything but the icon data URL, which is
/// rebuilt from the icon file whenever the list is read.
pub open spec fn stored_form(e: ProgramEntry) -> ProgramEntry {
    ProgramEntry { icon_data_url: None, ..e }
}

/// The list as it is written to the program list file: the same entries in
/// the same order, without icon data URLs.
pub fn programs_for_saving(programs: &Vec<ProgramEntry>) -> (cleaned: Vec<ProgramEntry>)
    ensures
        cleaned@.len() == programs@.len(),
        forall|i: int| 0 <= i < programs@.len() ==> #[trigger] cleaned@[i] == stored_form(programs@[i]),
{
    let mut cleaned: Vec<ProgramEntry> = Vec::with_capacity(programs.len());
    let mut i: usize = 0;
    while i < programs.len()
        invariant
            i <= programs@.len(),
            cleaned@.len() == i,
            forall|j: int| 0 <= j < i ==> #[trigger] cleaned@[j] == stored_form(programs@[j]),
        decreases programs@.len() - i,
    {
        let mut c = programs[i].duplicate();
        c.icon_data_url = None;
        cleaned.push(c);
        i = i + 1;
    }
    cleaned
}

} // verus!
