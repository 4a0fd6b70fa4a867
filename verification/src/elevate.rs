//! The elevated installer and cleaner: the command lines that start them and
//! the bookkeeping they do on the program list.

use vstd::prelude::*;
use vstd::multiset::Multiset;
use crate::catalog::{find_by_id, index_of_id, lemma_index_of_id, listed};
use crate::model::ProgramEntry;
use crate::unicode::{encode_utf16, push_char, to_wide_str};

verus! {

/// Name of the persistent scheduled task that runs pending installs.
pub const INSTALLER_TASK_NAME: &'static str = "elevated_SkipUAC_Installer";

/// Name of the persistent scheduled task that runs pending removals.
pub const CLEANER_TASK_NAME: &'static str = "elevated_SkipUAC_Cleaner";

/// NUL-terminated UTF-16 form of a string.
pub fn to_wide_null(s: &str) -> (v: Vec<u16>)
    ensures
        v@ == encode_utf16(s@).push(0),
{
    to_wide_str(s)
}

/// `<flag> "<path>"`.
pub open spec fn flag_with_quoted_path(flag: Seq<char>, path: Seq<char>) -> Seq<char> {
    flag + seq![' ', '"'] + path + seq!['"']
}

fn quoted_after(flag: &str, path: &str) -> (r: String)
    ensures
        r@ == flag_with_quoted_path(flag@, path@),
{
    let mut r = String::from_str(flag);
    push_char(&mut r, ' ');
    push_char(&mut r, '"');
    r.append(path);
    push_char(&mut r, '"');
    assert(r@ =~= flag_with_quoted_path(flag@, path@));
    r
}

/// Command-line arguments that make the application process a pending
/// install file: `--install-pending "<path>"`.
pub fn install_pending_args(pending_path: &str) -> (r: String)
    ensures
        r@ == flag_with_quoted_path("--install-pending"@, pending_path@),
{
    quoted_after("--install-pending", pending_path)
}

/// Command-line arguments that make the application process a pending
/// cleanup file: `--cleanup-pending "<path>"`.
pub fn cleanup_pending_args(pending_path: &str) -> (r: String)
    ensures
        r@ == flag_with_quoted_path("--cleanup-pending"@, pending_path@),
{
    quoted_after("--cleanup-pending", pending_path)
}

/// Whether the program named `id` still needs installing: its first entry
/// exists and is not installed.
pub open spec fn install_ready(s: Seq<ProgramEntry>, id: Seq<char>) -> bool {
    match index_of_id(s, id) {
        Some(i) => !s[i].installed,
        None => false,
    }
}

/// The entry after a successful install with the given shortcut.
pub open spec fn installed_form(e: ProgramEntry, shortcut: String) -> ProgramEntry {
    ProgramEntry { desktop_shortcut_path: Some(shortcut), installed: true, ..e }
}

/// The next install to perform, scanning `ids` from position `from`:
/// `(k, j)` where `ids[k]` is the first id from `from` on whose program
/// still needs installing and `j` is that program's position.
pub fn next_install(programs: &Vec<ProgramEntry>, ids: &Vec<String>, from: usize) -> (r: Option<
    (usize, usize),
>)
    ensures
        match r {
            Some((k, j)) => {
                &&& from <= k < ids@.len()
                &&& index_of_id(programs@, ids@[k as int]@) == Some(j as int)
                &&& j < programs@.len()
                &&& !programs@[j as int].installed
                &&& forall|t: int| from <= t < k ==> !install_ready(programs@, #[trigger] ids@[t]@)
            },
            None => forall|t: int|
                from <= t < ids@.len() ==> !install_ready(programs@, #[trigger] ids@[t]@),
        },
{
    let mut k: usize = from;
    while k < ids.len()
        invariant
            from <= k || from >= ids@.len(),
            k >= from,
            forall|t: int| from <= t < k ==> !install_ready(programs@, #[trigger] ids@[t]@),
        decreases ids@.len() - k,
    {
        proof {
            lemma_index_of_id(programs@, ids@[k as int]@);
        }
        match find_by_id(programs, ids[k].as_str()) {
            Some(j) => {
                if !programs[j].installed {
                    return Some((k, j));
                }
            },
            None => {},
        }
        k = k + 1;
    }
    None
}

/// Records a successful install of entry `j`: its shortcut path, and that
/// it is installed.
pub fn mark_installed(programs: &mut Vec<ProgramEntry>, j: usize, shortcut: String)
    requires
        j < old(programs)@.len(),
    ensures
        final(programs)@ == old(programs)@.update(
            j as int,
            installed_form(old(programs)@[j as int], shortcut),
        ),
{
    let mut e = programs[j].duplicate();
    e.desktop_shortcut_path = Some(shortcut);
    e.installed = true;
    programs.set(j, e);
}

proof fn lemma_index_of_id_update(s: Seq<ProgramEntry>, j: int, e: ProgramEntry, id: Seq<char>)
    requires
        0 <= j < s.len(),
        e.id@ == s[j].id@,
    ensures
        index_of_id(s.update(j, e), id) == index_of_id(s, id),
    decreases s.len(),
{
    let t = s.update(j, e);
    assert(t[0].id@ == s[0].id@);
    if j > 0 {
        lemma_index_of_id_update(s.drop_first(), j - 1, e, id);
        assert(t.drop_first() =~= s.drop_first().update(j - 1, e));
    } else {
        assert(t.drop_first() =~= s.drop_first());
    }
}

/// An install is never repeated: once entry `j` was marked installed for
/// `ids[k]`, that id no longer needs installing, and no other id's readiness
/// changes except through the same entry.
pub proof fn law_install_not_repeated(
    programs: Seq<ProgramEntry>,
    j: int,
    shortcut: String,
    id: Seq<char>,
)
    requires
        index_of_id(programs, id) == Some(j),
    ensures
        !install_ready(programs.update(j, installed_form(programs[j], shortcut)), id),
        forall|other: Seq<char>|
            index_of_id(programs, other) != Some(j) ==> install_ready(
                programs.update(j, installed_form(programs[j], shortcut)),
                other,
            ) == #[trigger] install_ready(programs, other),
{
    lemma_index_of_id(programs, id);
    let after = programs.update(j, installed_form(programs[j], shortcut));
    lemma_index_of_id_update(programs, j, installed_form(programs[j], shortcut), id);
    assert forall|other: Seq<char>|
        index_of_id(programs, other) != Some(j) implies install_ready(after, other)
        == #[trigger] install_ready(programs, other) by {
        lemma_index_of_id_update(programs, j, installed_form(programs[j], shortcut), other);
        lemma_index_of_id(programs, other);
        if let Some(i) = index_of_id(programs, other) {
            assert(after[i] == programs[i]);
        }
    }
}

/// A whole pending install, over the outcome of the outside work: the ids
/// are taken in order, and each one whose program still needs installing
/// has that program marked installed with the shortcut made for the `n`-th
/// install (`shortcut(n)`, counting from `n`). The result is the list
/// afterwards and the count of installs so far.
pub open spec fn install_run(
    s: Seq<ProgramEntry>,
    ids: Seq<String>,
    n: nat,
    shortcut: spec_fn(nat) -> String,
) -> (Seq<ProgramEntry>, nat)
    decreases ids.len(),
{
    if ids.len() == 0 {
        (s, n)
    } else {
        match index_of_id(s, ids[0]@) {
            Some(j) => if !s[j].installed {
                install_run(
                    s.update(j, installed_form(s[j], shortcut(n))),
                    ids.drop_first(),
                    n + 1,
                    shortcut,
                )
            } else {
                install_run(s, ids.drop_first(), n, shortcut)
            },
            None => install_run(s, ids.drop_first(), n, shortcut),
        }
    }
}

/// One step of the install loop is one step of the whole run: when
/// `next_install` reports `(k, j)` from position `from`, the run from
/// `from` is the run from `k + 1` after marking entry `j` installed.
pub proof fn law_install_step(
    s: Seq<ProgramEntry>,
    ids: Seq<String>,
    from: int,
    k: int,
    j: int,
    n: nat,
    shortcut: spec_fn(nat) -> String,
)
    requires
        0 <= from <= k < ids.len(),
        index_of_id(s, ids[k]@) == Some(j),
        !s[j].installed,
        forall|t: int| from <= t < k ==> !install_ready(s, #[trigger] ids[t]@),
    ensures
        install_run(s, ids.skip(from), n, shortcut) == install_run(
            s.update(j, installed_form(s[j], shortcut(n))),
            ids.skip(k + 1),
            n + 1,
            shortcut,
        ),
    decreases k - from,
{
    let r = ids.skip(from);
    assert(r[0] == ids[from]);
    assert(r.drop_first() =~= ids.skip(from + 1));
    if from < k {
        assert(!install_ready(s, ids[from]@));
        law_install_step(s, ids, from + 1, k, j, n, shortcut);
    }
}

/// When `next_install` finds nothing from position `from`, the rest of the
/// run changes nothing.
pub proof fn law_install_done(
    s: Seq<ProgramEntry>,
    ids: Seq<String>,
    from: int,
    n: nat,
    shortcut: spec_fn(nat) -> String,
)
    requires
        0 <= from <= ids.len(),
        forall|t: int| from <= t < ids.len() ==> !install_ready(s, #[trigger] ids[t]@),
    ensures
        install_run(s, ids.skip(from), n, shortcut) == (s, n),
    decreases ids.len() - from,
{
    let r = ids.skip(from);
    if from < ids.len() {
        assert(r[0] == ids[from]);
        assert(r.drop_first() =~= ids.skip(from + 1));
        assert(!install_ready(s, ids[from]@));
        law_install_done(s, ids, from + 1, n, shortcut);
    } else {
        assert(r.len() == 0);
    }
}

proof fn lemma_index_of_id_same_ids(a: Seq<ProgramEntry>, b: Seq<ProgramEntry>, id: Seq<char>)
    requires
        a.len() == b.len(),
        forall|i: int| 0 <= i < a.len() ==> #[trigger] a[i].id@ == b[i].id@,
    ensures
        index_of_id(a, id) == index_of_id(b, id),
    decreases a.len(),
{
    if a.len() > 0 {
        assert(a[0].id@ == b[0].id@);
        assert forall|i: int| 0 <= i < a.drop_first().len() implies #[trigger] a.drop_first()[i].id@
            == b.drop_first()[i].id@ by {
            assert(a.drop_first()[i] == a[i + 1]);
            assert(b.drop_first()[i] == b[i + 1]);
        }
        lemma_index_of_id_same_ids(a.drop_first(), b.drop_first(), id);
    }
}

/// What a whole pending install leaves: the same entries with the same ids,
/// installed entries untouched, an entry changed only when its id is
/// listed and it was not installed, and then only to its installed form;
/// afterwards no listed program still needs installing; and at most one
/// install per listed id.
pub proof fn law_install_run(
    s: Seq<ProgramEntry>,
    ids: Seq<String>,
    n: nat,
    shortcut: spec_fn(nat) -> String,
)
    ensures
        install_run(s, ids, n, shortcut).0.len() == s.len(),
        forall|i: int|
            0 <= i < s.len() ==> (#[trigger] install_run(s, ids, n, shortcut).0[i]).id == s[i].id,
        forall|i: int|
            0 <= i < s.len() && s[i].installed ==> #[trigger] install_run(s, ids, n, shortcut).0[i]
                == s[i],
        forall|i: int|
            0 <= i < s.len() && #[trigger] install_run(s, ids, n, shortcut).0[i] != s[i] ==> listed(
                ids,
                s[i].id@,
            ) && !s[i].installed && install_run(s, ids, n, shortcut).0[i] == installed_form(
                s[i],
                install_run(s, ids, n, shortcut).0[i].desktop_shortcut_path->0,
            ),
        forall|t: int|
            0 <= t < ids.len() ==> !install_ready(install_run(s, ids, n, shortcut).0, #[trigger] ids[t]@),
        n <= install_run(s, ids, n, shortcut).1 <= n + ids.len(),
    decreases ids.len(),
{
    if ids.len() > 0 {
        let rest = ids.drop_first();
        let (s2, n2) = match index_of_id(s, ids[0]@) {
            Some(j) => if !s[j].installed {
                (s.update(j, installed_form(s[j], shortcut(n))), n + 1)
            } else {
                (s, n)
            },
            None => (s, n),
        };
        assert(install_run(s, ids, n, shortcut) == install_run(s2, rest, n2, shortcut));
        lemma_index_of_id(s, ids[0]@);
        law_install_run(s2, rest, n2, shortcut);
        let fin = install_run(s2, rest, n2, shortcut).0;
        // The first id needs no install in s2.
        if let Some(j) = index_of_id(s, ids[0]@) {
            if !s[j].installed {
                law_install_not_repeated(s, j, shortcut(n), ids[0]@);
            }
        }
        assert(!install_ready(s2, ids[0]@));
        assert(s2.len() == s.len());
        assert forall|i: int| 0 <= i < s2.len() implies #[trigger] s2[i].id@ == s[i].id@ by {}
        // Entries keep their ids, so readiness of the first id carries over.
        assert forall|i: int| 0 <= i < fin.len() implies #[trigger] fin[i].id@ == s2[i].id@ by {}
        lemma_index_of_id_same_ids(fin, s2, ids[0]@);
        if let Some(i) = index_of_id(s2, ids[0]@) {
            lemma_index_of_id(s2, ids[0]@);
            assert(s2[i].installed);
            assert(fin[i] == s2[i]);
        }
        assert(!install_ready(fin, ids[0]@));
        assert forall|t: int| 0 <= t < ids.len() implies !install_ready(fin, #[trigger] ids[t]@) by {
            if t > 0 {
                assert(ids[t] == rest[t - 1]);
            }
        }
        assert forall|i: int| 0 <= i < s.len() && #[trigger] fin[i] != s[i] implies listed(ids, s[i].id@)
            && !s[i].installed && fin[i] == installed_form(s[i], fin[i].desktop_shortcut_path->0) by {
            if fin[i] != s2[i] {
                let k = choose|k: int| 0 <= k < rest.len() && #[trigger] rest[k]@ == s2[i].id@;
                assert(ids[k + 1] == rest[k]);
                assert(s2[i].id@ == s[i].id@);
            } else {
                assert(s2[i] != s[i]);
                assert(ids[0]@ == s[i].id@);
            }
        }
    }
}

/// How many installs a run over `ids` makes on `s`: the ids, each counted
/// once (ids in `seen` or met before are passed over), whose program needs
/// installing in `s`.
pub open spec fn ready_count(s: Seq<ProgramEntry>, ids: Seq<String>, seen: Set<Seq<char>>) -> nat
    decreases ids.len(),
{
    if ids.len() == 0 {
        0
    } else {
        (if install_ready(s, ids[0]@) && !seen.contains(ids[0]@) {
            1nat
        } else {
            0nat
        }) + ready_count(s, ids.drop_first(), seen.insert(ids[0]@))
    }
}

/// The number of distinct listed ids whose program needs installing.
pub open spec fn installs_needed(s: Seq<ProgramEntry>, ids: Seq<String>) -> nat {
    ready_count(s, ids, Set::empty())
}

proof fn lemma_install_run_count(
    s0: Seq<ProgramEntry>,
    s: Seq<ProgramEntry>,
    ids: Seq<String>,
    seen: Set<Seq<char>>,
    n: nat,
    shortcut: spec_fn(nat) -> String,
)
    requires
        forall|x: Seq<char>| #[trigger] install_ready(s, x) == (install_ready(s0, x) && !seen.contains(x)),
    ensures
        install_run(s, ids, n, shortcut).1 == n + ready_count(s0, ids, seen),
    decreases ids.len(),
{
    if ids.len() > 0 {
        let x = ids[0]@;
        let seen2 = seen.insert(x);
        assert(install_ready(s, x) == (install_ready(s0, x) && !seen.contains(x)));
        match index_of_id(s, x) {
            Some(j) => {
                if !s[j].installed {
                    let s2 = s.update(j, installed_form(s[j], shortcut(n)));
                    law_install_not_repeated(s, j, shortcut(n), x);
                    lemma_index_of_id(s, x);
                    assert forall|y: Seq<char>| #[trigger] install_ready(s2, y) == (install_ready(
                        s0,
                        y,
                    ) && !seen2.contains(y)) by {
                        if y != x {
                            lemma_index_of_id(s, y);
                            assert(install_ready(s, y) == (install_ready(s0, y) && !seen.contains(y)));
                            if index_of_id(s, y) == Some(j) {
                                assert(s[j].id@ == y);
                            }
                        }
                    }
                    lemma_install_run_count(s0, s2, ids.drop_first(), seen2, n + 1, shortcut);
                } else {
                    assert forall|y: Seq<char>| #[trigger] install_ready(s, y) == (install_ready(
                        s0,
                        y,
                    ) && !seen2.contains(y)) by {
                        assert(install_ready(s, y) == (install_ready(s0, y) && !seen.contains(y)));
                    }
                    lemma_install_run_count(s0, s, ids.drop_first(), seen2, n, shortcut);
                }
            },
            None => {
                assert forall|y: Seq<char>| #[trigger] install_ready(s, y) == (install_ready(
                    s0,
                    y,
                ) && !seen2.contains(y)) by {
                    assert(install_ready(s, y) == (install_ready(s0, y) && !seen.contains(y)));
                }
                lemma_install_run_count(s0, s, ids.drop_first(), seen2, n, shortcut);
            },
        }
    }
}

/// A whole pending install makes exactly one install for each distinct
/// listed id whose program needed installing before the run.
pub proof fn law_install_count(
    s: Seq<ProgramEntry>,
    ids: Seq<String>,
    n: nat,
    shortcut: spec_fn(nat) -> String,
)
    ensures
        install_run(s, ids, n, shortcut).1 == n + installs_needed(s, ids),
{
    lemma_install_run_count(s, s, ids, Set::empty(), n, shortcut);
}

/// Removal by id, in the order of `ids`: for each id the first entry with
/// it is taken out (ids with no entry left are passed over). The result is
/// the remaining list and the removed entries in removal order.
pub open spec fn cleanup_spec(s: Seq<ProgramEntry>, ids: Seq<String>) -> (Seq<ProgramEntry>, Seq<
    ProgramEntry,
>)
    decreases ids.len(),
{
    if ids.len() == 0 {
        (s, seq![])
    } else {
        match index_of_id(s, ids[0]@) {
            Some(i) => {
                let rest = cleanup_spec(s.remove(i), ids.drop_first());
                (rest.0, seq![s[i]] + rest.1)
            },
            None => cleanup_spec(s, ids.drop_first()),
        }
    }
}

/// Takes the entries named by `ids` out of the list (for each id, the
/// first entry with it) and returns them in removal order.
pub fn take_for_cleanup(programs: &mut Vec<ProgramEntry>, ids: &Vec<String>) -> (removed: Vec<
    ProgramEntry,
>)
    ensures
        (final(programs)@, removed@) == cleanup_spec(old(programs)@, ids@),
{
    let ghost start = programs@;
    let mut removed: Vec<ProgramEntry> = Vec::new();
    let mut k: usize = 0;
    assert(ids@.skip(0) =~= ids@);
    assert(cleanup_spec(start, ids@).1 =~= removed@ + cleanup_spec(start, ids@).1);
    while k < ids.len()
        invariant
            k <= ids@.len(),
            cleanup_spec(programs@, ids@.skip(k as int)).0 == cleanup_spec(start, ids@).0,
            removed@ + cleanup_spec(programs@, ids@.skip(k as int)).1 == cleanup_spec(start, ids@).1,
        decreases ids@.len() - k,
    {
        let ghost rest = ids@.skip(k as int);
        assert(rest[0] == ids@[k as int]);
        assert(rest.drop_first() =~= ids@.skip(k + 1));
        proof {
            lemma_index_of_id(programs@, ids@[k as int]@);
        }
        match find_by_id(programs, ids[k].as_str()) {
            Some(i) => {
                let ghost before = programs@;
                let e = programs.remove(i);
                removed.push(e);
                assert(removed@ + cleanup_spec(programs@, ids@.skip(k + 1)).1 =~= removed@.drop_last()
                    + (seq![before[i as int]] + cleanup_spec(before.remove(i as int), ids@.skip(k + 1)).1));
            },
            None => {},
        }
        k = k + 1;
    }
    assert(ids@.skip(ids@.len() as int) =~= Seq::<String>::empty());
    assert(removed@ =~= removed@ + cleanup_spec(programs@, ids@.skip(k as int)).1);
    removed
}

/// Removal loses nothing: the entries that remain and the entries removed
/// together are exactly the entries before the call; each removed entry's id is
/// among `ids`, and no more entries are removed than ids given.
pub proof fn law_cleanup_partition(s: Seq<ProgramEntry>, ids: Seq<String>)
    ensures
        cleanup_spec(s, ids).0.to_multiset().add(cleanup_spec(s, ids).1.to_multiset())
            == s.to_multiset(),
        forall|r: int|
            0 <= r < cleanup_spec(s, ids).1.len() ==> listed(ids, #[trigger] cleanup_spec(s, ids).1[r].id@),
        cleanup_spec(s, ids).1.len() <= ids.len(),
    decreases ids.len(),
{
    broadcast use vstd::seq_lib::group_to_multiset_ensures, vstd::multiset::group_multiset_axioms;

    if ids.len() == 0 {
        assert(cleanup_spec(s, ids).1.to_multiset() =~= Multiset::<ProgramEntry>::empty());
        assert(s.to_multiset().add(Multiset::empty()) =~= s.to_multiset());
    } else {
        let tail = ids.drop_first();
        match index_of_id(s, ids[0]@) {
            Some(i) => {
                lemma_index_of_id(s, ids[0]@);
                law_cleanup_partition(s.remove(i), tail);
                let rest = cleanup_spec(s.remove(i), tail);
                vstd::seq_lib::lemma_multiset_commutative(seq![s[i]], rest.1);
                assert(seq![s[i]] =~= Seq::<ProgramEntry>::empty().push(s[i]));
                assert(seq![s[i]].to_multiset() =~= Multiset::<ProgramEntry>::empty().insert(s[i]));
                assert(s.to_multiset().remove(s[i]).insert(s[i]) =~= s.to_multiset());
                assert(rest.0.to_multiset().add((seq![s[i]] + rest.1).to_multiset())
                    =~= s.to_multiset());
                assert forall|r: int|
                    0 <= r < cleanup_spec(s, ids).1.len() implies listed(
                    ids,
                    #[trigger] cleanup_spec(s, ids).1[r].id@,
                ) by {
                    if r == 0 {
                        assert(ids[0]@ == s[i].id@);
                    } else {
                        assert(cleanup_spec(s, ids).1[r] == rest.1[r - 1]);
                        assert(listed(tail, rest.1[r - 1].id@));
                        let q = choose|q: int| 0 <= q < tail.len() && #[trigger] tail[q]@ == rest.1[r - 1].id@;
                        assert(ids[q + 1] == tail[q]);
                    }
                }
            },
            None => {
                law_cleanup_partition(s, tail);
                assert forall|r: int|
                    0 <= r < cleanup_spec(s, ids).1.len() implies listed(
                    ids,
                    #[trigger] cleanup_spec(s, ids).1[r].id@,
                ) by {
                    assert(listed(tail, cleanup_spec(s, tail).1[r].id@));
                    let q = choose|q: int| 0 <= q < tail.len() && #[trigger] tail[q]@ == cleanup_spec(s, tail).1[r].id@;
                    assert(ids[q + 1] == tail[q]);
                }
            },
        }
    }
}

} // verus!
