//! Operations on the list of programs: lookups, reordering, the checks
//! before running one, and the bookkeeping of installs and removals.

use vstd::prelude::*;
use vstd::multiset::Multiset;
use crate::model::ProgramEntry;
use crate::text::same_text;

verus! {

/// Position of the first entry with the given id.
pub open spec fn index_of_id(s: Seq<ProgramEntry>, id: Seq<char>) -> Option<int>
    decreases s.len(),
{
    if s.len() == 0 {
        None
    } else if s[0].id@ == id {
        Some(0)
    } else {
        match index_of_id(s.drop_first(), id) {
            Some(i) => Some(i + 1),
            None => None,
        }
    }
}

/// Position of the first entry with the given task name.
pub open spec fn index_of_task(s: Seq<ProgramEntry>, task: Seq<char>) -> Option<int>
    decreases s.len(),
{
    if s.len() == 0 {
        None
    } else if s[0].task_name@ == task {
        Some(0)
    } else {
        match index_of_task(s.drop_first(), task) {
            Some(i) => Some(i + 1),
            None => None,
        }
    }
}

pub proof fn lemma_index_of_id(s: Seq<ProgramEntry>, id: Seq<char>)
    ensures
        match index_of_id(s, id) {
            Some(i) => 0 <= i < s.len() && s[i].id@ == id && forall|j: int|
                0 <= j < i ==> #[trigger] s[j].id@ != id,
            None => forall|j: int| 0 <= j < s.len() ==> #[trigger] s[j].id@ != id,
        },
    decreases s.len(),
{
    if s.len() > 0 && s[0].id@ != id {
        lemma_index_of_id(s.drop_first(), id);
        assert forall|j: int| 1 <= j < s.len() implies #[trigger] s[j] == s.drop_first()[j - 1] by {}
    }
}

pub proof fn lemma_index_of_task(s: Seq<ProgramEntry>, task: Seq<char>)
    ensures
        match index_of_task(s, task) {
            Some(i) => 0 <= i < s.len() && s[i].task_name@ == task && forall|j: int|
                0 <= j < i ==> #[trigger] s[j].task_name@ != task,
            None => forall|j: int| 0 <= j < s.len() ==> #[trigger] s[j].task_name@ != task,
        },
    decreases s.len(),
{
    if s.len() > 0 && s[0].task_name@ != task {
        lemma_index_of_task(s.drop_first(), task);
        assert forall|j: int| 1 <= j < s.len() implies #[trigger] s[j] == s.drop_first()[j - 1] by {}
    }
}

pub open spec fn opt_usize(r: Option<usize>) -> Option<int> {
    match r {
        Some(i) => Some(i as int),
        None => None,
    }
}

/// Position of the first program with the given id.
pub fn find_by_id(programs: &Vec<ProgramEntry>, id: &str) -> (r: Option<usize>)
    ensures
        opt_usize(r) == index_of_id(programs@, id@),
{
    proof {
        lemma_index_of_id(programs@, id@);
    }
    let mut i: usize = 0;
    while i < programs.len()
        invariant
            i <= programs@.len(),
            forall|j: int| 0 <= j < i ==> #[trigger] programs@[j].id@ != id@,
            match index_of_id(programs@, id@) {
                Some(k) => 0 <= k < programs@.len() && programs@[k].id@ == id@ && forall|j: int|
                    0 <= j < k ==> #[trigger] programs@[j].id@ != id@,
                None => forall|j: int| 0 <= j < programs@.len() ==> #[trigger] programs@[j].id@ != id@,
            },
        decreases programs@.len() - i,
    {
        if same_text(programs[i].id.as_str(), id) {
            return Some(i);
        }
        i = i + 1;
    }
    None
}

/// Position of the first program with the given task name.
pub fn find_by_task_name(programs: &Vec<ProgramEntry>, task: &str) -> (r: Option<usize>)
    ensures
        opt_usize(r) == index_of_task(programs@, task@),
{
    proof {
        lemma_index_of_task(programs@, task@);
    }
    let mut i: usize = 0;
    while i < programs.len()
        invariant
            i <= programs@.len(),
            forall|j: int| 0 <= j < i ==> #[trigger] programs@[j].task_name@ != task@,
            match index_of_task(programs@, task@) {
                Some(k) => 0 <= k < programs@.len() && programs@[k].task_name@ == task@ && forall|
                    j: int,
                | 0 <= j < k ==> #[trigger] programs@[j].task_name@ != task@,
                None => forall|j: int|
                    0 <= j < programs@.len() ==> #[trigger] programs@[j].task_name@ != task@,
            },
        decreases programs@.len() - i,
    {
        if same_text(programs[i].task_name.as_str(), task) {
            return Some(i);
        }
        i = i + 1;
    }
    None
}


/// The task to start for the program with the given id: its task name, or
/// `program not found` / `not installed yet`.
pub fn program_to_run(programs: &Vec<ProgramEntry>, id: &str) -> (r: Result<String, String>)
    ensures
        match index_of_id(programs@, id@) {
            None => r matches Err(e) && e@ == "program not found"@,
            Some(i) => if programs@[i].installed {
                r matches Ok(t) && t@ == programs@[i].task_name@
            } else {
                r matches Err(e) && e@ == "not installed yet"@
            },
        },
{
    proof {
        lemma_index_of_id(programs@, id@);
    }
    match find_by_id(programs, id) {
        None => Err(String::from_str("program not found")),
        Some(i) => {
            if !programs[i].installed {
                Err(String::from_str("not installed yet"))
            } else {
                Ok(programs[i].task_name.clone())
            }
        },
    }
}

pub open spec fn flag_at(flags: Seq<bool>, i: int) -> bool {
    0 <= i < flags.len() && flags[i]
}

/// Whether an entry counts as installed once its shortcut was seen: it was
/// not marked installed, has a shortcut path, and that shortcut exists.
pub open spec fn becomes_installed(e: ProgramEntry, shortcut_exists: bool) -> bool {
    !e.installed && e.desktop_shortcut_path is Some && shortcut_exists
}

pub open spec fn refreshed(e: ProgramEntry, shortcut_exists: bool) -> ProgramEntry {
    if becomes_installed(e, shortcut_exists) {
        ProgramEntry { installed: true, ..e }
    } else {
        e
    }
}

/// Marks as installed every entry whose desktop shortcut was found
/// (`shortcut_exists[i]` for entry `i`, absent flags counting as `false`);
/// returns whether any entry changed.
pub fn refresh_installed(programs: &mut Vec<ProgramEntry>, shortcut_exists: &Vec<bool>) -> (changed:
    bool)
    ensures
        final(programs)@.len() == old(programs)@.len(),
        forall|i: int|
            0 <= i < old(programs)@.len() ==> #[trigger] final(programs)@[i] == refreshed(
                old(programs)@[i],
                flag_at(shortcut_exists@, i),
            ),
        changed == exists|i: int|
            0 <= i < old(programs)@.len() && #[trigger] becomes_installed(
                old(programs)@[i],
                flag_at(shortcut_exists@, i),
            ),
{
    let ghost before = programs@;
    let mut changed = false;
    let mut i: usize = 0;
    while i < programs.len()
        invariant
            programs@.len() == before.len(),
            i <= before.len(),
            forall|j: int| 0 <= j < i ==> #[trigger] programs@[j] == refreshed(before[j], flag_at(shortcut_exists@, j)),
            forall|j: int| i <= j < before.len() ==> #[trigger] programs@[j] == before[j],
            changed == exists|j: int|
                0 <= j < i && #[trigger] becomes_installed(before[j], flag_at(shortcut_exists@, j)),
        decreases before.len() - i,
    {
        let exists_now = i < shortcut_exists.len() && shortcut_exists[i];
        assert(exists_now == flag_at(shortcut_exists@, i as int));
        if !programs[i].installed && programs[i].desktop_shortcut_path.is_some() && exists_now {
            let mut e = programs[i].duplicate();
            e.installed = true;
            programs.set(i, e);
            changed = true;
        }
        i = i + 1;
    }
    changed
}

/// Records the desktop shortcut made for entry `j`.
pub fn record_shortcut(programs: &mut Vec<ProgramEntry>, j: usize, shortcut: String)
    requires
        j < old(programs)@.len(),
    ensures
        final(programs)@ == old(programs)@.update(
            j as int,
            ProgramEntry { desktop_shortcut_path: Some(shortcut), ..old(programs)@[j as int] },
        ),
{
    let mut e = programs[j].duplicate();
    e.desktop_shortcut_path = Some(shortcut);
    programs.set(j, e);
}

/// Whether one of `ids` equals `id`.
pub open spec fn listed(ids: Seq<String>, id: Seq<char>) -> bool {
    exists|k: int| 0 <= k < ids.len() && #[trigger] ids[k]@ == id
}

pub fn is_listed(ids: &Vec<String>, id: &str) -> (r: bool)
    ensures
        r == listed(ids@, id@),
{
    let mut k: usize = 0;
    while k < ids.len()
        invariant
            k <= ids@.len(),
            forall|j: int| 0 <= j < k ==> #[trigger] ids@[j]@ != id@,
        decreases ids@.len() - k,
    {
        if same_text(ids[k].as_str(), id) {
            return true;
        }
        k = k + 1;
    }
    false
}

/// Number of installed entries whose id is among `ids`.
pub open spec fn count_installed_listed(s: Seq<ProgramEntry>, ids: Seq<String>) -> nat
    decreases s.len(),
{
    if s.len() == 0 {
        0
    } else {
        count_installed_listed(s.drop_last(), ids) + if s.last().installed && listed(
            ids,
            s.last().id@,
        ) {
            1nat
        } else {
            0nat
        }
    }
}

/// How many of the programs named by `ids` are installed.
pub fn count_installed_among(programs: &Vec<ProgramEntry>, ids: &Vec<String>) -> (n: usize)
    ensures
        n == count_installed_listed(programs@, ids@),
{
    let mut n: usize = 0;
    let mut i: usize = 0;
    while i < programs.len()
        invariant
            i <= programs@.len(),
            n == count_installed_listed(programs@.take(i as int), ids@),
            n <= i,
        decreases programs@.len() - i,
    {
        assert(programs@.take(i + 1).drop_last() =~= programs@.take(i as int));
        if programs[i].installed && is_listed(ids, programs[i].id.as_str()) {
            n = n + 1;
        }
        i = i + 1;
    }
    assert(programs@.take(programs@.len() as int) =~= programs@);
    n
}

/// The entries whose id differs from `id`, in order.
pub open spec fn without_id(s: Seq<ProgramEntry>, id: Seq<char>) -> Seq<ProgramEntry>
    decreases s.len(),
{
    if s.len() == 0 {
        seq![]
    } else if s.last().id@ == id {
        without_id(s.drop_last(), id)
    } else {
        without_id(s.drop_last(), id).push(s.last())
    }
}

/// Drops every entry with the given id, keeping the others in order.
pub fn remove_all_with_id(programs: &mut Vec<ProgramEntry>, id: &str)
    ensures
        final(programs)@ == without_id(old(programs)@, id@),
{
    let ghost before = programs@;
    let mut kept: Vec<ProgramEntry> = Vec::new();
    let mut i: usize = 0;
    while i < programs.len()
        invariant
            programs@ == before,
            i <= before.len(),
            kept@ == without_id(before.take(i as int), id@),
        decreases before.len() - i,
    {
        assert(before.take(i + 1).drop_last() =~= before.take(i as int));
        if !same_text(programs[i].id.as_str(), id) {
            kept.push(programs[i].duplicate());
        }
        i = i + 1;
    }
    assert(before.take(before.len() as int) =~= before);
    *programs = kept;
}


/// Takes out of `pool`, for each id in turn, the first entry left with that
/// id (ids with no entry left are passed over), then appends what remains
/// in its stored order.
pub open spec fn pick_in_order(pool: Seq<ProgramEntry>, ids: Seq<String>) -> Seq<ProgramEntry>
    decreases ids.len(),
{
    if ids.len() == 0 {
        pool
    } else {
        match index_of_id(pool, ids[0]@) {
            Some(i) => seq![pool[i]] + pick_in_order(pool.remove(i), ids.drop_first()),
            None => pick_in_order(pool, ids.drop_first()),
        }
    }
}

/// The list after reordering by `ids`.
pub open spec fn reorder_spec(programs: Seq<ProgramEntry>, ids: Seq<String>) -> Seq<ProgramEntry> {
    pick_in_order(programs, ids)
}

/// Puts the programs in the order of `ids`; each id moves the first entry
/// with that id not yet moved, and entries no id moved follow in their
/// stored order. Every stored entry is kept.
pub fn reorder(programs: &Vec<ProgramEntry>, ids: &Vec<String>) -> (out: Vec<ProgramEntry>)
    ensures
        out@ == reorder_spec(programs@, ids@),
{
    let mut pool: Vec<ProgramEntry> = Vec::new();
    let mut i: usize = 0;
    while i < programs.len()
        invariant
            i <= programs@.len(),
            pool@ == programs@.take(i as int),
        decreases programs@.len() - i,
    {
        pool.push(programs[i].duplicate());
        assert(pool@ =~= programs@.take(i + 1));
        i = i + 1;
    }
    assert(pool@ =~= programs@);
    let mut out: Vec<ProgramEntry> = Vec::new();
    let mut k: usize = 0;
    assert(ids@.skip(0) =~= ids@);
    while k < ids.len()
        invariant
            k <= ids@.len(),
            out@ + pick_in_order(pool@, ids@.skip(k as int)) == reorder_spec(programs@, ids@),
        decreases ids@.len() - k,
    {
        let ghost rest = ids@.skip(k as int);
        assert(rest[0] == ids@[k as int]);
        assert(rest.drop_first() =~= ids@.skip(k + 1));
        proof {
            lemma_index_of_id(pool@, ids@[k as int]@);
        }
        match find_by_id(&pool, ids[k].as_str()) {
            Some(j) => {
                let ghost before = pool@;
                let e = pool.remove(j);
                out.push(e);
                assert(out@ + pick_in_order(pool@, ids@.skip(k + 1)) =~= out@.drop_last() + (
                seq![before[j as int]] + pick_in_order(before.remove(j as int), ids@.skip(k + 1))));
            },
            None => {},
        }
        k = k + 1;
    }
    assert(ids@.skip(ids@.len() as int) =~= Seq::<String>::empty());
    out.append(&mut pool);
    out
}

proof fn lemma_pick_in_order_multiset(pool: Seq<ProgramEntry>, ids: Seq<String>)
    ensures
        pick_in_order(pool, ids).to_multiset() == pool.to_multiset(),
    decreases ids.len(),
{
    broadcast use vstd::seq_lib::group_to_multiset_ensures, vstd::multiset::group_multiset_axioms;

    if ids.len() > 0 {
        match index_of_id(pool, ids[0]@) {
            Some(i) => {
                lemma_index_of_id(pool, ids[0]@);
                let rest = pick_in_order(pool.remove(i), ids.drop_first());
                lemma_pick_in_order_multiset(pool.remove(i), ids.drop_first());
                vstd::seq_lib::lemma_multiset_commutative(seq![pool[i]], rest);
                assert(seq![pool[i]].to_multiset() =~= Multiset::<ProgramEntry>::empty().insert(
                    pool[i],
                )) by {
                    assert(seq![pool[i]] =~= Seq::<ProgramEntry>::empty().push(pool[i]));
                }
                assert(pool.to_multiset().remove(pool[i]).insert(pool[i]) =~= pool.to_multiset());
                assert((seq![pool[i]] + rest).to_multiset() =~= pool.to_multiset());
            },
            None => {
                lemma_pick_in_order_multiset(pool, ids.drop_first());
            },
        }
    }
}

/// Reordering loses and duplicates nothing: the reordered list holds
/// exactly the entries it was given, also when several share an id.
pub proof fn law_reorder_is_permutation(programs: Seq<ProgramEntry>, ids: Seq<String>)
    ensures
        reorder_spec(programs, ids).to_multiset() == programs.to_multiset(),
        reorder_spec(programs, ids).len() == programs.len(),
{
    broadcast use vstd::seq_lib::group_to_multiset_ensures;

    lemma_pick_in_order_multiset(programs, ids);
    assert(reorder_spec(programs, ids).to_multiset().len() == programs.to_multiset().len());
}

/// Whether some entry of `s` has the id `id`.
pub open spec fn has_entry_with_id(s: Seq<ProgramEntry>, id: Seq<char>) -> bool {
    exists|i: int| 0 <= i < s.len() && #[trigger] s[i].id@ == id
}

/// Reordering honours every id: when the ids are distinct and each names a
/// stored entry, the reordered list has `ids[k]` as the id of its `k`-th
/// entry for every `k`, and keeps the length of the stored list. In
/// particular, when `ids` lists every stored id once, the list comes back
/// in exactly the order of `ids`.
pub proof fn law_reorder_follows_ids(programs: Seq<ProgramEntry>, ids: Seq<String>)
    requires
        forall|a: int, b: int| 0 <= a < b < ids.len() ==> #[trigger] ids[a]@ != #[trigger] ids[b]@,
        forall|k: int| 0 <= k < ids.len() ==> has_entry_with_id(programs, #[trigger] ids[k]@),
    ensures
        reorder_spec(programs, ids).len() == programs.len(),
        ids.len() <= programs.len(),
        forall|k: int|
            0 <= k < ids.len() ==> (#[trigger] reorder_spec(programs, ids)[k]).id@ == ids[k]@,
    decreases ids.len(),
{
    law_reorder_is_permutation(programs, ids);
    if ids.len() > 0 {
        let rest = ids.drop_first();
        let x = ids[0]@;
        assert(has_entry_with_id(programs, ids[0]@));
        lemma_index_of_id(programs, x);
        if index_of_id(programs, x) is None {
            let w = choose|i: int| 0 <= i < programs.len() && #[trigger] programs[i].id@ == x;
            assert(programs[w].id@ == x);
        }
        let i = index_of_id(programs, x)->0;
        let pool = programs.remove(i);
        assert forall|a: int, b: int| 0 <= a < b < rest.len() implies #[trigger] rest[a]@
            != #[trigger] rest[b]@ by {
            assert(rest[a] == ids[a + 1]);
            assert(rest[b] == ids[b + 1]);
        }
        assert forall|k: int| 0 <= k < rest.len() implies has_entry_with_id(pool, #[trigger] rest[k]@) by {
            assert(rest[k] == ids[k + 1]);
            assert(has_entry_with_id(programs, ids[k + 1]@));
            let w = choose|w: int| 0 <= w < programs.len() && #[trigger] programs[w].id@ == ids[k + 1]@;
            assert(ids[0]@ != ids[k + 1]@);
            assert(w != i);
            if w < i {
                assert(pool[w] == programs[w]);
            } else {
                assert(pool[w - 1] == programs[w]);
            }
        }
        law_reorder_follows_ids(pool, rest);
        let out = reorder_spec(programs, ids);
        assert(out == seq![programs[i]] + reorder_spec(pool, rest));
        assert forall|k: int| 0 <= k < ids.len() implies (#[trigger] out[k]).id@ == ids[k]@ by {
            if k > 0 {
                assert(out[k] == reorder_spec(pool, rest)[k - 1]);
                assert(rest[k - 1] == ids[k]);
            }
        }
    }
}

/// Removing a draft keeps the other entries in their stored order: the
/// list afterwards is the list before, filtered to the entries whose id
/// differs from the removed one.
pub proof fn law_remove_keeps_order(s: Seq<ProgramEntry>, id: Seq<char>)
    ensures
        without_id(s, id) == s.filter(|e: ProgramEntry| e.id@ != id),
    decreases s.len(),
{
    reveal(Seq::filter);
    if s.len() > 0 {
        law_remove_keeps_order(s.drop_last(), id);
    }
}

/// Ids that name no stored entry change nothing: the list comes back as
/// it was stored, in the same order.
pub proof fn law_reorder_unknown_ids(programs: Seq<ProgramEntry>, ids: Seq<String>)
    requires
        forall|k: int| 0 <= k < ids.len() ==> !has_entry_with_id(programs, #[trigger] ids[k]@),
    ensures
        reorder_spec(programs, ids) == programs,
    decreases ids.len(),
{
    if ids.len() > 0 {
        lemma_index_of_id(programs, ids[0]@);
        assert(!has_entry_with_id(programs, ids[0]@));
        if let Some(i) = index_of_id(programs, ids[0]@) {
            assert(programs[i].id@ == ids[0]@);
        }
        let rest = ids.drop_first();
        assert forall|k: int| 0 <= k < rest.len() implies !has_entry_with_id(programs, #[trigger] rest[k]@) by {
            assert(rest[k] == ids[k + 1]);
        }
        law_reorder_unknown_ids(programs, rest);
    }
}

} // verus!
