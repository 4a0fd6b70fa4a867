//! Names and texts of the desktop shortcuts that start a program's task.

use vstd::prelude::*;
use crate::text::{is_white_space, lemma_trim_fixed, lemma_trim_shape, trim_by, CharClass, lemma_digit_injective, lemma_digit_values, decimal, decimal_signed, push_decimal, push_decimal_i64, trim, trim_spec, digit_char};
use crate::unicode::push_char;

verus! {

/// Characters Windows does not allow in file names.
pub open spec fn forbidden_in_file_name(c: char) -> bool {
    c == '\\' || c == '/' || c == ':' || c == '*' || c == '?' || c == '"' || c == '<' || c == '>'
        || c == '|'
}

pub open spec fn file_name_char(c: char) -> char {
    if forbidden_in_file_name(c) {
        '_'
    } else {
        c
    }
}

/// A shortcut's base name: forbidden characters become `_`, white space is
/// trimmed, and `Elevated` stands in for an empty result.
pub open spec fn shortcut_base_spec(name: Seq<char>) -> Seq<char> {
    let t = trim_spec(name.map_values(|c: char| file_name_char(c)));
    if t.len() == 0 {
        "Elevated"@
    } else {
        t
    }
}

/// The base name of a shortcut file for `name`.
pub fn shortcut_base_name(name: &str) -> (base: String)
    ensures
        base@ == shortcut_base_spec(name@),
{
    let n = name.unicode_len();
    let mut mapped = String::new();
    let mut i: usize = 0;
    while i < n
        invariant
            n == name@.len(),
            i <= n,
            mapped@ == name@.take(i as int).map_values(|c: char| file_name_char(c)),
        decreases n - i,
    {
        let c = name.get_char(i);
        let d = if c == '\\' || c == '/' || c == ':' || c == '*' || c == '?' || c == '"' || c
            == '<' || c == '>' || c == '|' {
            '_'
        } else {
            c
        };
        push_char(&mut mapped, d);
        assert(name@.take(i + 1).map_values(|c: char| file_name_char(c)) =~= name@.take(
            i as int,
        ).map_values(|c: char| file_name_char(c)).push(d));
        i = i + 1;
    }
    assert(name@.take(n as int) =~= name@);
    let t = trim(mapped.as_str());
    if t.as_str().unicode_len() == 0 {
        String::from_str("Elevated")
    } else {
        t
    }
}

/// `<display name> (elevated)`: the name a program's shortcut is given.
pub fn elevated_display_name(display_name: &str) -> (r: String)
    ensures
        r@ == display_name@ + " (elevated)"@,
{
    let mut r = String::from_str(display_name);
    r.append(" (elevated)");
    r
}

/// The description stored in a program's shortcut.
pub fn shortcut_description(display_name: &str) -> (r: String)
    ensures
        r@ == "Run "@ + display_name@ + " with highest privileges via Task Scheduler"@,
{
    let mut r = String::from_str("Run ");
    r.append(display_name);
    r.append(" with highest privileges via Task Scheduler");
    r
}

/// The arguments a shortcut passes to start the task `task`:
/// `--run-task "<task>"`.
pub open spec fn run_task_arguments_spec(task: Seq<char>) -> Seq<char> {
    "--run-task \""@ + task + seq!['"']
}

/// The arguments a shortcut passes to the application: `--run-task "<task>"`.
pub fn run_task_arguments(task_name: &str) -> (r: String)
    ensures
        r@ == run_task_arguments_spec(task_name@),
{
    let mut r = String::from_str("--run-task \"");
    r.append(task_name);
    push_char(&mut r, '"');
    r
}

/// The file name tried at a given attempt: `<base>.lnk` first, then
/// `<base> (<n>).lnk` for attempt `n` from 2 on.
pub open spec fn candidate_spec(base: Seq<char>, attempt: nat) -> Seq<char> {
    if attempt <= 1 {
        base + ".lnk"@
    } else {
        base + seq![' ', '('] + decimal(attempt) + ").lnk"@
    }
}

/// The shortcut file name to try at `attempt` (1 for the first try).
pub fn shortcut_candidate(base: &str, attempt: u32) -> (r: String)
    ensures
        r@ == candidate_spec(base@, attempt as nat),
{
    let mut r = String::from_str(base);
    if attempt <= 1 {
        r.append(".lnk");
    } else {
        push_char(&mut r, ' ');
        push_char(&mut r, '(');
        push_decimal(&mut r, attempt as u64);
        r.append(").lnk");
    }
    r
}

/// The file name used when every numbered name is taken:
/// `<base>-<milliseconds since the epoch>.lnk`.
pub fn fallback_candidate(base: &str, now_unix_ms: i64) -> (r: String)
    ensures
        r@ == base@ + seq!['-'] + decimal_signed(now_unix_ms as int) + ".lnk"@,
{
    let mut r = String::from_str(base);
    push_char(&mut r, '-');
    push_decimal_i64(&mut r, now_unix_ms);
    r.append(".lnk");
    r
}

proof fn lemma_decimal_len_digits(n: nat)
    ensures
        decimal(n).len() > 0,
        forall|i: int| 0 <= i < decimal(n).len() ==> '0' <= #[trigger] decimal(n)[i] <= '9',
    decreases n,
{
    lemma_digit_values();
    if n >= 10 {
        lemma_decimal_len_digits(n / 10);
    }
}

proof fn lemma_decimal_injective(n: nat, m: nat)
    requires
        decimal(n) == decimal(m),
    ensures
        n == m,
    decreases n,
{
    if n < 10 && m < 10 {
        assert(decimal(n) == seq![digit_char(n, false)]);
        assert(decimal(m) == seq![digit_char(m, false)]);
        assert(decimal(n)[0] == digit_char(n, false));
        assert(decimal(m)[0] == digit_char(m, false));
        lemma_digit_injective(n, m, false);
    } else if n >= 10 && m >= 10 {
        let a = decimal(n / 10);
        let b = decimal(m / 10);
        assert(decimal(n) == a.push(digit_char(n % 10, false)));
        assert(decimal(m) == b.push(digit_char(m % 10, false)));
        assert(decimal(n).last() == decimal(m).last());
        assert(a.push(digit_char(n % 10, false)).last() == digit_char(n % 10, false));
        assert(b.push(digit_char(m % 10, false)).last() == digit_char(m % 10, false));
        assert(decimal(n).drop_last() =~= a);
        assert(decimal(m).drop_last() =~= b);
        lemma_decimal_injective(n / 10, m / 10);
        assert(digit_char(n % 10, false) == digit_char(m % 10, false));
        lemma_digit_injective(n % 10, m % 10, false);
    } else if n < 10 {
        lemma_decimal_len_digits(m / 10);
        assert(decimal(n).len() == 1);
    } else {
        lemma_decimal_len_digits(n / 10);
        assert(decimal(m).len() == 1);
    }
}

/// The names tried for one base are all different, so each attempt asks
/// about a new file.
pub proof fn law_candidates_distinct(base: Seq<char>, a: nat, b: nat)
    requires
        1 <= a,
        1 <= b,
        a != b,
    ensures
        candidate_spec(base, a) != candidate_spec(base, b),
{
    reveal_strlit(".lnk");
    reveal_strlit(").lnk");
    let (x, y) = if a < b {
        (a, b)
    } else {
        (b, a)
    };
    let cx = candidate_spec(base, x);
    let cy = candidate_spec(base, y);
    if x == 1 {
        assert(cx[base.len() as int] == '.');
        assert(cy[base.len() as int] == ' ');
    } else {
        if cx == cy {
            let dx = decimal(x);
            let dy = decimal(y);
            assert(cx.len() == base.len() + 2 + dx.len() + 5);
            assert(dx.len() == dy.len());
            assert forall|i: int| 0 <= i < dx.len() implies dx[i] == dy[i] by {
                assert(cx[base.len() + 2 + i] == dx[i]);
                assert(cy[base.len() + 2 + i] == dy[i]);
            }
            assert(dx =~= dy);
            lemma_decimal_injective(x, y);
        }
    }
}

/// The last numbered attempt; after it the time-stamped name is used.
pub const LAST_ATTEMPT: u32 = 999;

/// What the search for a free shortcut file name does next.
#[derive(Clone, Copy)]
pub enum NameStep {
    /// The name of the current attempt is free: use it.
    Use,
    /// Try the name of this attempt next.
    Try(u32),
    /// Every numbered name is taken: use the time-stamped name.
    UseFallback,
}

pub open spec fn name_step_spec(attempt: u32, taken: bool) -> NameStep {
    if !taken {
        NameStep::Use
    } else if attempt < LAST_ATTEMPT {
        NameStep::Try((attempt + 1) as u32)
    } else {
        NameStep::UseFallback
    }
}

/// The step after checking whether the name of `attempt` (1 for
/// `<base>.lnk`) is taken: a free name is used; a taken one leads to the
/// next attempt, up to `LAST_ATTEMPT`, and then to the time-stamped name.
pub fn name_step(attempt: u32, taken: bool) -> (r: NameStep)
    requires
        1 <= attempt <= LAST_ATTEMPT,
    ensures
        r == name_step_spec(attempt, taken),
{
    if !taken {
        NameStep::Use
    } else if attempt < LAST_ATTEMPT {
        NameStep::Try(attempt + 1)
    } else {
        NameStep::UseFallback
    }
}

/// The search for a free name ends and never asks twice about one name:
/// each step either stops or moves to a later attempt within
/// `2..=LAST_ATTEMPT`, whose name differs from every earlier one.
pub proof fn law_name_search_ends(base: Seq<char>, attempt: u32, taken: bool)
    requires
        1 <= attempt <= LAST_ATTEMPT,
    ensures
        name_step_spec(attempt, taken) matches NameStep::Try(n) ==> attempt < n <= LAST_ATTEMPT
            && forall|k: nat| 1 <= k <= attempt ==> #[trigger] candidate_spec(base, k)
            != candidate_spec(base, n as nat),
        !taken ==> name_step_spec(attempt, taken) is Use,
        taken && attempt == LAST_ATTEMPT ==> name_step_spec(attempt, taken) is UseFallback,
{
    if let NameStep::Try(n) = name_step_spec(attempt, taken) {
        assert forall|k: nat| 1 <= k <= attempt implies #[trigger] candidate_spec(base, k)
            != candidate_spec(base, n as nat) by {
            law_candidates_distinct(base, k, n as nat);
        }
    }
}

/// One of the nine characters `\ / : * ? " < > |`.
pub open spec fn one_of_nine(c: char) -> bool {
    ||| c == '\\'
    ||| c == '/'
    ||| c == ':'
    ||| c == '*'
    ||| c == '?'
    ||| c == '"'
    ||| c == '<'
    ||| c == '>'
    ||| c == '|'
}

/// Only the nine characters `\ / : * ? " < > |` are replaced, and nothing
/// else but surrounding white space is touched: a name free of them that
/// neither starts nor ends with white space is its own base name.
pub proof fn law_base_name_keeps_other_chars(name: Seq<char>)
    requires
        name.len() > 0,
        forall|i: int| 0 <= i < name.len() ==> !one_of_nine(#[trigger] name[i]),
        !is_white_space(name[0]),
        !is_white_space(name.last()),
    ensures
        shortcut_base_spec(name) == name,
{
    let m = name.map_values(|c: char| file_name_char(c));
    assert forall|i: int| 0 <= i < name.len() implies #[trigger] m[i] == name[i] by {
        assert(!one_of_nine(name[i]));
    }
    assert(m =~= name);
    lemma_trim_fixed(name, CharClass::WhiteSpace);
}

/// A base name never holds one of the nine characters, and is never empty.
pub proof fn law_base_name_is_valid(name: Seq<char>)
    ensures
        shortcut_base_spec(name).len() > 0,
        forall|i: int|
            0 <= i < shortcut_base_spec(name).len() ==> !one_of_nine(
                #[trigger] shortcut_base_spec(name)[i],
            ),
{
    reveal_strlit("Elevated");
    let m = name.map_values(|c: char| file_name_char(c));
    let t = trim_spec(m);
    lemma_trim_shape(m, CharClass::WhiteSpace);
    if t.len() > 0 {
        let (a, b) = choose|a: int, b: int|
            0 <= a <= b <= m.len() && #[trigger] m.subrange(a, b) == trim_by(m, CharClass::WhiteSpace);
        assert forall|i: int| 0 <= i < t.len() implies !one_of_nine(#[trigger] t[i]) by {
            assert(t[i] == m[a + i]);
        }
    } else {
        let e = "Elevated"@;
        assert(e.len() == 8);
        assert forall|i: int| 0 <= i < e.len() implies !one_of_nine(#[trigger] e[i]) by {
        }
    }
}

} // verus!
