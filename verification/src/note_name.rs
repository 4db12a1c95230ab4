//! The file name given to a new note: the title with the `md` extension,
//! or, when that name is taken, the title followed by the first free
//! number in brackets.
use crate::time_label::{decimal, digit_char, push_decimal};
use vstd::prelude::*;
use vstd::string::*;

verus! {

/// The position of the last `.` in `s`, or -1 when there is none.
pub open spec fn last_dot(s: Seq<char>) -> int
    decreases s.len(),
{
    if s.len() == 0 {
        -1
    } else if s.last() == '.' {
        s.len() - 1
    } else {
        last_dot(s.drop_last())
    }
}

/// The file name `name` with its extension set to `md`, as a path's
/// `set_extension("md")` does: an extension after the last dot is
/// replaced; a name without one (no dot, or only a leading dot) gets
/// `.md` added.
pub open spec fn with_md_extension(name: Seq<char>) -> Seq<char> {
    let d = last_dot(name);
    if d <= 0 {
        name + seq!['.', 'm', 'd']
    } else {
        name.take(d) + seq!['.', 'm', 'd']
    }
}

/// Whether `title` names a file of its own in a directory: not empty, no
/// path separator, and neither `.` nor `..`.
pub open spec fn is_plain_file_name(title: Seq<char>) -> bool {
    &&& title.len() > 0
    &&& !title.contains('/')
    &&& title != seq!['.']
    &&& title != seq!['.', '.']
}

/// The `k`-th name tried for a new note titled `title`: the title with the
/// `md` extension first, then `title (k)`.
pub open spec fn candidate_name(title: Seq<char>, k: nat) -> Seq<char> {
    if k == 0 {
        with_md_extension(title)
    } else {
        title + seq![' ', '('] + decimal(k) + seq![')']
    }
}

/// The digit characters of different digits differ.
proof fn lemma_digit_char_injective(a: nat, b: nat)
    requires
        a < 10,
        b < 10,
        digit_char(a) == digit_char(b),
    ensures
        a == b,
{
}

/// A number's decimal text is never empty, and has two digits or more
/// from ten on.
proof fn lemma_decimal_len(n: nat)
    ensures
        decimal(n).len() >= 1,
        n >= 10 ==> decimal(n).len() >= 2,
    decreases n,
{
    if n >= 10 {
        lemma_decimal_len(n / 10);
    }
}

/// Different numbers have different decimal texts.
proof fn lemma_decimal_injective(a: nat, b: nat)
    requires
        decimal(a) == decimal(b),
    ensures
        a == b,
    decreases a,
{
    lemma_decimal_len(a);
    lemma_decimal_len(b);
    if a < 10 && b < 10 {
        assert(decimal(a)[0] == digit_char(a));
        assert(decimal(b)[0] == digit_char(b));
        lemma_digit_char_injective(a, b);
    } else if a >= 10 && b >= 10 {
        lemma_decimal_len(a / 10);
        lemma_decimal_len(b / 10);
        assert(decimal(a).last() == digit_char(a % 10));
        assert(decimal(b).last() == digit_char(b % 10));
        lemma_digit_char_injective(a % 10, b % 10);
        assert(decimal(a).drop_last() =~= decimal(a / 10));
        assert(decimal(b).drop_last() =~= decimal(b / 10));
        lemma_decimal_injective(a / 10, b / 10);
    } else if a < 10 {
        lemma_decimal_len(b / 10);
        assert(decimal(a).len() == 1);
    } else {
        lemma_decimal_len(a / 10);
        assert(decimal(b).len() == 1);
    }
}

/// The last dot lies within the text.
proof fn lemma_last_dot_bounds(s: Seq<char>)
    ensures
        -1 <= last_dot(s) < s.len(),
        last_dot(s) >= 0 ==> s[last_dot(s)] == '.',
        forall|i: int| last_dot(s) < i < s.len() ==> s[i] != '.',
    decreases s.len(),
{
    if s.len() > 0 && s.last() != '.' {
        lemma_last_dot_bounds(s.drop_last());
        assert forall|i: int| last_dot(s) < i < s.len() implies s[i] != '.' by {
            if i < s.len() - 1 {
                assert(s.drop_last()[i] == s[i]);
            }
        }
    }
}

/// Different numbers give different names.
proof fn lemma_candidate_injective(title: Seq<char>, j: nat, k: nat)
    requires
        candidate_name(title, j) == candidate_name(title, k),
    ensures
        j == k,
{
    lemma_decimal_len(j);
    lemma_decimal_len(k);
    if j > 0 && k > 0 {
        let nj = candidate_name(title, j);
        let nk = candidate_name(title, k);
        let start = title.len() + 2;
        assert(nj.len() == nk.len());
        assert(nj.subrange(start as int, nj.len() - 1) =~= decimal(j));
        assert(nk.subrange(start as int, nk.len() - 1) =~= decimal(k));
        lemma_decimal_injective(j, k);
    } else if j > 0 || k > 0 {
        let n = if j > 0 { j } else { k };
        lemma_last_dot_bounds(title);
        assert(candidate_name(title, 0).len() <= title.len() + 3);
        assert(candidate_name(title, n).len() == title.len() + 3 + decimal(n).len());
        assert(candidate_name(title, j).len() != candidate_name(title, k).len());
    }
}

/// When the first `k` names tried are all taken, at least `k` names are
/// taken.
proof fn lemma_taken_names_fit(title: Seq<char>, taken: Seq<Seq<char>>, k: nat)
    requires
        forall|j: nat| j < k ==> taken.contains(#[trigger] candidate_name(title, j)),
    ensures
        k <= taken.len(),
{
    broadcast use vstd::seq_lib::seq_to_set_is_finite;

    let tried = Seq::new(k, |j: int| candidate_name(title, j as nat));
    assert forall|a: int, b: int| 0 <= a < tried.len() && 0 <= b < tried.len() && a != b implies tried[a]
        != tried[b] by {
        if tried[a] == tried[b] {
            lemma_candidate_injective(title, a as nat, b as nat);
        }
    }
    tried.unique_seq_to_set();
    taken.lemma_cardinality_of_set();
    assert forall|x: Seq<char>| tried.to_set().contains(x) implies taken.to_set().contains(x) by {
        let a = choose|a: int| 0 <= a < tried.len() && tried[a] == x;
        assert(tried[a] == candidate_name(title, a as nat));
        assert(taken.contains(candidate_name(title, a as nat)));
    }
    vstd::set_lib::lemma_len_subset(tried.to_set(), taken.to_set());
}

/// Whether `name` is one of `names`.
fn is_taken(names: &Vec<String>, name: &String) -> (taken: bool)
    ensures
        taken == names@.map_values(|s: String| s@).contains(name@),
{
    let ghost views = names@.map_values(|s: String| s@);
    let mut i: usize = 0;
    while i < names.len()
        invariant
            i <= names@.len(),
            views == names@.map_values(|s: String| s@),
            forall|j: int| 0 <= j < i ==> views[j] != name@,
        decreases names@.len() - i,
    {
        assert(views[i as int] == names@[i as int]@);
        if names[i] == *name {
            return true;
        }
        i = i + 1;
    }
    false
}

/// The position of the last `.` in `s`, if there is one.
fn find_last_dot(s: &str) -> (dot: Option<usize>)
    ensures
        dot is None <==> last_dot(s@) < 0,
        dot matches Some(d) ==> d == last_dot(s@),
{
    proof {
        lemma_last_dot_bounds(s@);
    }
    let n = s.unicode_len();
    let mut i = n;
    while i > 0
        invariant
            i <= n,
            n == s@.len(),
            forall|j: int| i <= j < n ==> s@[j] != '.',
            -1 <= last_dot(s@) < n,
            last_dot(s@) >= 0 ==> s@[last_dot(s@)] == '.',
        decreases i,
    {
        if s.get_char(i - 1) == '.' {
            proof {
                assert(last_dot(s@) >= i - 1) by {
                    lemma_last_dot_at_least(s@, i - 1);
                }
            }
            return Some(i - 1);
        }
        i = i - 1;
    }
    proof {
        if last_dot(s@) >= 0 {
            assert(s@[last_dot(s@)] == '.');
        }
    }
    None
}

/// A dot at `i` means the last dot is at `i` or later.
proof fn lemma_last_dot_at_least(s: Seq<char>, i: int)
    requires
        0 <= i < s.len(),
        s[i] == '.',
    ensures
        last_dot(s) >= i,
    decreases s.len(),
{
    if s.last() != '.' {
        assert(s.drop_last()[i] == s[i]);
        lemma_last_dot_at_least(s.drop_last(), i);
    }
}

/// The file name `name` with its extension set to `md`.
fn md_file_name(name: &str) -> (file: String)
    ensures
        file@ == with_md_extension(name@),
{
    proof {
        lemma_last_dot_bounds(name@);
        reveal_strlit(".md");
    }
    let mut file = match find_last_dot(name) {
        Some(d) if d > 0 => name.substring_char(0, d).to_owned(),
        _ => name.to_owned(),
    };
    file.append(".md");
    proof {
        assert(file@ =~= with_md_extension(name@));
    }
    file
}

/// The name tried for a new note titled `title` in round `k`.
fn make_candidate(title: &str, k: u64) -> (name: String)
    ensures
        name@ == candidate_name(title@, k as nat),
{
    if k == 0 {
        return md_file_name(title);
    }
    let mut name = title.to_owned();
    name.append(" (");
    push_decimal(&mut name, k);
    name.append(")");
    proof {
        reveal_strlit(" (");
        reveal_strlit(")");
        assert(name@ =~= candidate_name(title@, k as nat));
    }
    name
}

/// The file name for a new note titled `title` in a directory whose file
/// names are `existing`: the first of `title` with the `md` extension
/// (replacing an extension the title has), `title (1)`, `title (2)`, …
/// that is not taken. The title must name a file of its own in the
/// directory.
pub fn free_note_name(title: &str, existing: &Vec<String>) -> (name: String)
    requires
        is_plain_file_name(title@),
        existing@.len() < u64::MAX,
    ensures
        !existing@.map_values(|s: String| s@).contains(name@),
        exists|k: nat|
            name@ == candidate_name(title@, k) && forall|j: nat|
                j < k ==> existing@.map_values(|s: String| s@).contains(
                    #[trigger] candidate_name(title@, j),
                ),
{
    let ghost taken = existing@.map_values(|s: String| s@);
    let mut k: u64 = 0;
    loop
        invariant
            taken == existing@.map_values(|s: String| s@),
            existing@.len() < u64::MAX,
            k <= existing@.len(),
            forall|j: nat| j < k ==> taken.contains(#[trigger] candidate_name(title@, j)),
        decreases existing@.len() - k,
    {
        let name = make_candidate(title, k);
        if !is_taken(existing, &name) {
            assert(name@ == candidate_name(title@, k as nat));
            return name;
        }
        proof {
            assert forall|j: nat| j < k + 1 implies taken.contains(
                #[trigger] candidate_name(title@, j),
            ) by {
                if j == k as nat {
                    assert(taken.contains(name@));
                }
            }
            lemma_taken_names_fit(title@, taken, (k + 1) as nat);
        }
        k = k + 1;
    }
}

} // verus!
