use vstd::prelude::*;

use crate::text::views;

verus! {

/// `c` is an ASCII decimal digit.
pub open spec fn is_digit(c: char) -> bool {
    '0' <= c <= '9'
}

/// The number of ASCII digits in `s` from index `i` on, up to the first other character.
pub open spec fn digit_run(s: Seq<char>, i: int) -> nat
    decreases s.len() - i,
{
    if 0 <= i < s.len() && is_digit(s[i]) {
        1 + digit_run(s, i + 1)
    } else {
        0
    }
}

/// The length of the time marker `[<digits>:<digits>.<digits>]` that starts at
/// index `i` of `s`, or 0 when none starts there.
pub open spec fn marker_len(s: Seq<char>, i: int) -> nat {
    let a = digit_run(s, i + 1);
    let b = digit_run(s, i + 2 + a);
    let c = digit_run(s, i + 3 + a + b);
    if 0 <= i && i + 3 + a + b + c < s.len() && s[i] == '[' && a > 0 && s[i + 1 + a] == ':'
        && b > 0 && s[i + 2 + a + b] == '.' && c > 0 && s[i + 3 + a + b + c] == ']' {
        4 + a + b + c
    } else {
        0
    }
}

/// The markers of `s` from index `i` on: each leftmost one, then the search goes on
/// after its end.
pub open spec fn markers_from(s: Seq<char>, i: int) -> Seq<Seq<char>>
    decreases s.len() - i,
{
    if i < 0 || i >= s.len() {
        seq![]
    } else if marker_len(s, i) > 0 {
        seq![s.subrange(i, i + marker_len(s, i))] + markers_from(s, i + marker_len(s, i))
    } else {
        markers_from(s, i + 1)
    }
}

/// Every time marker of `s`, in order of occurrence, without overlap, repeats kept.
pub open spec fn markers(s: Seq<char>) -> Seq<Seq<char>> {
    markers_from(s, 0)
}

pub(crate) proof fn lemma_digit_run_bound(s: Seq<char>, i: int)
    requires
        0 <= i,
    ensures
        i + digit_run(s, i) <= s.len() || digit_run(s, i) == 0,
        forall|k: int| i <= k < i + digit_run(s, i) ==> is_digit(#[trigger] s[k]),
        i + digit_run(s, i) < s.len() ==> !is_digit(s[i + digit_run(s, i)]),
    decreases s.len() - i,
{
    if 0 <= i < s.len() && is_digit(s[i]) {
        lemma_digit_run_bound(s, i + 1);
    }
}

/// The number of digits of `s` from index `i` on.
pub(crate) fn digit_run_exec(s: &Vec<char>, i: usize) -> (r: usize)
    requires
        i <= s.len(),
    ensures
        r == digit_run(s@, i as int),
        i + r <= s.len(),
{
    let mut k: usize = i;
    while k < s.len() && '0' <= s[k] && s[k] <= '9'
        invariant
            i <= k <= s.len(),
            digit_run(s@, i as int) == (k - i) + digit_run(s@, k as int),
        decreases s.len() - k,
    {
        k += 1;
    }
    k - i
}

/// The length of the marker that starts at index `i` of `s`, or 0.
fn marker_len_exec(s: &Vec<char>, i: usize) -> (r: usize)
    requires
        i < s.len(),
    ensures
        r == marker_len(s@, i as int),
        i + r <= s.len(),
{
    if s[i] != '[' {
        return 0;
    }
    let a = digit_run_exec(s, i + 1);
    if a == 0 || i + 1 + a >= s.len() || s[i + 1 + a] != ':' {
        return 0;
    }
    let b = digit_run_exec(s, i + 2 + a);
    if b == 0 || i + 2 + a + b >= s.len() || s[i + 2 + a + b] != '.' {
        return 0;
    }
    let c = digit_run_exec(s, i + 3 + a + b);
    if c == 0 || i + 3 + a + b + c >= s.len() || s[i + 3 + a + b + c] != ']' {
        return 0;
    }
    4 + a + b + c
}

/// Every time marker of `s`, in order of occurrence.
pub fn collect_time_stamp(s: &Vec<char>) -> (r: Vec<Vec<char>>)
    ensures
        views(r@) == markers(s@),
{
    let mut r: Vec<Vec<char>> = Vec::new();
    let mut i: usize = 0;
    while i < s.len()
        invariant
            i <= s.len(),
            views(r@) + markers_from(s@, i as int) == markers(s@),
        decreases s.len() - i,
    {
        let n = marker_len_exec(s, i);
        if n > 0 {
            let mut m: Vec<char> = Vec::new();
            let mut k: usize = i;
            while k < i + n
                invariant
                    i <= k <= i + n <= s.len(),
                    m@ == s@.subrange(i as int, k as int),
                decreases i + n - k,
            {
                m.push(s[k]);
                k += 1;
                assert(m@ =~= s@.subrange(i as int, k as int));
            }
            let ghost before = views(r@);
            r.push(m);
            assert(views(r@) =~= before.push(s@.subrange(i as int, i + n)));
            assert(views(r@) + markers_from(s@, i + n) =~= before + markers_from(s@, i as int));
            i += n;
        } else {
            i += 1;
        }
    }
    assert(views(r@) + markers_from(s@, i as int) =~= views(r@));
    r
}


proof fn lemma_digit_run_sub(s: Seq<char>, i: int, e: int, k: int)
    requires
        0 <= i <= e <= s.len(),
        0 <= k,
        i + k + digit_run(s, i + k) < e,
    ensures
        digit_run(s.subrange(i, e), k) == digit_run(s, i + k),
    decreases digit_run(s, i + k),
{
    let t = s.subrange(i, e);
    if i + k < s.len() && is_digit(s[i + k]) {
        lemma_digit_run_sub(s, i, e, k + 1);
    }
}

/// Each marker found in `s` is a whole marker on its own.
pub proof fn lemma_markers_whole(s: Seq<char>, i: int, n: int)
    requires
        0 <= n < markers_from(s, i).len(),
    ensures
        marker_len(markers_from(s, i)[n], 0) == markers_from(s, i)[n].len(),
        markers_from(s, i)[n].len() > 0,
    decreases s.len() - i,
{
    if 0 <= i < s.len() {
        let ml = marker_len(s, i);
        if ml > 0 {
            if n == 0 {
                let e = i + ml;
                let a = digit_run(s, i + 1) as int;
                let b = digit_run(s, i + 2 + a) as int;
                lemma_digit_run_sub(s, i, e, 1);
                lemma_digit_run_sub(s, i, e, 2 + a);
                lemma_digit_run_sub(s, i, e, 3 + a + b);
            } else {
                lemma_markers_whole(s, i + ml, n - 1);
            }
        } else {
            lemma_markers_whole(s, i + 1, n);
        }
    }
}

} // verus!
