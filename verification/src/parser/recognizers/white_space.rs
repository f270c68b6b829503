//! Whitespace-run recognizers: each greedily consumes a maximal run of one
//! whitespace kind (ASCII space, full-width space, or tab) and reports the
//! run's character count. Runs of mixed kinds are split into separate
//! phrases by the tokenizer.

use vstd::prelude::*;

verus! {

/// Length of the maximal run of the character `c` starting at `pos`.
pub open spec fn run_len(s: Seq<char>, pos: int, c: char) -> int
    decreases s.len() - pos,
{
    if 0 <= pos < s.len() && s[pos] == c {
        1 + run_len(s, pos + 1, c)
    } else {
        0
    }
}

pub proof fn lemma_run_len_bounds(s: Seq<char>, pos: int, c: char)
    requires
        0 <= pos <= s.len(),
    ensures
        0 <= run_len(s, pos, c) <= s.len() - pos,
    decreases s.len() - pos,
{
    if pos < s.len() && s[pos] == c {
        lemma_run_len_bounds(s, pos + 1, c);
    }
}

/// Length of the maximal run of the character `c` at `pos`, computed by a
/// single forward scan.
fn run_of(text: &str, pos: usize, c: char) -> (r: usize)
    requires
        pos <= text@.len(),
    ensures
        r == run_len(text@, pos as int, c),
        pos + r <= text@.len(),
{
    let n = text.unicode_len();
    let mut i: usize = pos;
    while i < n && text.get_char(i) == c
        invariant
            pos <= i <= n,
            n == text@.len(),
            run_len(text@, pos as int, c) == i - pos + run_len(text@, i as int, c),
        decreases n - i,
    {
        i = i + 1;
    }
    proof {
        lemma_run_len_bounds(text@, i as int, c);
    }
    i - pos
}

/// The maximal ASCII-space run at `pos`: its character count when nonempty.
pub open spec fn spec_space(s: Seq<char>, pos: int) -> Option<int> {
    let n = run_len(s, pos, ' ');
    if n > 0 {
        Some(n)
    } else {
        None
    }
}

pub fn space(text: &str, pos: usize) -> (r: Option<usize>)
    requires
        pos <= text@.len(),
    ensures
        match r {
            Some(n) => spec_space(text@, pos as int) == Some(n as int) && 0 < n && pos + n
                <= text@.len(),
            None => spec_space(text@, pos as int) is None,
        },
{
    let n = run_of(text, pos, ' ');
    if n > 0 {
        Some(n)
    } else {
        None
    }
}

/// The maximal full-width-space run at `pos`.
pub open spec fn spec_zenkaku_space(s: Seq<char>, pos: int) -> Option<int> {
    let n = run_len(s, pos, '\u{3000}');
    if n > 0 {
        Some(n)
    } else {
        None
    }
}

pub fn zenkaku_space(text: &str, pos: usize) -> (r: Option<usize>)
    requires
        pos <= text@.len(),
    ensures
        match r {
            Some(n) => spec_zenkaku_space(text@, pos as int) == Some(n as int) && 0 < n && pos + n
                <= text@.len(),
            None => spec_zenkaku_space(text@, pos as int) is None,
        },
{
    let n = run_of(text, pos, '\u{3000}');
    if n > 0 {
        Some(n)
    } else {
        None
    }
}

/// The maximal tab run at `pos`.
pub open spec fn spec_tab(s: Seq<char>, pos: int) -> Option<int> {
    let n = run_len(s, pos, '\t');
    if n > 0 {
        Some(n)
    } else {
        None
    }
}

pub fn tab(text: &str, pos: usize) -> (r: Option<usize>)
    requires
        pos <= text@.len(),
    ensures
        match r {
            Some(n) => spec_tab(text@, pos as int) == Some(n as int) && 0 < n && pos + n
                <= text@.len(),
            None => spec_tab(text@, pos as int) is None,
        },
{
    let n = run_of(text, pos, '\t');
    if n > 0 {
        Some(n)
    } else {
        None
    }
}

} // verus!
