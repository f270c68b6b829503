//! Ruby-annotation recognizers.
//!
//! Two grammar forms are recognized:
//!
//! - **Instruction ruby**: a marker (`|` or full-width) followed by a
//!   non-empty target run (anything up to a ruby-open delimiter or a line
//!   break) followed by a bracketed ruby span. The ruby span may be empty.
//! - **Bare kanji ruby**: one or more ideographic characters (each
//!   optionally followed by variation selectors) directly followed by a
//!   bracketed, non-empty ruby span.
//!
//! A line break inside any run aborts the match, so neither form ever spans
//! multiple lines.

use vstd::prelude::*;

use crate::parser::recognizers::chars::{is_end_ruby, is_ideographic_variation_sequence, is_kanji,
    is_new_line_escape, is_start_instruction, is_start_ruby, spec_is_end_ruby,
    spec_is_ideographic_variation_sequence, spec_is_kanji, spec_is_new_line_escape,
    spec_is_start_instruction, spec_is_start_ruby};
use crate::phrase::{RubyModel, RubyPhrase, RubyType};

verus! {

/// Length of the run at `pos` of characters that may form an instruction
/// target: everything up to a ruby-open delimiter or a line break.
pub open spec fn target_run_len(s: Seq<char>, pos: int) -> int
    decreases s.len() - pos,
{
    if 0 <= pos < s.len() && !spec_is_start_ruby(s[pos]) && !spec_is_new_line_escape(s[pos]) {
        1 + target_run_len(s, pos + 1)
    } else {
        0
    }
}

pub proof fn lemma_target_run_len_bounds(s: Seq<char>, pos: int)
    requires
        0 <= pos <= s.len(),
    ensures
        0 <= target_run_len(s, pos) <= s.len() - pos,
    decreases s.len() - pos,
{
    if pos < s.len() && !spec_is_start_ruby(s[pos]) && !spec_is_new_line_escape(s[pos]) {
        lemma_target_run_len_bounds(s, pos + 1);
    }
}

fn target_run(text: &str, pos: usize) -> (r: usize)
    requires
        pos <= text@.len(),
    ensures
        r == target_run_len(text@, pos as int),
        pos + r <= text@.len(),
{
    let n = text.unicode_len();
    let mut i: usize = pos;
    while i < n && !is_start_ruby(text.get_char(i)) && !is_new_line_escape(text.get_char(i))
        invariant
            pos <= i <= n,
            n == text@.len(),
            target_run_len(text@, pos as int) == i - pos + target_run_len(text@, i as int),
        decreases n - i,
    {
        i = i + 1;
    }
    proof {
        lemma_target_run_len_bounds(text@, i as int);
    }
    i - pos
}

/// Length of the run at `pos` of characters that may form a ruby reading:
/// everything up to a ruby-close delimiter or a line break.
pub open spec fn ruby_run_len(s: Seq<char>, pos: int) -> int
    decreases s.len() - pos,
{
    if 0 <= pos < s.len() && !spec_is_end_ruby(s[pos]) && !spec_is_new_line_escape(s[pos]) {
        1 + ruby_run_len(s, pos + 1)
    } else {
        0
    }
}

pub proof fn lemma_ruby_run_len_bounds(s: Seq<char>, pos: int)
    requires
        0 <= pos <= s.len(),
    ensures
        0 <= ruby_run_len(s, pos) <= s.len() - pos,
    decreases s.len() - pos,
{
    if pos < s.len() && !spec_is_end_ruby(s[pos]) && !spec_is_new_line_escape(s[pos]) {
        lemma_ruby_run_len_bounds(s, pos + 1);
    }
}

fn ruby_run(text: &str, pos: usize) -> (r: usize)
    requires
        pos <= text@.len(),
    ensures
        r == ruby_run_len(text@, pos as int),
        pos + r <= text@.len(),
{
    let n = text.unicode_len();
    let mut i: usize = pos;
    while i < n && !is_end_ruby(text.get_char(i)) && !is_new_line_escape(text.get_char(i))
        invariant
            pos <= i <= n,
            n == text@.len(),
            ruby_run_len(text@, pos as int) == i - pos + ruby_run_len(text@, i as int),
        decreases n - i,
    {
        i = i + 1;
    }
    proof {
        lemma_ruby_run_len_bounds(text@, i as int);
    }
    i - pos
}

/// A bracketed ruby span at `pos`: one opening delimiter, a (possibly
/// empty) reading free of closing delimiters and line breaks, and one
/// closing delimiter. Reports the characters consumed and the reading.
pub open spec fn spec_ruby(s: Seq<char>, pos: int) -> Option<(int, Seq<char>)> {
    if 0 <= pos < s.len() && spec_is_start_ruby(s[pos]) {
        let t = ruby_run_len(s, pos + 1);
        if pos + 1 + t < s.len() && spec_is_end_ruby(s[pos + 1 + t]) {
            Some((t + 2, s.subrange(pos + 1, pos + 1 + t)))
        } else {
            None
        }
    } else {
        None
    }
}

pub proof fn lemma_spec_ruby_bounds(s: Seq<char>, pos: int)
    requires
        0 <= pos <= s.len(),
        spec_ruby(s, pos) is Some,
    ensures
        2 <= spec_ruby(s, pos).unwrap().0 <= s.len() - pos,
        spec_ruby(s, pos).unwrap().1.len() == spec_ruby(s, pos).unwrap().0 - 2,
{
    lemma_ruby_run_len_bounds(s, pos + 1);
}

fn ruby<'a>(text: &'a str, pos: usize) -> (r: Option<(usize, &'a str)>)
    requires
        pos <= text@.len(),
    ensures
        match r {
            Some((n, rb)) => spec_ruby(text@, pos as int) matches Some(p) && p.0 == n as int && p.1
                == rb@ && pos + n <= text@.len(),
            None => spec_ruby(text@, pos as int) is None,
        },
{
    let n = text.unicode_len();
    if pos < n && is_start_ruby(text.get_char(pos)) {
        let t = ruby_run(text, pos + 1);
        if pos + 1 + t < n && is_end_ruby(text.get_char(pos + 1 + t)) {
            let rb = text.substring_char(pos + 1, pos + 1 + t);
            Some((t + 2, rb))
        } else {
            None
        }
    } else {
        None
    }
}

/// Total length of the maximal run of kanji units at `pos`, where one unit
/// is an ideographic character followed by a run of variation selectors.
pub open spec fn kanji_units_len(s: Seq<char>, pos: int) -> int
    decreases s.len() - pos,
{
    if 0 <= pos < s.len() && spec_is_kanji(s[pos]) {
        let iv = ivs_run_len(s, pos + 1);
        // the range test only justifies the termination measure; it
        // always holds
        if 0 <= iv && pos + 1 + iv <= s.len() {
            1 + iv + kanji_units_len(s, pos + 1 + iv)
        } else {
            1 + iv
        }
    } else {
        0
    }
}

/// Length of the run of ideographic variation selectors at `pos`.
pub open spec fn ivs_run_len(s: Seq<char>, pos: int) -> int
    decreases s.len() - pos,
{
    if 0 <= pos < s.len() && spec_is_ideographic_variation_sequence(s[pos]) {
        1 + ivs_run_len(s, pos + 1)
    } else {
        0
    }
}

pub proof fn lemma_ivs_run_len_bounds(s: Seq<char>, pos: int)
    requires
        0 <= pos <= s.len(),
    ensures
        0 <= ivs_run_len(s, pos) <= s.len() - pos,
    decreases s.len() - pos,
{
    if pos < s.len() && spec_is_ideographic_variation_sequence(s[pos]) {
        lemma_ivs_run_len_bounds(s, pos + 1);
    }
}

pub proof fn lemma_kanji_units_len_bounds(s: Seq<char>, pos: int)
    requires
        0 <= pos <= s.len(),
    ensures
        0 <= kanji_units_len(s, pos) <= s.len() - pos,
    decreases s.len() - pos,
{
    if pos < s.len() && spec_is_kanji(s[pos]) {
        lemma_ivs_run_len_bounds(s, pos + 1);
        let iv = ivs_run_len(s, pos + 1);
        lemma_kanji_units_len_bounds(s, pos + 1 + iv);
    }
}

fn ivs_run(text: &str, pos: usize) -> (r: usize)
    requires
        pos <= text@.len(),
    ensures
        r == ivs_run_len(text@, pos as int),
        pos + r <= text@.len(),
{
    let n = text.unicode_len();
    let mut i: usize = pos;
    while i < n && is_ideographic_variation_sequence(text.get_char(i))
        invariant
            pos <= i <= n,
            n == text@.len(),
            ivs_run_len(text@, pos as int) == i - pos + ivs_run_len(text@, i as int),
        decreases n - i,
    {
        i = i + 1;
    }
    proof {
        lemma_ivs_run_len_bounds(text@, i as int);
    }
    i - pos
}

fn kanji_units(text: &str, pos: usize) -> (r: usize)
    requires
        pos <= text@.len(),
    ensures
        r == kanji_units_len(text@, pos as int),
        pos + r <= text@.len(),
{
    let n = text.unicode_len();
    let mut i: usize = pos;
    while i < n && is_kanji(text.get_char(i))
        invariant
            pos <= i <= n,
            n == text@.len(),
            kanji_units_len(text@, pos as int) == i - pos + kanji_units_len(text@, i as int),
        decreases n - i,
    {
        let iv = ivs_run(text, i + 1);
        i = i + 1 + iv;
    }
    proof {
        lemma_kanji_units_len_bounds(text@, i as int);
    }
    i - pos
}

/// The instruction-ruby phrase matched at `pos`: marker, non-empty target
/// run, bracketed (possibly empty) ruby span.
pub open spec fn spec_ruby_instruction(s: Seq<char>, pos: int) -> Option<(int, RubyModel)> {
    if 0 <= pos < s.len() && spec_is_start_instruction(s[pos]) {
        let t = target_run_len(s, pos + 1);
        if t >= 1 {
            match spec_ruby(s, pos + 1 + t) {
                Some((rl, rb)) => Some(
                    (
                        1 + t + rl,
                        RubyModel {
                            target: s.subrange(pos + 1, pos + 1 + t),
                            ruby: rb,
                            ruby_type: RubyType::Instruction,
                        },
                    ),
                ),
                None => None,
            }
        } else {
            None
        }
    } else {
        None
    }
}

pub proof fn lemma_spec_ruby_instruction_bounds(s: Seq<char>, pos: int)
    requires
        0 <= pos <= s.len(),
        spec_ruby_instruction(s, pos) is Some,
    ensures
        1 <= spec_ruby_instruction(s, pos).unwrap().0 <= s.len() - pos,
{
    let t = target_run_len(s, pos + 1);
    lemma_target_run_len_bounds(s, pos + 1);
    lemma_spec_ruby_bounds(s, pos + 1 + t);
}

pub fn ruby_instruction<'a>(text: &'a str, pos: usize) -> (r: Option<(usize, RubyPhrase<&'a str>)>)
    requires
        pos <= text@.len(),
    ensures
        match r {
            Some((n, rp)) => spec_ruby_instruction(text@, pos as int) matches Some(p) && p.0
                == n as int && p.1.target == rp.target@ && p.1.ruby == rp.ruby@ && p.1.ruby_type
                == rp.ruby_type && pos + n <= text@.len() && n >= 1,
            None => spec_ruby_instruction(text@, pos as int) is None,
        },
{
    let n = text.unicode_len();
    if pos < n && is_start_instruction(text.get_char(pos)) {
        let t = target_run(text, pos + 1);
        if t >= 1 {
            match ruby(text, pos + 1 + t) {
                Some((rl, rb)) => {
                    let target = text.substring_char(pos + 1, pos + 1 + t);
                    Some(
                        (
                            1 + t + rl,
                            RubyPhrase { target, ruby: rb, ruby_type: RubyType::Instruction },
                        ),
                    )
                },
                None => None,
            }
        } else {
            None
        }
    } else {
        None
    }
}

/// The bare-kanji-ruby phrase matched at `pos`: a non-empty kanji run
/// directly followed by a bracketed, non-empty ruby span.
pub open spec fn spec_kanji_ruby(s: Seq<char>, pos: int) -> Option<(int, RubyModel)> {
    let k = kanji_units_len(s, pos);
    if k >= 1 {
        match spec_ruby(s, pos + k) {
            Some((rl, rb)) => if rb.len() > 0 {
                Some(
                    (
                        k + rl,
                        RubyModel {
                            target: s.subrange(pos, pos + k),
                            ruby: rb,
                            ruby_type: RubyType::KanjiWithRuby,
                        },
                    ),
                )
            } else {
                None
            },
            None => None,
        }
    } else {
        None
    }
}

pub proof fn lemma_spec_kanji_ruby_bounds(s: Seq<char>, pos: int)
    requires
        0 <= pos <= s.len(),
        spec_kanji_ruby(s, pos) is Some,
    ensures
        1 <= spec_kanji_ruby(s, pos).unwrap().0 <= s.len() - pos,
{
    let k = kanji_units_len(s, pos);
    lemma_kanji_units_len_bounds(s, pos);
    lemma_spec_ruby_bounds(s, pos + k);
}

pub fn kanji_ruby<'a>(text: &'a str, pos: usize) -> (r: Option<(usize, RubyPhrase<&'a str>)>)
    requires
        pos <= text@.len(),
    ensures
        match r {
            Some((n, rp)) => spec_kanji_ruby(text@, pos as int) matches Some(p) && p.0 == n as int
                && p.1.target == rp.target@ && p.1.ruby == rp.ruby@ && p.1.ruby_type
                == rp.ruby_type && pos + n <= text@.len() && n >= 1,
            None => spec_kanji_ruby(text@, pos as int) is None,
        },
{
    let n = text.unicode_len();
    let k = kanji_units(text, pos);
    if k >= 1 {
        match ruby(text, pos + k) {
            Some((rl, rb)) => {
                if !rb.is_empty() {
                    let target = text.substring_char(pos, pos + k);
                    Some(
                        (
                            k + rl,
                            RubyPhrase { target, ruby: rb, ruby_type: RubyType::KanjiWithRuby },
                        ),
                    )
                } else {
                    None
                }
            },
            None => None,
        }
    } else {
        None
    }
}

} // verus!
