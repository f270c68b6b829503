//! The built-in annotation grammar: instruction ruby first, bare kanji
//! ruby second.

use vstd::prelude::*;

use crate::parser::context_parser::ContextParser;
use crate::parser::recognizers::ruby::{kanji_ruby, lemma_spec_kanji_ruby_bounds,
    lemma_spec_ruby_instruction_bounds, ruby_instruction, spec_kanji_ruby, spec_ruby_instruction};
use crate::phrase::{RubyModel, RubyPhrase};

verus! {

/// The built-in grammar: tries the explicit `|target(reading)` instruction
/// form, then the bare-kanji-with-reading form.
pub struct GeneralContextParser;

impl ContextParser for GeneralContextParser {
    open spec fn spec_parse(s: Seq<char>, pos: int) -> Option<(int, RubyModel)> {
        match spec_ruby_instruction(s, pos) {
            Some(p) => Some(p),
            None => spec_kanji_ruby(s, pos),
        }
    }

    proof fn lemma_parse_in_bounds(s: Seq<char>, pos: int) {
        if spec_ruby_instruction(s, pos) is Some {
            lemma_spec_ruby_instruction_bounds(s, pos);
        } else if spec_kanji_ruby(s, pos) is Some {
            lemma_spec_kanji_ruby_bounds(s, pos);
        }
    }

    fn parse<'a>(text: &'a str, pos: usize) -> (r: Option<(usize, RubyPhrase<&'a str>)>) {
        match ruby_instruction(text, pos) {
            Some(p) => Some(p),
            None => kanji_ruby(text, pos),
        }
    }
}

} // verus!
