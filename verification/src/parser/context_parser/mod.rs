//! The pluggable annotation-grammar capability.

use vstd::prelude::*;

pub mod general_context_parser;

pub use general_context_parser::GeneralContextParser;

use crate::phrase::{RubyModel, RubyPhrase};

verus! {

/// A stateless recognizer for in-text annotation syntax. Given the input
/// and a character position it either matches one annotation phrase
/// starting exactly there, reporting the characters consumed, or reports no
/// match. Alternate grammars substitute for the built-in one at the
/// tokenizer's construction, each carrying its own mathematical recognizer
/// `spec_parse` that its executable `parse` is held to.
pub trait ContextParser {
    /// The grammar's mathematical recognizer: consumed length and the
    /// recognized annotation.
    spec fn spec_parse(s: Seq<char>, pos: int) -> Option<(int, RubyModel)>;

    /// Every match consumes at least one character and never more than
    /// remain.
    proof fn lemma_parse_in_bounds(s: Seq<char>, pos: int)
        requires
            0 <= pos <= s.len(),
        ensures
            Self::spec_parse(s, pos) matches Some(p) ==> 1 <= p.0 <= s.len() - pos,
    ;

    fn parse<'a>(text: &'a str, pos: usize) -> (r: Option<(usize, RubyPhrase<&'a str>)>)
        requires
            pos <= text@.len(),
        ensures
            match r {
                Some((n, rp)) => Self::spec_parse(text@, pos as int) matches Some(p) && p.0
                    == n as int && p.1.target == rp.target@ && p.1.ruby == rp.ruby@ && p.1.ruby_type
                    == rp.ruby_type,
                None => Self::spec_parse(text@, pos as int) is None,
            },
    ;
}

} // verus!
