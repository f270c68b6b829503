//! Tokenizer for Japanese web-novel text.
//!
//! The tokenizer splits raw text into a linear sequence of typed phrases:
//! explicit ruby (furigana) annotations written in the source, structural
//! tokens (line breaks and whitespace runs), glossary terms recognized by a
//! compiled dictionary automaton, and everything else as literal text. Every
//! produced phrase borrows a sub-span of the original input; concatenating
//! the spans of one full run reproduces the input exactly.

pub mod dictionary;
pub mod parser;
pub mod phrase;

pub use dictionary::{DictionaryWord, DictionaryWordKeyPhrase, PreparedDictionary};
pub use phrase::{
    DictionaryPhrase, NewLinePhrase, NewLineType, Phrase, PhraseModel, PlainPhrase, RubyPhrase,
    RubyType, WhiteSpacePhrase, WhiteSpaceType,
};
