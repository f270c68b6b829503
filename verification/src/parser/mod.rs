//! The tokenizer: recognizers, dictionary automaton, and the streaming
//! general parser that merges them with a longest-match/priority policy.

use vstd::prelude::*;

pub mod context_parser;
pub mod general_parser;
pub mod parse_dictionary;
pub mod recognizers;
pub mod trie;

use crate::dictionary::{DictionaryWord, PreparedDictionary};
use crate::parser::context_parser::GeneralContextParser;
use crate::dictionary::spec_current_format_version;
use crate::parser::general_parser::{frag_models, lemma_tokenize_round_trip, spans_concat,
    spec_tokenize, GeneralParseIter, GeneralParser};
use crate::parser::parse_dictionary::{canonical_records, has_nonempty_key};
use crate::parser::trie::trie_builds;
use crate::phrase::{phrase_model, Phrase, PhraseModel};

verus! {

/// One tokenizer output unit: the exact sub-span of the input that was
/// consumed, and the phrase it produced. Concatenating the spans of all
/// fragments of one run reproduces the input.
#[derive(Clone, PartialEq, Debug)]
pub struct ParsedFragment<S, DW> {
    pub fragment: S,
    pub phrase: Phrase<S, DW>,
}

impl<S, DW> ParsedFragment<S, DW> {
    /// The consumed span.
    pub fn fragment(&self) -> (r: &S)
        ensures
            *r == self.fragment,
    {
        &self.fragment
    }

    /// The produced phrase.
    pub fn phrase(&self) -> (r: &Phrase<S, DW>)
        ensures
            *r == self.phrase,
    {
        &self.phrase
    }
}

/// The mathematical model of a fragment: its span as characters, its
/// phrase as a `PhraseModel`.
pub struct FragModel<WD> {
    pub span: Seq<char>,
    pub phrase: PhraseModel<WD>,
}

/// The model of a fragment whose spans are string slices.
pub open spec fn frag_model<S: View<V = Seq<char>>, WD>(f: ParsedFragment<S, &WD>) -> FragModel<
    WD,
> {
    FragModel { span: f.fragment@, phrase: phrase_model(f.phrase) }
}

/// Construction-time failures. Lookup and tokenization never fail: a miss
/// is an explicit negative result, not an error.
#[derive(Debug)]
pub enum Error {
    /// The trie builder rejected the key set.
    CreateDictionary(crawdad::errors::CrawdadError),
    /// Compiling succeeded but there was no compiled automaton to
    /// serialize.
    SerializeDictionary,
}

impl Error {
    /// A short description of the failure, for reporting.
    pub fn message(&self) -> (r: &'static str)
        ensures
            self is CreateDictionary ==> r@ == "failed to build the dictionary"@,
            self is SerializeDictionary ==> r@ == "failed to serialize the dictionary"@,
    {
        match self {
            Error::CreateDictionary(_) => "failed to build the dictionary",
            Error::SerializeDictionary => "failed to serialize the dictionary",
        }
    }
}

/// The tokenizer over dictionary words, using the built-in annotation
/// grammar.
pub struct Parser<X = ()>(GeneralParser<DictionaryWord<X>>);

impl<X> Parser<X> {
    /// The dictionary's word list.
    pub closed spec fn spec_words(&self) -> Seq<DictionaryWord<X>> {
        self.0.spec_words()
    }

    /// Compiles a word list into a tokenizer. Succeeds exactly when there
    /// is nothing to compile (no non-empty key) or the trie builder
    /// accepts the canonical records, so empty or duplicate keys alone
    /// never fail it.
    pub fn try_new_with_dic(words: Vec<DictionaryWord<X>>) -> (r: Result<Parser<X>, Error>)
        requires
            words@.len() <= u32::MAX,
        ensures
            r is Ok <==> !has_nonempty_key(words@) || trie_builds(canonical_records(words@)),
            match r {
                Ok(p) => p.spec_words() == words@,
                Err(e) => e matches Error::CreateDictionary(_),
            },
    {
        match GeneralParser::try_new_bytes_with_dic(words) {
            Ok(g) => Ok(Parser(g)),
            Err(e) => Err(e),
        }
    }

    /// A lazy tokenizer over `text`: it emits exactly the fragment
    /// sequence `spec_tokenize` describes for this dictionary and the
    /// built-in grammar, one fragment per step.
    pub fn parse_iter<'a>(&'a self, text: &'a str) -> (r: GeneralParseIter<
        'a,
        GeneralContextParser,
        DictionaryWord<X>,
    >)
        ensures
            r.wf(),
            r.spec_text() == text@,
            r.spec_words() == self.spec_words(),
            r.emitted_out().len() == 0,
            r.remaining_out() == spec_tokenize::<GeneralContextParser, DictionaryWord<X>>(
                self.spec_words(),
                text@,
            ),
    {
        self.0.parse_iter(text)
    }

    /// Tokenizes the whole input at once: exactly the fragment sequence
    /// `spec_tokenize` describes, whose spans concatenate back to the
    /// input.
    pub fn parse_all<'a>(&'a self, text: &'a str) -> (r: Vec<
        ParsedFragment<&'a str, &'a DictionaryWord<X>>,
    >)
        ensures
            frag_models(r@) == spec_tokenize::<GeneralContextParser, DictionaryWord<X>>(
                self.spec_words(),
                text@,
            ),
            spans_concat(frag_models(r@)) == text@,
    {
        let mut it = self.parse_iter(text);
        let r = it.collect_all();
        proof {
            lemma_tokenize_round_trip::<GeneralContextParser, DictionaryWord<X>>(
                self.spec_words(),
                text@,
            );
        }
        r
    }
}

impl<X> Parser<X> where X: Clone {
    /// Reconstructs a tokenizer from a prepared dictionary: a bundle of
    /// the current format version is deserialized directly (never
    /// failing), any other version is recompiled from its word list,
    /// failing only when the trie builder rejects the canonical records.
    pub fn try_from(value: PreparedDictionary<DictionaryWord<X>>) -> (r: Result<Self, Error>)
        ensures
            r is Ok <==> value.spec_format_version() == spec_current_format_version()
                || !has_nonempty_key(value.spec_words()) || trie_builds(
                canonical_records(value.spec_words()),
            ),
            match r {
                Ok(p) => p.spec_words() == value.spec_words(),
                Err(e) => e matches Error::CreateDictionary(_),
            },
    {
        match GeneralParser::try_from(value) {
            Ok(g) => Ok(Parser(g)),
            Err(e) => Err(e),
        }
    }
}

impl Default for Parser<()> {
    /// A tokenizer over the empty dictionary: output is structural tokens,
    /// annotation phrases, and runs of plain text, never a dictionary
    /// phrase.
    fn default() -> (r: Self)
        ensures
            r.spec_words().len() == 0,
    {
        Parser(GeneralParser::default())
    }
}

} // verus!
