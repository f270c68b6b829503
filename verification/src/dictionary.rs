//! Dictionary word entities and the persisted (prepared) dictionary.

use vstd::prelude::*;

use crate::parser::general_parser::DictionaryWordContainer;
use crate::parser::parse_dictionary::{build_records, canonical_records, has_nonempty_key,
    records_of};
use crate::parser::trie::{end_marker_free, trie_archive, trie_builds, trie_from_records,
    trie_serialize};
use crate::parser::Error;

verus! {

/// One segment of a dictionary word's surface form: a plain stretch, or a
/// stretch carrying its own reading.
#[derive(Clone, PartialEq, Debug)]
pub enum DictionaryWordKeyPhrase {
    Plain { target: String },
    Ruby { target: String, ruby: String },
}

impl DictionaryWordKeyPhrase {
    /// The characters this segment contributes to the surface form.
    pub open spec fn spec_target(&self) -> Seq<char> {
        match self {
            DictionaryWordKeyPhrase::Plain { target } => target@,
            DictionaryWordKeyPhrase::Ruby { target, ruby: _ } => target@,
        }
    }

    pub fn new_plain(target: String) -> (r: Self)
        ensures
            r matches DictionaryWordKeyPhrase::Plain { target: t } && t@ == target@,
    {
        DictionaryWordKeyPhrase::Plain { target }
    }

    pub fn new_ruby(target: String, ruby: String) -> (r: Self)
        ensures
            r matches DictionaryWordKeyPhrase::Ruby { target: t, ruby: rb } && t@ == target@ && rb@
                == ruby@,
    {
        DictionaryWordKeyPhrase::Ruby { target, ruby }
    }
}

/// The surface form described by a segment list: the concatenation of the
/// segments' targets.
pub open spec fn phrases_key(ps: Seq<DictionaryWordKeyPhrase>) -> Seq<char>
    decreases ps.len(),
{
    if ps.len() == 0 {
        Seq::empty()
    } else {
        phrases_key(ps.drop_last()) + ps.last().spec_target()
    }
}

/// A dictionary word: a surface-form key, per-segment readings, a free-text
/// description, and an opaque caller-supplied payload.
#[derive(Clone, PartialEq, Debug)]
pub struct DictionaryWord<X = ()> {
    key: String,
    phrase: Vec<DictionaryWordKeyPhrase>,
    description: String,
    extra: X,
}

impl DictionaryWord {
    /// A word with a single segment: the whole key read as `ruby`, or a
    /// plain segment when `ruby` is empty.
    pub fn new(key: String, ruby: String, description: String) -> (r: Self)
        ensures
            r.key_view() == key@,
            r.spec_description() == description@,
            r.spec_phrase().len() == 1,
            r.spec_phrase()[0].spec_target() == key@,
            ruby@.len() > 0 ==> (r.spec_phrase()[0] matches DictionaryWordKeyPhrase::Ruby {
                target: _,
                ruby: rb,
            } && rb@ == ruby@),
            ruby@.len() == 0 ==> r.spec_phrase()[0] is Plain,
    {
        let p = if !ruby.as_str().is_empty() {
            DictionaryWordKeyPhrase::new_ruby(key, ruby)
        } else {
            DictionaryWordKeyPhrase::new_plain(key)
        };
        let mut phrase: Vec<DictionaryWordKeyPhrase> = Vec::new();
        phrase.push(p);
        let r = Self::new_all(phrase, description, ());
        proof {
            let ps = r.spec_phrase();
            assert(ps.drop_last() =~= Seq::<DictionaryWordKeyPhrase>::empty());
            assert(phrases_key(ps) == phrases_key(ps.drop_last()) + ps.last().spec_target());
            assert(ps.last().spec_target() == key@);
            assert(r.key_view() =~= key@);
        }
        r
    }
}

impl<X> DictionaryWord<X> {
    /// The characters of the surface-form key.
    pub closed spec fn spec_key(&self) -> Seq<char> {
        self.key@
    }

    /// The segment list.
    pub closed spec fn spec_phrase(&self) -> Seq<DictionaryWordKeyPhrase> {
        self.phrase@
    }

    /// The description text.
    pub closed spec fn spec_description(&self) -> Seq<char> {
        self.description@
    }

    /// The caller-supplied payload.
    pub closed spec fn spec_extra(&self) -> X {
        self.extra
    }

    /// A word from an explicit segment list: the key is the concatenation
    /// of the segments' targets.
    pub fn new_all(phrase: Vec<DictionaryWordKeyPhrase>, description: String, extra: X) -> (r: Self)
        ensures
            r.key_view() == phrases_key(phrase@),
            r.spec_phrase() == phrase@,
            r.spec_description() == description@,
            r.spec_extra() == extra,
    {
        let n = phrase.len();
        let mut key = String::new();
        let mut i: usize = 0;
        while i < n
            invariant
                i <= n,
                n == phrase@.len(),
                key@ == phrases_key(phrase@.take(i as int)),
            decreases n - i,
        {
            match &phrase[i] {
                DictionaryWordKeyPhrase::Plain { target } => key.append(target.as_str()),
                DictionaryWordKeyPhrase::Ruby { target, ruby: _ } => key.append(target.as_str()),
            }
            proof {
                assert(phrase@.take(i + 1).drop_last() =~= phrase@.take(i as int));
                assert(phrase@.take(i + 1).last() == phrase@[i as int]);
            }
            i = i + 1;
        }
        proof {
            assert(phrase@.take(n as int) =~= phrase@);
        }
        Self { key, phrase, description, extra }
    }

    /// The surface-form key.
    pub fn key(&self) -> (r: &String)
        ensures
            r@ == self.key_view(),
    {
        &self.key
    }

    /// The segment list.
    pub fn phrase(&self) -> (r: &Vec<DictionaryWordKeyPhrase>)
        ensures
            r@ == self.spec_phrase(),
    {
        &self.phrase
    }

    /// The description text.
    pub fn description(&self) -> (r: &String)
        ensures
            r@ == self.spec_description(),
    {
        &self.description
    }

    /// The caller-supplied payload.
    pub fn extra(&self) -> (r: &X)
        ensures
            *r == self.spec_extra(),
    {
        &self.extra
    }
}

impl<X> DictionaryWordContainer for DictionaryWord<X> {
    type Extra = X;

    open spec fn key_view(&self) -> Seq<char> {
        self.spec_key()
    }

    fn word(&self) -> (r: &DictionaryWord<X>) {
        self
    }

    fn input_len(&self) -> (r: usize) {
        self.key.as_str().unicode_len()
    }
}

/// The format version stamped on prepared dictionaries this build writes.
pub open spec fn spec_current_format_version() -> Seq<char> {
    "1.0.0"@
}

pub(crate) fn current_format_version() -> (r: &'static str)
    ensures
        r@ == spec_current_format_version(),
{
    "1.0.0"
}

/// A versioned bundle pairing a word list with the serialized form of its
/// compiled automaton, so the automaton can be reconstructed without
/// recompiling. When the stored format version is not the current one the
/// loader falls back to recompiling from the word list.
#[derive(Debug)]
pub struct PreparedDictionary<WD> where WD: Clone + DictionaryWordContainer {
    format_version: String,
    words: Vec<WD>,
    trie_vec: Vec<u8>,
}

impl<WD> PreparedDictionary<WD> where WD: Clone + DictionaryWordContainer {
    /// A bundle stamped with the current version carries a genuine
    /// serialized image of the automaton compiled from its own word list.
    #[verifier::type_invariant]
    spec fn wf(self) -> bool {
        &&& self.words@.len() <= u32::MAX
        &&& self.format_version@ == spec_current_format_version() ==> {
            &&& trie_archive(self.trie_vec@) == Some(records_of(self.words@))
            &&& has_nonempty_key(self.words@)
            &&& end_marker_free(records_of(self.words@))
        }
    }

    /// The stored format version.
    pub closed spec fn spec_format_version(&self) -> Seq<char> {
        self.format_version@
    }

    /// The stored word list.
    pub closed spec fn spec_words(&self) -> Seq<WD> {
        self.words@
    }

    pub fn format_version(&self) -> (r: &str)
        ensures
            r@ == self.spec_format_version(),
    {
        self.format_version.as_str()
    }

    /// The stored word list.
    pub fn words(&self) -> (r: &Vec<WD>)
        ensures
            r@ == self.spec_words(),
    {
        &self.words
    }

    /// The serialized automaton image.
    pub fn trie_vec(&self) -> (r: &Vec<u8>)
        ensures
            self.spec_format_version() == spec_current_format_version() ==> trie_archive(r@)
                == Some(records_of(self.spec_words())),
    {
        proof {
            use_type_invariant(self);
        }
        &self.trie_vec
    }

    /// Compiles the word list, serializes the automaton, and stamps the
    /// current format version. Succeeds exactly when some word has a
    /// non-empty key and the trie builder accepts the canonical records;
    /// returns `Error::SerializeDictionary` exactly when there is no
    /// compiled automaton to serialize, that is, when no word has a
    /// non-empty key, and `Error::CreateDictionary` exactly when the trie
    /// builder rejects the key set.
    pub fn prepare(words: Vec<WD>) -> (r: Result<Self, Error>)
        requires
            words@.len() <= u32::MAX,
        ensures
            r is Ok <==> has_nonempty_key(words@) && trie_builds(canonical_records(words@)),
            match r {
                Ok(pd) => {
                    &&& pd.spec_words() == words@
                    &&& pd.spec_format_version() == spec_current_format_version()
                    &&& has_nonempty_key(words@)
                },
                Err(e) => e matches Error::SerializeDictionary <==> !has_nonempty_key(words@),
            },
    {
        let records = build_records(&words);
        if records.is_empty() {
            return Err(Error::SerializeDictionary);
        }
        let trie = match trie_from_records(&records) {
            Ok(t) => t,
            Err(e) => {
                return Err(Error::CreateDictionary(e));
            },
        };
        let trie_vec = trie_serialize(&trie);
        let mut format_version = String::new();
        format_version.append(current_format_version());
        Ok(Self { format_version, words, trie_vec })
    }

    /// Rebuilds a bundle from stored parts, for artifacts read back from
    /// persistence by the caller. Stored bytes are not taken on trust: a
    /// bundle stamped with the current version is prepared afresh from its
    /// word list, so the image again matches the words; a bundle of any
    /// other version keeps its parts and is recompiled when loaded.
    pub fn from_parts(format_version: String, words: Vec<WD>, trie_vec: Vec<u8>) -> (r: Result<
        Self,
        Error,
    >)
        requires
            words@.len() <= u32::MAX,
        ensures
            r is Ok <==> format_version@ != spec_current_format_version() || (has_nonempty_key(
                words@,
            ) && trie_builds(canonical_records(words@))),
            match r {
                Ok(pd) => pd.spec_words() == words@ && pd.spec_format_version()
                    == format_version@,
                Err(e) => format_version@ == spec_current_format_version() && (e matches Error::SerializeDictionary
                    <==> !has_nonempty_key(words@)),
            },
    {
        let mut current = String::new();
        current.append(current_format_version());
        if format_version == current {
            Self::prepare(words)
        } else {
            Ok(Self { format_version, words, trie_vec })
        }
    }

    /// Splits the bundle into its parts, carrying the coherence between the
    /// word list and the image along for bundles of the current version.
    pub(crate) fn into_parts(self) -> (r: (String, Vec<WD>, Vec<u8>))
        ensures
            r.0@ == self.spec_format_version(),
            r.1@ == self.spec_words(),
            r.1@.len() <= u32::MAX,
            r.0@ == spec_current_format_version() ==> {
                &&& trie_archive(r.2@) == Some(records_of(r.1@))
                &&& has_nonempty_key(r.1@)
                &&& end_marker_free(records_of(r.1@))
            },
    {
        proof {
            use_type_invariant(&self);
        }
        let PreparedDictionary { format_version, words, trie_vec } = self;
        (format_version, words, trie_vec)
    }
}

} // verus!
