//! The general parser: a single-pass streaming tokenizer that merges the
//! annotation grammar, the structural recognizers, and the dictionary
//! automaton with a fixed priority order, accumulating unmatched text into
//! deferred plain-text spans.
//!
//! The whole behaviour is pinned by `spec_tokenize`: the mathematical
//! fragment sequence a given dictionary and grammar produce on a given
//! input. The lazy iterator emits exactly that sequence, one fragment per
//! step.

use core::marker::PhantomData;

use vstd::prelude::*;

use crate::dictionary::{DictionaryWord, PreparedDictionary};
use crate::parser::context_parser::ContextParser;
use crate::parser::parse_dictionary::{canonical_records, has_nonempty_key, lemma_best_hit_props,
    records_of, spec_lookup, DoubleArrayDictionary};
use crate::parser::trie::trie_builds;
use crate::parser::recognizers::new_line::{new_line, spec_new_line};
use crate::parser::recognizers::white_space::{lemma_run_len_bounds, space, spec_space, spec_tab,
    spec_zenkaku_space, tab, zenkaku_space};
use crate::parser::{frag_model, Error, FragModel, ParsedFragment};
use crate::phrase::{DictionaryPhrase, NewLinePhrase, Phrase, PhraseModel, PlainPhrase,
    WhiteSpacePhrase, WhiteSpaceType};

verus! {

/// Capability of a value that can stand in the dictionary's word list: it
/// exposes the word entry and the length of its surface-form key.
pub trait DictionaryWordContainer: Sized {
    type Extra;

    /// The characters of the surface-form key.
    spec fn key_view(&self) -> Seq<char>;

    fn word(&self) -> (r: &DictionaryWord<Self::Extra>)
        ensures
            r.spec_key() == self.key_view(),
    ;

    fn input_len(&self) -> (r: usize)
        ensures
            r == self.key_view().len(),
    ;
}

/// The high-priority match at `pos`: the annotation grammar first, then
/// the line-ending recognizer, then the three whitespace kinds.
pub open spec fn high_priority_match<CP: ContextParser, WD>(s: Seq<char>, pos: int) -> Option<
    (int, PhraseModel<WD>),
> {
    match CP::spec_parse(s, pos) {
        Some((n, m)) => Some(
            (n, PhraseModel::Ruby { target: m.target, ruby: m.ruby, ruby_type: m.ruby_type }),
        ),
        None => match spec_new_line(s, pos) {
            Some((n, t)) => Some((n, PhraseModel::NewLine { new_line_type: t })),
            None => match spec_space(s, pos) {
                Some(n) => Some(
                    (
                        n,
                        PhraseModel::WhiteSpace {
                            count: n as nat,
                            white_space_type: WhiteSpaceType::Space,
                        },
                    ),
                ),
                None => match spec_zenkaku_space(s, pos) {
                    Some(n) => Some(
                        (
                            n,
                            PhraseModel::WhiteSpace {
                                count: n as nat,
                                white_space_type: WhiteSpaceType::ZenkakuSpace,
                            },
                        ),
                    ),
                    None => match spec_tab(s, pos) {
                        Some(n) => Some(
                            (
                                n,
                                PhraseModel::WhiteSpace {
                                    count: n as nat,
                                    white_space_type: WhiteSpaceType::Tab,
                                },
                            ),
                        ),
                        None => None,
                    },
                },
            },
        },
    }
}

/// The structured match at `pos`: a high-priority match, or else the
/// longest dictionary hit.
pub open spec fn step_match<CP: ContextParser, WD: DictionaryWordContainer>(
    ws: Seq<WD>,
    s: Seq<char>,
    pos: int,
) -> Option<(int, PhraseModel<WD>)> {
    match high_priority_match::<CP, WD>(s, pos) {
        Some(p) => Some(p),
        None => match spec_lookup(records_of(ws), s, pos) {
            Some(l) => {
                let k = s.subrange(pos, pos + l);
                let v = records_of(ws)[k] as int;
                Some((l, PhraseModel::Word { target: k, word: ws[v] }))
            },
            None => None,
        },
    }
}

/// A structured match consumes at least one character and never more than
/// remain, and is never a plain phrase.
pub proof fn lemma_step_match_bounds<CP: ContextParser, WD: DictionaryWordContainer>(
    ws: Seq<WD>,
    s: Seq<char>,
    pos: int,
)
    requires
        0 <= pos <= s.len(),
    ensures
        step_match::<CP, WD>(ws, s, pos) matches Some(p) ==> 1 <= p.0 <= s.len() - pos && !(p.1
            is Plain),
{
    CP::lemma_parse_in_bounds(s, pos);
    lemma_run_len_bounds(s, pos, ' ');
    lemma_run_len_bounds(s, pos, '\u{3000}');
    lemma_run_len_bounds(s, pos, '\t');
    lemma_best_hit_props(records_of(ws), s, pos, s.len() - pos);
}

/// The full tokenization from position `pos`, with `plain_start` the start
/// of the currently open plain-text run, if one is open. At each position
/// the structured match is taken if there is one, flushing the open plain
/// run first; otherwise the plain run grows by one character. A final open
/// plain run is flushed when the input ends.
pub open spec fn spec_tokenize_from<CP: ContextParser, WD: DictionaryWordContainer>(
    ws: Seq<WD>,
    s: Seq<char>,
    pos: int,
    plain_start: Option<int>,
) -> Seq<FragModel<WD>>
    decreases s.len() - pos,
{
    if pos < 0 || pos > s.len() {
        Seq::empty()
    } else if pos == s.len() {
        match plain_start {
            Some(p) => if 0 <= p < pos {
                seq![
                    FragModel {
                        span: s.subrange(p, pos),
                        phrase: PhraseModel::Plain { target: s.subrange(p, pos) },
                    },
                ]
            } else {
                Seq::empty()
            },
            None => Seq::empty(),
        }
    } else {
        match step_match::<CP, WD>(ws, s, pos) {
            Some((n, ph)) => if 1 <= n <= s.len() - pos {
                let frag = FragModel { span: s.subrange(pos, pos + n), phrase: ph };
                let rest = spec_tokenize_from::<CP, WD>(ws, s, pos + n, None);
                match plain_start {
                    Some(p) => if 0 <= p < pos {
                        seq![
                            FragModel {
                                span: s.subrange(p, pos),
                                phrase: PhraseModel::Plain { target: s.subrange(p, pos) },
                            },
                        ] + seq![frag] + rest
                    } else {
                        seq![frag] + rest
                    },
                    None => seq![frag] + rest,
                }
            } else {
                Seq::empty()
            },
            None => spec_tokenize_from::<CP, WD>(
                ws,
                s,
                pos + 1,
                match plain_start {
                    Some(p) => Some(p),
                    None => Some(pos),
                },
            ),
        }
    }
}

/// The whole input's tokenization.
pub open spec fn spec_tokenize<CP: ContextParser, WD: DictionaryWordContainer>(
    ws: Seq<WD>,
    s: Seq<char>,
) -> Seq<FragModel<WD>> {
    spec_tokenize_from::<CP, WD>(ws, s, 0, None)
}

/// The concatenation of the fragments' spans, in emission order.
pub open spec fn spans_concat<WD>(frags: Seq<FragModel<WD>>) -> Seq<char>
    decreases frags.len(),
{
    if frags.len() == 0 {
        Seq::empty()
    } else {
        frags.first().span + spans_concat(frags.drop_first())
    }
}

pub proof fn lemma_spans_concat_app<WD>(a: Seq<FragModel<WD>>, b: Seq<FragModel<WD>>)
    ensures
        spans_concat(a + b) == spans_concat(a) + spans_concat(b),
    decreases a.len(),
{
    if a.len() == 0 {
        assert(a + b =~= b);
        assert(spans_concat(a) + spans_concat(b) =~= spans_concat(b));
    } else {
        assert((a + b).first() == a.first());
        assert((a + b).drop_first() =~= a.drop_first() + b);
        lemma_spans_concat_app(a.drop_first(), b);
        assert(spans_concat(a + b) =~= spans_concat(a) + spans_concat(b));
    }
}

proof fn lemma_spans_concat_singleton<WD>(f: FragModel<WD>)
    ensures
        spans_concat(seq![f]) == f.span,
{
    assert(seq![f].drop_first() =~= Seq::<FragModel<WD>>::empty());
    assert(spans_concat(seq![f].drop_first()) == Seq::<char>::empty());
    assert(spans_concat(seq![f]) =~= f.span);
}

proof fn lemma_tokenize_from_round_trip<CP: ContextParser, WD: DictionaryWordContainer>(
    ws: Seq<WD>,
    s: Seq<char>,
    pos: int,
    plain_start: Option<int>,
)
    requires
        0 <= pos <= s.len(),
        plain_start matches Some(p) ==> 0 <= p <= pos,
    ensures
        spans_concat(spec_tokenize_from::<CP, WD>(ws, s, pos, plain_start)) == (match plain_start {
            Some(p) => s.subrange(p, s.len() as int),
            None => s.subrange(pos, s.len() as int),
        }),
    decreases s.len() - pos,
{
    lemma_step_match_bounds::<CP, WD>(ws, s, pos);
    if pos == s.len() {
        match plain_start {
            Some(p) => {
                if p < pos {
                    let f = FragModel::<WD> {
                        span: s.subrange(p, pos),
                        phrase: PhraseModel::Plain { target: s.subrange(p, pos) },
                    };
                    lemma_spans_concat_singleton(f);
                    assert(spans_concat(seq![f]) =~= s.subrange(p, s.len() as int));
                } else {
                    assert(s.subrange(p, s.len() as int) =~= Seq::<char>::empty());
                }
            },
            None => {
                assert(s.subrange(pos, s.len() as int) =~= Seq::<char>::empty());
            },
        }
    } else {
        match step_match::<CP, WD>(ws, s, pos) {
            Some((n, ph)) => {
                let frag = FragModel { span: s.subrange(pos, pos + n), phrase: ph };
                let rest = spec_tokenize_from::<CP, WD>(ws, s, pos + n, None);
                lemma_tokenize_from_round_trip::<CP, WD>(ws, s, pos + n, None);
                lemma_spans_concat_singleton(frag);
                lemma_spans_concat_app(seq![frag], rest);
                assert(spans_concat(seq![frag] + rest) =~= s.subrange(pos, s.len() as int));
                match plain_start {
                    Some(p) => {
                        if p < pos {
                            let pf = FragModel::<WD> {
                                span: s.subrange(p, pos),
                                phrase: PhraseModel::Plain { target: s.subrange(p, pos) },
                            };
                            assert(seq![pf] + seq![frag] + rest =~= seq![pf] + (
                            seq![frag] + rest));
                            lemma_spans_concat_app(seq![pf], seq![frag] + rest);
                            lemma_spans_concat_singleton(pf);
                            assert(spans_concat(seq![pf] + seq![frag] + rest) =~= s.subrange(
                                p,
                                s.len() as int,
                            ));
                        }
                    },
                    None => {},
                }
            },
            None => {
                let np = match plain_start {
                    Some(p) => Some(p),
                    None => Some(pos),
                };
                lemma_tokenize_from_round_trip::<CP, WD>(ws, s, pos + 1, np);
            },
        }
    }
}

/// Round-trip: concatenating every emitted fragment's span reproduces the
/// input exactly, whatever the dictionary and the grammar.
pub proof fn lemma_tokenize_round_trip<CP: ContextParser, WD: DictionaryWordContainer>(
    ws: Seq<WD>,
    s: Seq<char>,
)
    ensures
        spans_concat(spec_tokenize::<CP, WD>(ws, s)) == s,
{
    lemma_tokenize_from_round_trip::<CP, WD>(ws, s, 0, None);
    assert(s.subrange(0, s.len() as int) =~= s);
}

proof fn lemma_tokenize_from_wellformed<CP: ContextParser, WD: DictionaryWordContainer>(
    ws: Seq<WD>,
    s: Seq<char>,
    pos: int,
    plain_start: Option<int>,
)
    requires
        0 <= pos <= s.len(),
        plain_start matches Some(p) ==> 0 <= p <= pos,
    ensures
        ({
            let out = spec_tokenize_from::<CP, WD>(ws, s, pos, plain_start);
            &&& forall|i: int| 0 <= i < out.len() ==> (#[trigger] out[i]).span.len() > 0
            &&& forall|i: int|
                0 <= i < out.len() - 1 ==> !((#[trigger] out[i]).phrase is Plain && out[
                    i + 1
                ].phrase is Plain)
        }),
    decreases s.len() - pos,
{
    lemma_step_match_bounds::<CP, WD>(ws, s, pos);
    let out = spec_tokenize_from::<CP, WD>(ws, s, pos, plain_start);
    if pos == s.len() {
    } else {
        match step_match::<CP, WD>(ws, s, pos) {
            Some((n, ph)) => {
                let frag = FragModel { span: s.subrange(pos, pos + n), phrase: ph };
                let rest = spec_tokenize_from::<CP, WD>(ws, s, pos + n, None);
                lemma_tokenize_from_wellformed::<CP, WD>(ws, s, pos + n, None);
                match plain_start {
                    Some(p) => {
                        if p < pos {
                            let pf = FragModel::<WD> {
                                span: s.subrange(p, pos),
                                phrase: PhraseModel::Plain { target: s.subrange(p, pos) },
                            };
                            assert(out =~= seq![pf] + seq![frag] + rest);
                            assert(out[0] == pf);
                            assert(out[1] == frag);
                            assert(forall|i: int| 2 <= i < out.len() ==> out[i] == rest[i - 2]);
                            assert(!(frag.phrase is Plain));
                        } else {
                            assert(out =~= seq![frag] + rest);
                            assert(out[0] == frag);
                            assert(forall|i: int| 1 <= i < out.len() ==> out[i] == rest[i - 1]);
                            assert(!(frag.phrase is Plain));
                        }
                    },
                    None => {
                        assert(out =~= seq![frag] + rest);
                        assert(out[0] == frag);
                        assert(forall|i: int| 1 <= i < out.len() ==> out[i] == rest[i - 1]);
                        assert(!(frag.phrase is Plain));
                    },
                }
            },
            None => {
                let np = match plain_start {
                    Some(p) => Some(p),
                    None => Some(pos),
                };
                lemma_tokenize_from_wellformed::<CP, WD>(ws, s, pos + 1, np);
            },
        }
    }
}

/// The emitted sequence never contains an empty-span phrase, nor two
/// consecutive plain phrases, whatever the dictionary and the grammar.
pub proof fn lemma_tokenize_wellformed<CP: ContextParser, WD: DictionaryWordContainer>(
    ws: Seq<WD>,
    s: Seq<char>,
)
    ensures
        ({
            let out = spec_tokenize::<CP, WD>(ws, s);
            &&& forall|i: int| 0 <= i < out.len() ==> (#[trigger] out[i]).span.len() > 0
            &&& forall|i: int|
                0 <= i < out.len() - 1 ==> !((#[trigger] out[i]).phrase is Plain && out[
                    i + 1
                ].phrase is Plain)
        }),
{
    lemma_tokenize_from_wellformed::<CP, WD>(ws, s, 0, None);
}

/// The models of a fragment list, in order.
pub open spec fn frag_models<'a, WD>(frags: Seq<ParsedFragment<&'a str, &'a WD>>) -> Seq<
    FragModel<WD>,
> {
    frags.map_values(|f: ParsedFragment<&'a str, &'a WD>| frag_model(f))
}

/// The dictionary-backed parser: owns the compiled dictionary; its
/// iterators borrow it.
pub struct GeneralParser<WD> where WD: DictionaryWordContainer {
    dictionary: DoubleArrayDictionary<WD>,
}

impl<WD> GeneralParser<WD> where WD: DictionaryWordContainer {
    /// The dictionary's word list.
    pub closed spec fn spec_words(&self) -> Seq<WD> {
        self.dictionary.spec_words()
    }

    /// A lazy tokenizer over `text`, emitting exactly
    /// `spec_tokenize(words, text)`, one fragment per step.
    pub fn parse_iter<'a, CP: ContextParser>(&'a self, text: &'a str) -> (r: GeneralParseIter<
        'a,
        CP,
        WD,
    >)
        ensures
            r.wf(),
            r.spec_text() == text@,
            r.spec_words() == self.spec_words(),
            r.emitted_out() == Seq::<FragModel<WD>>::empty(),
            r.remaining_out() == spec_tokenize::<CP, WD>(self.spec_words(), text@),
    {
        GeneralParseIter {
            text,
            dictionary: &self.dictionary,
            pos: 0,
            plain_cache: None,
            next_phrase: None,
            emitted: Ghost(Seq::empty()),
            _cp: PhantomData,
        }
    }
}

impl<WD> Default for GeneralParser<WD> where WD: DictionaryWordContainer {
    /// A parser over the empty dictionary: every position falls through to
    /// the grammar, the structural recognizers, or plain text.
    fn default() -> (r: Self)
        ensures
            r.spec_words() == Seq::<WD>::empty(),
    {
        Self { dictionary: DoubleArrayDictionary::default() }
    }
}

impl<WD> GeneralParser<WD> where WD: Clone + DictionaryWordContainer {
    /// Reconstructs the parser from a prepared dictionary; see
    /// `DoubleArrayDictionary::try_from`.
    pub fn try_from(value: PreparedDictionary<WD>) -> (r: Result<Self, Error>)
        ensures
            r is Ok <==> value.spec_format_version()
                == crate::dictionary::spec_current_format_version() || !has_nonempty_key(
                value.spec_words(),
            ) || trie_builds(canonical_records(value.spec_words())),
            match r {
                Ok(p) => p.spec_words() == value.spec_words(),
                Err(e) => e matches Error::CreateDictionary(_),
            },
    {
        match DoubleArrayDictionary::try_from(value) {
            Ok(d) => Ok(Self { dictionary: d }),
            Err(e) => Err(e),
        }
    }
}

impl<X> GeneralParser<DictionaryWord<X>> {
    /// Compiles a word list into a parser; see
    /// `DoubleArrayDictionary::try_new`.
    pub(crate) fn try_new_bytes_with_dic(words: Vec<DictionaryWord<X>>) -> (r: Result<Self, Error>)
        requires
            words@.len() <= u32::MAX,
        ensures
            r is Ok <==> !has_nonempty_key(words@) || trie_builds(canonical_records(words@)),
            match r {
                Ok(p) => p.spec_words() == words@,
                Err(e) => e matches Error::CreateDictionary(_),
            },
    {
        match DoubleArrayDictionary::try_new(words) {
            Ok(d) => Ok(Self { dictionary: d }),
            Err(e) => Err(e),
        }
    }
}

/// The lazy tokenizer: each call of `next` advances the state machine by
/// exactly the work needed to produce one fragment, or reports the end.
/// It borrows the input and the dictionary; fragments borrow both.
pub struct GeneralParseIter<'a, CP, WD> where CP: ContextParser, WD: DictionaryWordContainer {
    text: &'a str,
    dictionary: &'a DoubleArrayDictionary<WD>,
    pos: usize,
    plain_cache: Option<usize>,
    next_phrase: Option<ParsedFragment<&'a str, &'a WD>>,
    emitted: Ghost<Seq<FragModel<WD>>>,
    _cp: PhantomData<CP>,
}

impl<'a, CP, WD> GeneralParseIter<'a, CP, WD> where CP: ContextParser, WD: DictionaryWordContainer {
    /// The input under tokenization.
    pub closed spec fn spec_text(&self) -> Seq<char> {
        self.text@
    }

    /// The dictionary's word list.
    pub closed spec fn spec_words(&self) -> Seq<WD> {
        self.dictionary.spec_words()
    }

    /// Validity of the cursor state.
    pub closed spec fn wf(&self) -> bool {
        &&& self.pos <= self.text@.len()
        &&& (self.plain_cache matches Some(p) ==> p < self.pos)
        &&& (self.next_phrase is Some ==> self.plain_cache is None)
    }

    /// The models of the fragments emitted so far.
    pub closed spec fn emitted_out(&self) -> Seq<FragModel<WD>> {
        self.emitted@
    }

    /// The models of the fragments this iterator will still emit.
    pub closed spec fn remaining_out(&self) -> Seq<FragModel<WD>> {
        match self.next_phrase {
            Some(f) => seq![frag_model(f)] + spec_tokenize_from::<CP, WD>(
                self.spec_words(),
                self.text@,
                self.pos as int,
                None,
            ),
            None => spec_tokenize_from::<CP, WD>(
                self.spec_words(),
                self.text@,
                self.pos as int,
                match self.plain_cache {
                    Some(p) => Some(p as int),
                    None => None,
                },
            ),
        }
    }

    /// The high-priority attempt at the cursor: the annotation grammar,
    /// then the line-ending recognizer, then the three whitespace kinds.
    fn parse_high_priority_once(&self) -> (r: Option<(ParsedFragment<&'a str, &'a WD>, usize)>)
        requires
            self.wf(),
        ensures
            match r {
                Some((f, n)) => high_priority_match::<CP, WD>(
                    self.spec_text(),
                    self.pos as int,
                ) matches Some(p) && p.0 == n as int && p.1 == frag_model(f).phrase && f.fragment@
                    == self.spec_text().subrange(self.pos as int, self.pos + n) && 1 <= n
                    <= self.spec_text().len() - self.pos,
                None => high_priority_match::<CP, WD>(self.spec_text(), self.pos as int) is None,
            },
    {
        let len = self.text.unicode_len();
        let pos = self.pos;
        match CP::parse(self.text, pos) {
            Some((n, rp)) => {
                proof {
                    CP::lemma_parse_in_bounds(self.text@, pos as int);
                }
                let fragment = self.text.substring_char(pos, pos + n);
                Some((ParsedFragment { fragment, phrase: Phrase::Ruby(rp) }, n))
            },
            None => match new_line(self.text, pos) {
                Some((n, t)) => {
                    let fragment = self.text.substring_char(pos, pos + n);
                    Some(
                        (
                            ParsedFragment {
                                fragment,
                                phrase: Phrase::NewLine(NewLinePhrase { new_line_type: t }),
                            },
                            n,
                        ),
                    )
                },
                None => match space(self.text, pos) {
                    Some(n) => {
                        let fragment = self.text.substring_char(pos, pos + n);
                        Some(
                            (
                                ParsedFragment {
                                    fragment,
                                    phrase: Phrase::WhiteSpace(
                                        WhiteSpacePhrase {
                                            count: n,
                                            white_space_type: WhiteSpaceType::Space,
                                        },
                                    ),
                                },
                                n,
                            ),
                        )
                    },
                    None => match zenkaku_space(self.text, pos) {
                        Some(n) => {
                            let fragment = self.text.substring_char(pos, pos + n);
                            Some(
                                (
                                    ParsedFragment {
                                        fragment,
                                        phrase: Phrase::WhiteSpace(
                                            WhiteSpacePhrase {
                                                count: n,
                                                white_space_type: WhiteSpaceType::ZenkakuSpace,
                                            },
                                        ),
                                    },
                                    n,
                                ),
                            )
                        },
                        None => match tab(self.text, pos) {
                            Some(n) => {
                                let fragment = self.text.substring_char(pos, pos + n);
                                Some(
                                    (
                                        ParsedFragment {
                                            fragment,
                                            phrase: Phrase::WhiteSpace(
                                                WhiteSpacePhrase {
                                                    count: n,
                                                    white_space_type: WhiteSpaceType::Tab,
                                                },
                                            ),
                                        },
                                        n,
                                    ),
                                )
                            },
                            None => None,
                        },
                    },
                },
            },
        }
    }

    /// The structured attempt at the cursor: a high-priority match, or
    /// else the longest dictionary hit.
    fn parse_part_once(&self) -> (r: Option<(ParsedFragment<&'a str, &'a WD>, usize)>)
        requires
            self.wf(),
        ensures
            match r {
                Some((f, n)) => step_match::<CP, WD>(
                    self.spec_words(),
                    self.spec_text(),
                    self.pos as int,
                ) matches Some(p) && p.0 == n as int && p.1 == frag_model(f).phrase && f.fragment@
                    == self.spec_text().subrange(self.pos as int, self.pos + n) && 1 <= n
                    <= self.spec_text().len() - self.pos,
                None => step_match::<CP, WD>(self.spec_words(), self.spec_text(), self.pos as int)
                    is None,
            },
    {
        match self.parse_high_priority_once() {
            Some(r) => Some(r),
            None => {
                let len = self.text.unicode_len();
                match self.dictionary.lookup_at(self.text, self.pos) {
                    Some((w, l)) => {
                        let fragment = self.text.substring_char(self.pos, self.pos + l);
                        Some(
                            (
                                ParsedFragment {
                                    fragment,
                                    phrase: Phrase::DictionaryWord(
                                        DictionaryPhrase { target: fragment, word: w },
                                    ),
                                },
                                l,
                            ),
                        )
                    },
                    None => None,
                }
            },
        }
    }

    /// Produces the next fragment, or reports that the input is exhausted
    /// and nothing is pending. Each produced fragment is the head of
    /// `remaining_out`, which shrinks by exactly that fragment.
    pub fn next(&mut self) -> (r: Option<ParsedFragment<&'a str, &'a WD>>)
        requires
            old(self).wf(),
        ensures
            final(self).wf(),
            final(self).spec_text() == old(self).spec_text(),
            final(self).spec_words() == old(self).spec_words(),
            match r {
                Some(f) => {
                    &&& old(self).remaining_out().len() > 0
                    &&& frag_model(f) == old(self).remaining_out().first()
                    &&& final(self).remaining_out() == old(self).remaining_out().drop_first()
                    &&& final(self).emitted_out() == old(self).emitted_out().push(frag_model(f))
                },
                None => {
                    &&& old(self).remaining_out().len() == 0
                    &&& final(self).remaining_out().len() == 0
                    &&& final(self).emitted_out() == old(self).emitted_out()
                },
            },
    {
        let pending = self.next_phrase.take();
        if let Some(f) = pending {
            proof {
                assert(old(self).remaining_out().drop_first() =~= self.remaining_out());
                self.emitted@ = self.emitted@.push(frag_model(f));
            }
            return Some(f);
        }
        let len = self.text.unicode_len();
        loop
            invariant
                self.wf(),
                self.next_phrase is None,
                len == self.text@.len(),
                self.spec_text() == old(self).spec_text(),
                self.spec_words() == old(self).spec_words(),
                self.remaining_out() == old(self).remaining_out(),
                self.emitted_out() == old(self).emitted_out(),
            decreases len - self.pos,
        {
            let ghost ws = self.spec_words();
            let ghost s = self.spec_text();
            let ghost cur_pos = self.pos as int;
            let ghost cur_plain = match self.plain_cache {
                Some(p) => Some(p as int),
                None => None,
            };
            if self.pos < len {
                match self.parse_part_once() {
                    Some((f, n)) => {
                        proof {
                            lemma_step_match_bounds::<CP, WD>(ws, s, cur_pos);
                        }
                        match self.plain_cache {
                            Some(p) => {
                                let plain_str = self.text.substring_char(p, self.pos);
                                let pf = ParsedFragment {
                                    fragment: plain_str,
                                    phrase: Phrase::Plain(PlainPhrase { target: plain_str }),
                                };
                                self.plain_cache = None;
                                self.next_phrase = Some(f);
                                self.pos = self.pos + n;
                                proof {
                                    let rest = spec_tokenize_from::<CP, WD>(
                                        ws,
                                        s,
                                        cur_pos + n,
                                        None,
                                    );
                                    assert(old(self).remaining_out() =~= seq![frag_model(pf)]
                                        + seq![frag_model(f)] + rest);
                                    assert(old(self).remaining_out().first() == frag_model(pf));
                                    assert(self.remaining_out() =~= old(
                                        self,
                                    ).remaining_out().drop_first());
                                    self.emitted@ = self.emitted@.push(frag_model(pf));
                                }
                                return Some(pf);
                            },
                            None => {
                                self.pos = self.pos + n;
                                proof {
                                    let rest = spec_tokenize_from::<CP, WD>(
                                        ws,
                                        s,
                                        cur_pos + n,
                                        None,
                                    );
                                    assert(old(self).remaining_out() =~= seq![frag_model(f)]
                                        + rest);
                                    assert(old(self).remaining_out().first() == frag_model(f));
                                    assert(self.remaining_out() =~= old(
                                        self,
                                    ).remaining_out().drop_first());
                                    self.emitted@ = self.emitted@.push(frag_model(f));
                                }
                                return Some(f);
                            },
                        }
                    },
                    None => {
                        if self.plain_cache.is_none() {
                            self.plain_cache = Some(self.pos);
                        }
                        self.pos = self.pos + 1;
                        proof {
                            assert(self.remaining_out() == old(self).remaining_out());
                        }
                    },
                }
            } else {
                match self.plain_cache {
                    Some(p) => {
                        let plain_str = self.text.substring_char(p, self.pos);
                        let pf = ParsedFragment {
                            fragment: plain_str,
                            phrase: Phrase::Plain(PlainPhrase { target: plain_str }),
                        };
                        self.plain_cache = None;
                        proof {
                            assert(old(self).remaining_out() =~= seq![frag_model(pf)]);
                            assert(self.remaining_out() =~= old(
                                self,
                            ).remaining_out().drop_first());
                            self.emitted@ = self.emitted@.push(frag_model(pf));
                        }
                        return Some(pf);
                    },
                    None => {
                        proof {
                            assert(old(self).remaining_out().len() == 0);
                        }
                        return None;
                    },
                }
            }
        }
    }

    /// Runs the tokenizer to completion, returning every remaining
    /// fragment in emission order.
    pub fn collect_all(&mut self) -> (r: Vec<ParsedFragment<&'a str, &'a WD>>)
        requires
            old(self).wf(),
        ensures
            final(self).wf(),
            frag_models(r@) == old(self).remaining_out(),
            final(self).remaining_out().len() == 0,
            final(self).emitted_out() == old(self).emitted_out() + frag_models(r@),
            final(self).spec_text() == old(self).spec_text(),
            final(self).spec_words() == old(self).spec_words(),
    {
        let mut out: Vec<ParsedFragment<&'a str, &'a WD>> = Vec::new();
        proof {
            assert(frag_models(out@) =~= Seq::<FragModel<WD>>::empty());
        }
        loop
            invariant
                self.wf(),
                self.spec_text() == old(self).spec_text(),
                self.spec_words() == old(self).spec_words(),
                old(self).remaining_out() == frag_models(out@) + self.remaining_out(),
                self.emitted_out() == old(self).emitted_out() + frag_models(out@),
            decreases self.remaining_out().len(),
        {
            let ghost prev_out = out@;
            let ghost prev_rem = self.remaining_out();
            match self.next() {
                Some(f) => {
                    out.push(f);
                    proof {
                        assert(frag_models(out@) =~= frag_models(prev_out).push(frag_model(f)));
                        assert(frag_models(out@) + self.remaining_out() =~= frag_models(prev_out)
                            + prev_rem);
                        assert(old(self).emitted_out() + frag_models(out@) =~= old(
                            self,
                        ).emitted_out() + frag_models(prev_out) + seq![frag_model(f)]);
                        assert(self.emitted_out() =~= old(self).emitted_out() + frag_models(out@));
                    }
                },
                None => {
                    proof {
                        assert(frag_models(out@) + self.remaining_out() =~= frag_models(out@));
                    }
                    return out;
                },
            }
        }
    }
}

} // verus!
