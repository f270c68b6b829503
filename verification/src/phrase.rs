//! The closed set of phrase variants that the tokenizer emits.
//!
//! Each phrase carries only borrowed spans of the original input (or small
//! value data); no phrase owns a copy of the source text. `PhraseModel` is
//! the mathematical counterpart used by contracts: it replaces borrowed
//! spans with character sequences and word references with word values.

use vstd::prelude::*;

verus! {

/// How a ruby (reading) annotation was written in the source.
#[derive(Copy, Clone, PartialEq, Eq, Structural, Debug)]
pub enum RubyType {
    /// An explicit `|target(reading)` instruction.
    Instruction,
    /// A bare kanji run directly followed by a bracketed reading.
    KanjiWithRuby,
}

/// A target span together with its reading.
#[derive(Clone, PartialEq, Debug)]
pub struct RubyPhrase<S> {
    pub target: S,
    pub ruby: S,
    pub ruby_type: RubyType,
}

/// A span matched by the dictionary, with a reference to the matched word.
#[derive(Clone, PartialEq, Debug)]
pub struct DictionaryPhrase<S, DW> {
    pub target: S,
    pub word: DW,
}

/// A run of text in which nothing else matched.
#[derive(Clone, PartialEq, Debug)]
pub struct PlainPhrase<S> {
    pub target: S,
}

/// Which line-ending sequence matched.
#[derive(Copy, Clone, PartialEq, Eq, Structural, Debug)]
pub enum NewLineType {
    Lf,
    CrLf,
}

/// A single line break.
#[derive(Copy, Clone, PartialEq, Eq, Structural, Debug)]
pub struct NewLinePhrase {
    pub new_line_type: NewLineType,
}

/// Which whitespace character a run consists of.
#[derive(Copy, Clone, PartialEq, Eq, Structural, Debug)]
pub enum WhiteSpaceType {
    Space,
    ZenkakuSpace,
    Tab,
}

/// A maximal run of one whitespace kind, with its character count.
#[derive(Copy, Clone, PartialEq, Eq, Structural, Debug)]
pub struct WhiteSpacePhrase {
    pub count: usize,
    pub white_space_type: WhiteSpaceType,
}

/// One emitted phrase.
#[derive(Clone, PartialEq, Debug)]
pub enum Phrase<S, DW> {
    Ruby(RubyPhrase<S>),
    DictionaryWord(DictionaryPhrase<S, DW>),
    NewLine(NewLinePhrase),
    WhiteSpace(WhiteSpacePhrase),
    Plain(PlainPhrase<S>),
}

/// The canonical text form of a ruby annotation: the instruction marker
/// for the instruction form, then the target, then the reading in
/// full-width guillemets.
pub open spec fn spec_ruby_display(target: Seq<char>, ruby: Seq<char>, t: RubyType) -> Seq<char> {
    let tail = target + "\u{300a}"@ + ruby + "\u{300b}"@;
    match t {
        RubyType::Instruction => "|"@ + tail,
        RubyType::KanjiWithRuby => tail,
    }
}

impl<'s> RubyPhrase<&'s str> {
    /// Renders the annotation in its canonical text form.
    pub fn display_string(&self) -> (r: String)
        ensures
            r@ == spec_ruby_display(self.target@, self.ruby@, self.ruby_type),
    {
        let mut out = String::new();
        match self.ruby_type {
            RubyType::Instruction => out.append("|"),
            RubyType::KanjiWithRuby => (),
        }
        out.append(self.target);
        out.append("\u{300a}");
        out.append(self.ruby);
        out.append("\u{300b}");
        proof {
            assert(out@ =~= spec_ruby_display(self.target@, self.ruby@, self.ruby_type));
        }
        out
    }
}

/// The text form of a line break.
pub open spec fn spec_new_line_display(t: NewLineType) -> Seq<char> {
    match t {
        NewLineType::Lf => "\n"@,
        NewLineType::CrLf => "\r\n"@,
    }
}

impl NewLinePhrase {
    /// Renders the line break it stands for.
    pub fn display_string(&self) -> (r: String)
        ensures
            r@ == spec_new_line_display(self.new_line_type),
    {
        let mut out = String::new();
        match self.new_line_type {
            NewLineType::Lf => out.append("\n"),
            NewLineType::CrLf => out.append("\r\n"),
        }
        proof {
            assert(out@ =~= spec_new_line_display(self.new_line_type));
        }
        out
    }
}

/// The whitespace character each run kind consists of.
pub open spec fn spec_white_space_char(t: WhiteSpaceType) -> char {
    match t {
        WhiteSpaceType::Space => ' ',
        WhiteSpaceType::ZenkakuSpace => '\u{3000}',
        WhiteSpaceType::Tab => '\t',
    }
}

/// `n` repetitions of the run's whitespace character.
pub open spec fn spec_white_space_display(t: WhiteSpaceType, n: int) -> Seq<char>
    decreases n,
{
    if n <= 0 {
        Seq::empty()
    } else {
        spec_white_space_display(t, n - 1) + seq![spec_white_space_char(t)]
    }
}

impl WhiteSpacePhrase {
    /// Renders the run: its character repeated `count` times.
    pub fn display_string(&self) -> (r: String)
        ensures
            r@ == spec_white_space_display(self.white_space_type, self.count as int),
    {
        let lit: &'static str = match self.white_space_type {
            WhiteSpaceType::Space => " ",
            WhiteSpaceType::ZenkakuSpace => "\u{3000}",
            WhiteSpaceType::Tab => "\t",
        };
        proof {
            reveal_strlit(" ");
            reveal_strlit("\u{3000}");
            reveal_strlit("\t");
            assert(lit@ =~= seq![spec_white_space_char(self.white_space_type)]);
        }
        let mut out = String::new();
        let mut i: usize = 0;
        while i < self.count
            invariant
                i <= self.count,
                lit@ == seq![spec_white_space_char(self.white_space_type)],
                out@ == spec_white_space_display(self.white_space_type, i as int),
            decreases self.count - i,
        {
            out.append(lit);
            i = i + 1;
        }
        out
    }
}

impl<'s> PlainPhrase<&'s str> {
    /// Renders the span it borrows.
    pub fn display_string(&self) -> (r: String)
        ensures
            r@ == self.target@,
    {
        let mut out = String::new();
        out.append(self.target);
        out
    }
}

impl<'s, DW> DictionaryPhrase<&'s str, DW> {
    /// Renders the matched span; the word reference adds nothing to the
    /// text form.
    pub fn display_string(&self) -> (r: String)
        ensures
            r@ == self.target@,
    {
        let mut out = String::new();
        out.append(self.target);
        out
    }
}

/// The canonical text form of any phrase.
pub open spec fn spec_phrase_display<DW>(p: Phrase<&str, DW>) -> Seq<char> {
    match p {
        Phrase::Ruby(rp) => spec_ruby_display(rp.target@, rp.ruby@, rp.ruby_type),
        Phrase::DictionaryWord(dp) => dp.target@,
        Phrase::NewLine(np) => spec_new_line_display(np.new_line_type),
        Phrase::WhiteSpace(wp) => spec_white_space_display(wp.white_space_type, wp.count as int),
        Phrase::Plain(pp) => pp.target@,
    }
}

impl<'s, DW> Phrase<&'s str, DW> {
    /// Renders the phrase in its canonical text form.
    pub fn display_string(&self) -> (r: String)
        ensures
            r@ == spec_phrase_display(*self),
    {
        match self {
            Phrase::Ruby(rp) => rp.display_string(),
            Phrase::DictionaryWord(dp) => dp.display_string(),
            Phrase::NewLine(np) => np.display_string(),
            Phrase::WhiteSpace(wp) => wp.display_string(),
            Phrase::Plain(pp) => pp.display_string(),
        }
    }
}

/// The mathematical model of a ruby annotation: target and reading as
/// character sequences.
pub struct RubyModel {
    pub target: Seq<char>,
    pub ruby: Seq<char>,
    pub ruby_type: RubyType,
}

/// The mathematical model of a phrase: spans as character sequences and the
/// dictionary reference as the referenced word's value.
pub enum PhraseModel<WD> {
    Ruby { target: Seq<char>, ruby: Seq<char>, ruby_type: RubyType },
    Word { target: Seq<char>, word: WD },
    NewLine { new_line_type: NewLineType },
    WhiteSpace { count: nat, white_space_type: WhiteSpaceType },
    Plain { target: Seq<char> },
}

/// The model of a phrase whose spans are string slices and whose dictionary
/// reference borrows a word.
pub open spec fn phrase_model<S: View<V = Seq<char>>, WD>(p: Phrase<S, &WD>) -> PhraseModel<WD> {
    match p {
        Phrase::Ruby(rp) => PhraseModel::Ruby {
            target: rp.target@,
            ruby: rp.ruby@,
            ruby_type: rp.ruby_type,
        },
        Phrase::DictionaryWord(dp) => PhraseModel::Word { target: dp.target@, word: *dp.word },
        Phrase::NewLine(np) => PhraseModel::NewLine { new_line_type: np.new_line_type },
        Phrase::WhiteSpace(wp) => PhraseModel::WhiteSpace {
            count: wp.count as nat,
            white_space_type: wp.white_space_type,
        },
        Phrase::Plain(pp) => PhraseModel::Plain { target: pp.target@ },
    }
}

} // verus!
