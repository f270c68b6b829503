//! Canonical text rendering of phrase values.

use phrase_parser::{
    DictionaryPhrase, DictionaryWord, NewLinePhrase, NewLineType, Phrase, PlainPhrase, RubyPhrase,
    RubyType, WhiteSpacePhrase, WhiteSpaceType,
};

#[test]
fn white_space_display() {
    let s = WhiteSpacePhrase { count: 3, white_space_type: WhiteSpaceType::Space };
    assert_eq!(s.display_string(), "   ");
    let z = WhiteSpacePhrase { count: 4, white_space_type: WhiteSpaceType::ZenkakuSpace };
    assert_eq!(z.display_string(), "　　　　");
    let t = WhiteSpacePhrase { count: 2, white_space_type: WhiteSpaceType::Tab };
    assert_eq!(t.display_string(), "\t\t");
}

#[test]
fn new_line_display() {
    assert_eq!(NewLinePhrase { new_line_type: NewLineType::Lf }.display_string(), "\n");
    assert_eq!(NewLinePhrase { new_line_type: NewLineType::CrLf }.display_string(), "\r\n");
}

#[test]
fn plain_display() {
    assert_eq!(PlainPhrase { target: "あいうえお" }.display_string(), "あいうえお");
    assert_eq!(PlainPhrase { target: "漢字" }.display_string(), "漢字");
}

#[test]
fn dictionary_display() {
    let w = DictionaryWord::new("key".into(), "ruby".into(), "desc".into());
    let dp = DictionaryPhrase { target: "あいうえお", word: &w };
    assert_eq!(dp.display_string(), "あいうえお");
}

#[test]
fn ruby_display() {
    let inst = RubyPhrase { target: "あいうえお", ruby: "ｱｲｳｴｵ", ruby_type: RubyType::Instruction };
    assert_eq!(inst.display_string(), "|あいうえお《ｱｲｳｴｵ》");
    let inst2 = RubyPhrase { target: "漢字", ruby: "かんじ", ruby_type: RubyType::Instruction };
    assert_eq!(inst2.display_string(), "|漢字《かんじ》");
    let bare = RubyPhrase { target: "漢字", ruby: "かんじ", ruby_type: RubyType::KanjiWithRuby };
    assert_eq!(bare.display_string(), "漢字《かんじ》");
}

#[test]
fn phrase_display_dispatch() {
    let w = DictionaryWord::new("key".into(), "ruby".into(), "desc".into());
    let cases: Vec<(Phrase<&str, &DictionaryWord>, &str)> = vec![
        (
            Phrase::Ruby(RubyPhrase {
                target: "あいうえお",
                ruby: "ｱｲｳｴｵ",
                ruby_type: RubyType::Instruction,
            }),
            "|あいうえお《ｱｲｳｴｵ》",
        ),
        (
            Phrase::DictionaryWord(DictionaryPhrase { target: "あいうえお", word: &w }),
            "あいうえお",
        ),
        (Phrase::NewLine(NewLinePhrase { new_line_type: NewLineType::Lf }), "\n"),
        (
            Phrase::WhiteSpace(WhiteSpacePhrase {
                count: 3,
                white_space_type: WhiteSpaceType::Tab,
            }),
            "\t\t\t",
        ),
        (Phrase::Plain(PlainPhrase { target: "あいうえお" }), "あいうえお"),
    ];
    for (phrase, expected) in cases {
        assert_eq!(phrase.display_string(), expected);
    }
}
