//! End-to-end tokenizer behaviour: priority order, deferred plain-text
//! buffering, and the round-trip invariant.

use phrase_parser::parser::{ParsedFragment, Parser};
use phrase_parser::{
    DictionaryPhrase, DictionaryWord, NewLinePhrase, NewLineType, Phrase, PlainPhrase, RubyPhrase,
    RubyType, WhiteSpacePhrase, WhiteSpaceType,
};

fn collect<'a>(
    parser: &'a Parser,
    text: &'a str,
) -> Vec<ParsedFragment<&'a str, &'a DictionaryWord>> {
    let mut it = parser.parse_iter(text);
    it.collect_all()
}

#[test]
fn instruction_ruby_after_plain_line() {
    let parser = Parser::default();
    let got = collect(&parser, "大砲を撃て\n|大砲(たいほう)\n");
    let expected = vec![
        ParsedFragment {
            fragment: "大砲を撃て",
            phrase: Phrase::Plain(PlainPhrase { target: "大砲を撃て" }),
        },
        ParsedFragment {
            fragment: "\n",
            phrase: Phrase::NewLine(NewLinePhrase { new_line_type: NewLineType::Lf }),
        },
        ParsedFragment {
            fragment: "|大砲(たいほう)",
            phrase: Phrase::Ruby(RubyPhrase {
                target: "大砲",
                ruby: "たいほう",
                ruby_type: RubyType::Instruction,
            }),
        },
        ParsedFragment {
            fragment: "\n",
            phrase: Phrase::NewLine(NewLinePhrase { new_line_type: NewLineType::Lf }),
        },
    ];
    assert_eq!(got, expected);
}

#[test]
fn dictionary_phrase_then_plain() {
    let w = DictionaryWord::new("大砲".into(), "たいほう".into(), "foo".into());
    let parser = Parser::try_new_with_dic(vec![w.clone()]).unwrap();
    let got = collect(&parser, "大砲を撃て");
    let expected = vec![
        ParsedFragment {
            fragment: "大砲",
            phrase: Phrase::DictionaryWord(DictionaryPhrase { target: "大砲", word: &w }),
        },
        ParsedFragment {
            fragment: "を撃て",
            phrase: Phrase::Plain(PlainPhrase { target: "を撃て" }),
        },
    ];
    assert_eq!(got, expected);
}

#[test]
fn dictionary_miss_is_one_plain_phrase() {
    let words = vec![
        DictionaryWord::new("炎".into(), "ほのお".into(), "a".into()),
        DictionaryWord::new("炎炎".into(), "えんえん".into(), "b".into()),
        DictionaryWord::new("延々".into(), "えんえん".into(), "c".into()),
    ];
    let parser = Parser::try_new_with_dic(words).unwrap();
    let got = collect(&parser, "水水の水");
    assert_eq!(got.len(), 1);
    assert_eq!(*got[0].fragment(), "水水の水");
    assert!(matches!(got[0].phrase(), Phrase::Plain(_)));
}

#[test]
fn dictionary_longest_match_in_stream() {
    let words = vec![
        DictionaryWord::new("炎".into(), "ほのお".into(), "a".into()),
        DictionaryWord::new("炎炎".into(), "えんえん".into(), "b".into()),
        DictionaryWord::new("延々".into(), "えんえん".into(), "c".into()),
    ];
    let parser = Parser::try_new_with_dic(words).unwrap();
    let got = collect(&parser, "炎炎の炎");
    assert_eq!(got.len(), 3);
    assert_eq!(*got[0].fragment(), "炎炎");
    assert!(matches!(got[0].phrase(), Phrase::DictionaryWord(_)));
    assert_eq!(*got[1].fragment(), "の");
    assert!(matches!(got[1].phrase(), Phrase::Plain(_)));
    assert_eq!(*got[2].fragment(), "炎");
    assert!(matches!(got[2].phrase(), Phrase::DictionaryWord(_)));
}

#[test]
fn whitespace_runs_split_by_kind() {
    let parser = Parser::default();
    let got = collect(&parser, "  \t\t");
    let expected = vec![
        ParsedFragment {
            fragment: "  ",
            phrase: Phrase::WhiteSpace(WhiteSpacePhrase {
                count: 2,
                white_space_type: WhiteSpaceType::Space,
            }),
        },
        ParsedFragment {
            fragment: "\t\t",
            phrase: Phrase::WhiteSpace(WhiteSpacePhrase {
                count: 2,
                white_space_type: WhiteSpaceType::Tab,
            }),
        },
    ];
    assert_eq!(got, expected);
}

#[test]
fn zenkaku_space_run_counts_characters() {
    let parser = Parser::default();
    let got = collect(&parser, "　　　あ");
    assert_eq!(
        *got[0].phrase(),
        Phrase::WhiteSpace(WhiteSpacePhrase {
            count: 3,
            white_space_type: WhiteSpaceType::ZenkakuSpace,
        })
    );
    assert_eq!(*got[1].fragment(), "あ");
}

#[test]
fn newline_kinds() {
    let parser = Parser::default();
    let lf = collect(&parser, "\n");
    assert_eq!(
        *lf[0].phrase(),
        Phrase::NewLine(NewLinePhrase { new_line_type: NewLineType::Lf })
    );
    let crlf = collect(&parser, "\r\n");
    assert_eq!(crlf.len(), 1);
    assert_eq!(
        *crlf[0].phrase(),
        Phrase::NewLine(NewLinePhrase { new_line_type: NewLineType::CrLf })
    );
    let bare_cr = collect(&parser, "\rあ");
    assert_eq!(bare_cr.len(), 1);
    assert_eq!(*bare_cr[0].fragment(), "\rあ");
    assert!(matches!(bare_cr[0].phrase(), Phrase::Plain(_)));
}

#[test]
fn kanji_ruby_without_marker() {
    let parser = Parser::default();
    let got = collect(&parser, "玄人(くろうと)ありうど");
    assert_eq!(got.len(), 2);
    assert_eq!(
        *got[0].phrase(),
        Phrase::Ruby(RubyPhrase {
            target: "玄人",
            ruby: "くろうと",
            ruby_type: RubyType::KanjiWithRuby,
        })
    );
    assert_eq!(*got[0].fragment(), "玄人(くろうと)");
    assert_eq!(*got[1].fragment(), "ありうど");
}

#[test]
fn kanji_ruby_with_empty_reading_is_plainish() {
    // The bare form is meaningless without a reading, so it does not
    // match; the instruction form with an empty reading does.
    let parser = Parser::default();
    let bare = collect(&parser, "玄人《》");
    assert!(bare.iter().all(|f| !matches!(f.phrase(), Phrase::Ruby(_))));
    let instr = collect(&parser, "|玄人《》");
    assert_eq!(
        *instr[0].phrase(),
        Phrase::Ruby(RubyPhrase { target: "玄人", ruby: "", ruby_type: RubyType::Instruction })
    );
}

#[test]
fn instruction_ruby_never_spans_lines() {
    let parser = Parser::default();
    let got = collect(&parser, "|大砲\n(たいほう)");
    assert!(matches!(got[0].phrase(), Phrase::Plain(_)));
    assert_eq!(*got[0].fragment(), "|大砲");
    assert_eq!(
        *got[1].phrase(),
        Phrase::NewLine(NewLinePhrase { new_line_type: NewLineType::Lf })
    );
}

#[test]
fn mixed_bracket_pairs_accepted() {
    let parser = Parser::default();
    let got = collect(&parser, "|玄人《くろうと)");
    assert_eq!(
        *got[0].phrase(),
        Phrase::Ruby(RubyPhrase {
            target: "玄人",
            ruby: "くろうと",
            ruby_type: RubyType::Instruction,
        })
    );
}

#[test]
fn full_width_marker_and_brackets() {
    let parser = Parser::default();
    let got = collect(&parser, "｜大砲（たいほう）");
    assert_eq!(got.len(), 1);
    assert_eq!(
        *got[0].phrase(),
        Phrase::Ruby(RubyPhrase {
            target: "大砲",
            ruby: "たいほう",
            ruby_type: RubyType::Instruction,
        })
    );
}

#[test]
fn crlf_between_phrases() {
    let parser = Parser::default();
    let got = collect(&parser, "a\r\nb");
    assert_eq!(got.len(), 3);
    assert_eq!(*got[0].fragment(), "a");
    assert_eq!(
        *got[1].phrase(),
        Phrase::NewLine(NewLinePhrase { new_line_type: NewLineType::CrLf })
    );
    assert_eq!(*got[2].fragment(), "b");
}

#[test]
fn terminator_character_falls_through_to_plain() {
    let words = vec![
        DictionaryWord::new("ab".into(), "x".into(), "short".into()),
        DictionaryWord::new("abc".into(), "y".into(), "long".into()),
    ];
    let parser = Parser::try_new_with_dic(words).unwrap();
    let text = "ab\u{ffff}z";
    let got = collect(&parser, text);
    assert_eq!(got.len(), 2);
    assert_eq!(*got[0].fragment(), "ab");
    assert!(matches!(got[0].phrase(), Phrase::DictionaryWord(_)));
    assert_eq!(*got[1].fragment(), "\u{ffff}z");
    assert!(matches!(got[1].phrase(), Phrase::Plain(_)));
    let rebuilt: String = got.iter().map(|f| *f.fragment()).collect();
    assert_eq!(rebuilt, text);
}

#[test]
fn round_trip_reconstructs_input() {
    let words = vec![
        DictionaryWord::new("大砲".into(), "たいほう".into(), "x".into()),
        DictionaryWord::new("砲".into(), "ほう".into(), "y".into()),
    ];
    let parser = Parser::try_new_with_dic(words).unwrap();
    let inputs = [
        "大砲を撃て\n|大砲(たいほう)\n",
        "  \t\t　　炎",
        "水水の水",
        "玄人(くろうと)ありうど\r\n砲撃\r",
        "",
        "\r",
        "|",
    ];
    for input in inputs {
        let got = collect(&parser, input);
        let rebuilt: String = got.iter().map(|f| *f.fragment()).collect();
        assert_eq!(rebuilt, input);
    }
}

#[test]
fn no_adjacent_plain_and_no_empty_fragment() {
    let parser = Parser::try_new_with_dic(vec![DictionaryWord::new(
        "砲".into(),
        "ほう".into(),
        "y".into(),
    )])
    .unwrap();
    let inputs = ["水の砲の水 x\nyz", "あ い　う\tえ\r\nお", "砲砲砲あ砲"];
    for input in inputs {
        let got = collect(&parser, input);
        for f in &got {
            assert!(!f.fragment().is_empty());
        }
        for pair in got.windows(2) {
            assert!(
                !(matches!(pair[0].phrase(), Phrase::Plain(_))
                    && matches!(pair[1].phrase(), Phrase::Plain(_)))
            );
        }
    }
}

#[test]
fn iterator_is_lazy_and_finishes() {
    let parser = Parser::default();
    let mut it = parser.parse_iter("あ\n");
    let first = it.next().unwrap();
    assert_eq!(*first.fragment(), "あ");
    let second = it.next().unwrap();
    assert_eq!(*second.fragment(), "\n");
    assert!(it.next().is_none());
    assert!(it.next().is_none());
}

#[test]
fn parse_all_matches_iteration() {
    let parser = Parser::default();
    let text = "大砲を撃て\n|大砲(たいほう)\n";
    let all = parser.parse_all(text);
    let iterated = collect(&parser, text);
    assert_eq!(all, iterated);
    let rebuilt: String = all.iter().map(|f| *f.fragment()).collect();
    assert_eq!(rebuilt, text);
}

#[test]
fn parser_from_prepared_matches_compiled() {
    let words = vec![DictionaryWord::new("大砲".into(), "たいほう".into(), "foo".into())];
    let pd = phrase_parser::PreparedDictionary::prepare(words.clone()).unwrap();
    let loaded = Parser::try_from(pd).unwrap();
    let direct = Parser::try_new_with_dic(words).unwrap();
    let a = collect(&loaded, "大砲を撃て");
    let b = collect(&direct, "大砲を撃て");
    assert_eq!(a, b);
    assert_eq!(*a[0].fragment(), "大砲");
    assert!(matches!(a[0].phrase(), Phrase::DictionaryWord(_)));
}
