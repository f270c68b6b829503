//! The stateless recognizers, each probed directly at a position.

use phrase_parser::parser::recognizers::chars::{
    is_caride_retrun, is_end_ruby, is_ideographic_variation_sequence, is_kanji, is_line_feed,
    is_new_line_escape, is_space, is_start_instruction, is_start_ruby, is_tab, is_zenkaku_space,
};
use phrase_parser::parser::recognizers::new_line::new_line;
use phrase_parser::parser::recognizers::ruby::{kanji_ruby, ruby_instruction};
use phrase_parser::parser::recognizers::white_space::{space, tab, zenkaku_space};
use phrase_parser::{NewLineType, RubyPhrase, RubyType};

#[test]
fn char_classes() {
    assert!(is_space(' ') && !is_space('　') && !is_space('\t') && !is_space('a'));
    assert!(is_zenkaku_space('　') && !is_zenkaku_space(' '));
    assert!(is_tab('\t') && !is_tab(' '));
    assert!(is_start_instruction('|') && is_start_instruction('｜') && !is_start_instruction('('));
    assert!(is_start_ruby('(') && is_start_ruby('（') && is_start_ruby('《') && is_start_ruby('⟪'));
    assert!(!is_start_ruby(')') && !is_start_ruby('》'));
    assert!(is_end_ruby(')') && is_end_ruby('）') && is_end_ruby('》') && is_end_ruby('⟫'));
    assert!(!is_end_ruby('(') && !is_end_ruby('《'));
    assert!(is_new_line_escape('\r') && is_new_line_escape('\n') && !is_new_line_escape('a'));
    assert!(is_line_feed('\n') && !is_line_feed('\r'));
    assert!(is_caride_retrun('\r') && !is_caride_retrun('\n'));
    assert!(is_kanji('漢') && is_kanji('炎') && !is_kanji('あ') && !is_kanji('a'));
    assert!(is_ideographic_variation_sequence('\u{e0100}'));
    assert!(!is_ideographic_variation_sequence('あ'));
}

#[test]
fn new_line_matches_only_at_position() {
    assert_eq!(new_line("\n", 0), Some((1, NewLineType::Lf)));
    assert_eq!(new_line("\r\n", 0), Some((2, NewLineType::CrLf)));
    assert_eq!(new_line("\naaa", 0), Some((1, NewLineType::Lf)));
    assert_eq!(new_line("\nあいうえお", 0), Some((1, NewLineType::Lf)));
    assert_eq!(new_line("aaaa\n", 0), None);
    assert_eq!(new_line("aaaa\n", 4), Some((1, NewLineType::Lf)));
    assert_eq!(new_line("\r", 0), None);
    assert_eq!(new_line("\ra", 0), None);
}

#[test]
fn white_space_runs_are_maximal_and_single_kind() {
    assert_eq!(space("  ", 0), Some(2));
    assert_eq!(space("  aaa", 0), Some(2));
    assert_eq!(space("  あいうえお", 0), Some(2));
    assert_eq!(space("　　", 0), None);
    assert_eq!(space("\t\t", 0), None);
    assert_eq!(space("aaa  ", 0), None);
    assert_eq!(zenkaku_space("　　", 0), Some(2));
    assert_eq!(zenkaku_space("　　aaa", 0), Some(2));
    assert_eq!(zenkaku_space("  ", 0), None);
    assert_eq!(tab("\t\t", 0), Some(2));
    assert_eq!(tab("\t\tあ", 0), Some(2));
    assert_eq!(tab("  ", 0), None);
    assert_eq!(tab("aaa\t", 0), None);
}

#[test]
fn ruby_instruction_forms() {
    let hit = |target: &'static str, ruby: &'static str, n: usize| {
        Some((n, RubyPhrase { target, ruby, ruby_type: RubyType::Instruction }))
    };
    assert_eq!(ruby_instruction("|玄人(くろうと)", 0), hit("玄人", "くろうと", 9));
    assert_eq!(ruby_instruction("|玄人《くろうと》", 0), hit("玄人", "くろうと", 9));
    assert_eq!(ruby_instruction("|玄人《くろうと)", 0), hit("玄人", "くろうと", 9));
    assert_eq!(ruby_instruction("|玄人《)", 0), hit("玄人", "", 5));
    assert_eq!(ruby_instruction("|玄人(くろうと)ありうど", 0), hit("玄人", "くろうと", 9));
    assert_eq!(ruby_instruction("あいうえお|玄人(くろうと)", 0), None);
    assert_eq!(ruby_instruction("あいうえお|玄人(くろうと)", 5), hit("玄人", "くろうと", 9));
    assert_eq!(ruby_instruction("|玄\n人(くろうと)", 0), None);
    assert_eq!(ruby_instruction("|玄人\n(くろうと)", 0), None);
    assert_eq!(ruby_instruction("|玄人(くろ\nうと)", 0), None);
    assert_eq!(ruby_instruction("|(くろうと)", 0), None);
}

#[test]
fn kanji_ruby_forms() {
    let hit = |target: &'static str, ruby: &'static str, n: usize| {
        Some((n, RubyPhrase { target, ruby, ruby_type: RubyType::KanjiWithRuby }))
    };
    assert_eq!(kanji_ruby("玄人(くろうと)", 0), hit("玄人", "くろうと", 8));
    assert_eq!(kanji_ruby("玄人《くろうと》", 0), hit("玄人", "くろうと", 8));
    assert_eq!(kanji_ruby("玄人《くろうと)", 0), hit("玄人", "くろうと", 8));
    assert_eq!(kanji_ruby("玄人(くろうと)ありうど", 0), hit("玄人", "くろうと", 8));
    assert_eq!(kanji_ruby("あいうえお玄人(くろうと)", 0), None);
    assert_eq!(kanji_ruby("|玄人(くろうと)", 0), None);
    assert_eq!(kanji_ruby("玄人(くろ\nうと)", 0), None);
    // The bare form is meaningless without a reading.
    assert_eq!(kanji_ruby("玄人《)", 0), None);
    // A variation selector stays attached to its base character.
    assert_eq!(kanji_ruby("葛󠄀(かずら)", 0), hit("葛󠄀", "かずら", 7));
}
