//! Dictionary compilation, lookup, and persistence behaviour.

use phrase_parser::parser::general_parser::DictionaryWordContainer;
use phrase_parser::parser::parse_dictionary::DoubleArrayDictionary;
use phrase_parser::{DictionaryWord, DictionaryWordKeyPhrase, PreparedDictionary};

fn flame_words() -> Vec<DictionaryWord> {
    vec![
        DictionaryWord::new("炎".into(), "ほのお".into(), "火火".into()),
        DictionaryWord::new("炎炎".into(), "えんえん".into(), "火火火火".into()),
        DictionaryWord::new("炎炎炎".into(), "えんえんえん".into(), "火火火火火火".into()),
        DictionaryWord::new("延々".into(), "えんえん".into(), "えんえんえん".into()),
    ]
}

#[test]
fn longest_match_wins() {
    let dic = DoubleArrayDictionary::try_new(flame_words()).unwrap();
    let hit = dic.get("炎炎の炎").expect("expected a hit");
    assert_eq!(hit.key().as_str(), "炎炎");
    assert_eq!(hit.description().as_str(), "火火火火");
}

#[test]
fn miss_on_absent_prefix() {
    let dic = DoubleArrayDictionary::try_new(flame_words()).unwrap();
    assert!(dic.get("水水の水").is_none());
    assert!(dic.get("水炎炎の炎").is_none());
}

#[test]
fn lookup_exact_full_key_only() {
    let dic = DoubleArrayDictionary::try_new(flame_words()).unwrap();
    assert_eq!(dic.lookup_exact("炎炎").unwrap().key().as_str(), "炎炎");
    assert_eq!(dic.lookup_exact("延々").unwrap().key().as_str(), "延々");
    assert!(dic.lookup_exact("炎炎の").is_none());
    assert!(dic.lookup_exact("").is_none());
    assert!(dic.lookup_exact("水").is_none());
}

#[test]
fn empty_word_list_always_misses() {
    let dic = DoubleArrayDictionary::<DictionaryWord>::try_new(vec![]).unwrap();
    assert!(dic.get("炎").is_none());
    assert!(dic.serialize().is_none());
}

#[test]
fn empty_keys_are_tolerated() {
    let words = vec![
        DictionaryWord::new("".into(), "".into(), "empty".into()),
        DictionaryWord::new("砲".into(), "ほう".into(), "cannon".into()),
    ];
    let dic = DoubleArrayDictionary::try_new(words).unwrap();
    assert_eq!(dic.get("砲撃").unwrap().description().as_str(), "cannon");
    assert!(dic.get("").is_none());
}

#[test]
fn duplicate_keys_later_word_wins() {
    let words = vec![
        DictionaryWord::new("砲".into(), "ほう".into(), "first".into()),
        DictionaryWord::new("砲".into(), "ほう".into(), "second".into()),
    ];
    let dic = DoubleArrayDictionary::try_new(words).unwrap();
    assert_eq!(dic.get("砲").unwrap().description().as_str(), "second");
    assert_eq!(dic.lookup_exact("砲").unwrap().description().as_str(), "second");
}

#[test]
fn terminator_character_in_text_is_never_a_match() {
    // The trie stores a key that is a proper prefix of another by
    // extending it internally with U+FFFF; a U+FFFF in the text itself
    // must not surface as a longer match.
    let words = vec![
        DictionaryWord::new("ab".into(), "x".into(), "short".into()),
        DictionaryWord::new("abc".into(), "y".into(), "long".into()),
    ];
    let dic = DoubleArrayDictionary::try_new(words).unwrap();
    let text = "ab\u{ffff}";
    let hit = dic.get(text).expect("expected the short key");
    assert_eq!(hit.key().as_str(), "ab");
    assert!(dic.lookup_exact(text).is_none());
    assert_eq!(dic.lookup_exact("ab").unwrap().description().as_str(), "short");
    assert_eq!(dic.lookup_exact("abc").unwrap().description().as_str(), "long");
    assert!(dic.get("\u{ffff}ab").is_none());
}

#[test]
fn key_containing_terminator_fails_compilation() {
    let words = vec![DictionaryWord::new("a\u{ffff}b".into(), "x".into(), "bad".into())];
    let r = DoubleArrayDictionary::try_new(words);
    assert!(matches!(
        r,
        Err(phrase_parser::parser::Error::CreateDictionary(_))
    ));
}

#[test]
fn prepare_stamps_current_version() {
    let pd = PreparedDictionary::prepare(flame_words()).unwrap();
    assert_eq!(pd.format_version(), "1.0.0");
    assert_eq!(pd.words().len(), 4);
    assert!(!pd.trie_vec().is_empty());
}

#[test]
fn prepare_fails_without_any_key() {
    let r = PreparedDictionary::<DictionaryWord>::prepare(vec![]);
    assert!(matches!(r, Err(phrase_parser::parser::Error::SerializeDictionary)));
    let r2 = PreparedDictionary::prepare(vec![DictionaryWord::new(
        "".into(),
        "".into(),
        "x".into(),
    )]);
    assert!(matches!(r2, Err(phrase_parser::parser::Error::SerializeDictionary)));
}

#[test]
fn error_messages() {
    let r = PreparedDictionary::<DictionaryWord>::prepare(vec![]);
    match r {
        Err(e) => assert_eq!(e.message(), "failed to serialize the dictionary"),
        Ok(_) => panic!("expected an error"),
    }
}

#[test]
fn prepared_round_trip_lookups_agree() {
    let direct = DoubleArrayDictionary::try_new(flame_words()).unwrap();
    let pd = PreparedDictionary::prepare(flame_words()).unwrap();
    let loaded = DoubleArrayDictionary::try_from(pd).unwrap();
    for w in flame_words() {
        let a = direct.lookup_exact(w.key().as_str()).map(|x| x.description().clone());
        let b = loaded.lookup_exact(w.key().as_str()).map(|x| x.description().clone());
        assert_eq!(a, b);
    }
    for probe in ["炎炎の炎", "水水の水", "延々と", "炎"] {
        let a = direct.get(probe).map(|x| x.key().clone());
        let b = loaded.get(probe).map(|x| x.key().clone());
        assert_eq!(a, b);
    }
}

#[test]
fn from_parts_of_other_version_recompiles() {
    let pd = PreparedDictionary::from_parts(
        "0.0.1".to_string(),
        flame_words(),
        vec![0xde, 0xad, 0xbe, 0xef],
    )
    .unwrap();
    assert_eq!(pd.format_version(), "0.0.1");
    let loaded = DoubleArrayDictionary::try_from(pd).unwrap();
    assert_eq!(loaded.get("炎炎の炎").unwrap().key().as_str(), "炎炎");
}

#[test]
fn from_parts_of_current_version_reprepares() {
    let pd0 = PreparedDictionary::prepare(flame_words()).unwrap();
    let version = pd0.format_version().to_string();
    let words = pd0.words().clone();
    let bytes = pd0.trie_vec().clone();
    let pd = PreparedDictionary::from_parts(version, words, bytes).unwrap();
    assert_eq!(pd.format_version(), "1.0.0");
    let loaded = DoubleArrayDictionary::try_from(pd).unwrap();
    assert_eq!(loaded.get("炎炎の炎").unwrap().key().as_str(), "炎炎");
}

#[test]
fn compile_twice_identical_lookups() {
    let a = DoubleArrayDictionary::try_new(flame_words()).unwrap();
    let b = DoubleArrayDictionary::try_new(flame_words()).unwrap();
    for probe in ["炎炎の炎", "炎", "炎炎炎炎", "延々と", "水", ""] {
        assert_eq!(
            a.get(probe).map(|x| x.key().clone()),
            b.get(probe).map(|x| x.key().clone())
        );
        assert_eq!(
            a.lookup_exact(probe).map(|x| x.key().clone()),
            b.lookup_exact(probe).map(|x| x.key().clone())
        );
    }
}

#[test]
fn word_new_builds_single_segment() {
    let w = DictionaryWord::new("大砲".into(), "たいほう".into(), "cannon".into());
    assert_eq!(w.key().as_str(), "大砲");
    assert_eq!(w.description().as_str(), "cannon");
    assert_eq!(w.phrase().len(), 1);
    match &w.phrase()[0] {
        DictionaryWordKeyPhrase::Ruby { target, ruby } => {
            assert_eq!(target.as_str(), "大砲");
            assert_eq!(ruby.as_str(), "たいほう");
        }
        other => panic!("expected a ruby segment, got {:?}", other),
    }
}

#[test]
fn word_new_with_empty_ruby_is_plain() {
    let w = DictionaryWord::new("どうして".into(), "".into(), "why".into());
    assert_eq!(w.key().as_str(), "どうして");
    assert!(matches!(
        &w.phrase()[0],
        DictionaryWordKeyPhrase::Plain { .. }
    ));
}

#[test]
fn word_new_all_concatenates_targets() {
    let w = DictionaryWord::new_all(
        vec![
            DictionaryWordKeyPhrase::new_ruby("若々".into(), "わかわか".into()),
            DictionaryWordKeyPhrase::new_plain("しい".into()),
        ],
        "youthful".into(),
        7u32,
    );
    assert_eq!(w.key().as_str(), "若々しい");
    assert_eq!(w.phrase().len(), 2);
    assert_eq!(*w.extra(), 7u32);
    assert_eq!(w.input_len(), 4);
    assert_eq!(w.word().key().as_str(), "若々しい");
}
