use passgen::PasswordGeneratorConfig;
use passgen::base::PassGenerator;
use passgen::base::PassGeneratorStrategy;
use passgen::base::extract_pass_generate_type;
use passgen::generate_mask;
use passgen::strength::calculate_strength;
use passgen::word::WordList;
use passgen::word::WordListError;

fn config(gen_type: &str) -> PasswordGeneratorConfig {
    PasswordGeneratorConfig {
        length: 9,
        gen_type: gen_type.to_string(),
        use_numbers: false,
        use_symbols: false,
        use_capitals: false,
        capitalize_memorable_words: false,
        capitalize_memorable_first_letter: false,
        words_count: 3,
        insecure_mode: false,
    }
}

fn tiny_corpus() -> &'static [u8] {
    b"11111,alpha\n11112,bravo\n\n11113,charlie\n"
}

#[test]
fn load_parses_records() {
    let words = WordList::load(tiny_corpus()).unwrap();
    assert_eq!(words.words_map.len(), 3);
    assert_eq!(words.words_map.get(&11111), Some(&"alpha".to_string()));
    assert_eq!(words.words_map.get(&11112), Some(&"bravo".to_string()));
    assert_eq!(words.words_map.get(&11113), Some(&"charlie".to_string()));
}

#[test]
fn load_later_record_wins() {
    let words = WordList::load(b"11111,alpha\n11111,bravo\n").unwrap();
    assert_eq!(words.words_map.len(), 1);
    assert_eq!(words.words_map.get(&11111), Some(&"bravo".to_string()));
}

#[test]
fn load_empty_source_fails_empty() {
    assert!(matches!(WordList::load(b""), Err(WordListError::Empty)));
    assert!(matches!(WordList::load(b"\n\n\n"), Err(WordListError::Empty)));
}

#[test]
fn load_rejects_malformed_records() {
    assert!(matches!(
        WordList::load(b"nonsense\n"),
        Err(WordListError::Malformed)
    ));
    assert!(matches!(
        WordList::load(b"11111\n"),
        Err(WordListError::Malformed)
    ));
    assert!(matches!(
        WordList::load(b"11111,\n"),
        Err(WordListError::Malformed)
    ));
    assert!(matches!(
        WordList::load(b",word\n"),
        Err(WordListError::Malformed)
    ));
    assert!(matches!(
        WordList::load(b"1111111111,word\n"),
        Err(WordListError::Malformed)
    ));
    assert!(matches!(
        WordList::load(b"11111,al,pha\n"),
        Err(WordListError::Malformed)
    ));
    assert!(matches!(
        WordList::load(b"11111,ok\n11x11,bad\n"),
        Err(WordListError::Malformed)
    ));
}

#[test]
fn get_words_map_loads_well_formed_sources() {
    let words = WordList::get_words_map(tiny_corpus());
    assert_eq!(words.words_map.len(), 3);
}

#[test]
fn strength_scores_exact_values() {
    assert_eq!(calculate_strength(""), 0);
    assert_eq!(calculate_strength("abc"), 5);
    assert_eq!(calculate_strength("abcdefgh"), 10);
    assert_eq!(calculate_strength("ABCDEFGH"), 10);
    assert_eq!(calculate_strength("12345678"), 10);
    assert_eq!(calculate_strength("aB3"), 15);
    assert_eq!(calculate_strength("aB3!"), 25);
    assert_eq!(calculate_strength("aBcdefg3!"), 30);
}

#[test]
fn strength_percentage_stays_in_bounds() {
    for text in ["", "a", "A1", "zzzzzzzzzz", "aB3!xxxxx", "~~~~~~~~"] {
        let score = calculate_strength(text);
        assert!(score <= 30);
        let percentage = score as f64 / 30.0 * 100.0;
        assert!((0.0..=100.0).contains(&percentage));
    }
}

#[test]
fn strength_is_monotone_in_added_properties() {
    let base = "abc";
    let with_length = "abcabcab";
    let with_upper = "abcabcaB";
    let with_digit = "abcabca1B";
    let with_symbol = "abcabca1B!";
    let mut last = calculate_strength(base);
    for text in [with_length, with_upper, with_digit, with_symbol] {
        let next = calculate_strength(text);
        assert!(next >= last);
        last = next;
    }
    assert_eq!(calculate_strength(with_symbol), 30);
}

#[test]
fn mask_sets_one_bit_per_condition() {
    assert_eq!(generate_mask(&[false, false, false, false]), 0);
    assert_eq!(generate_mask(&[true, false, false, false]), 1);
    assert_eq!(generate_mask(&[true, true, false, true]), 11);
    assert_eq!(generate_mask(&[true, true, true, true]), 15);
}

#[test]
fn engine_runs_selected_strategy() {
    let words = WordList::load(tiny_corpus()).unwrap();
    let confs = config("pin");
    let strategy = extract_pass_generate_type(&confs, words);
    assert!(matches!(strategy, PassGeneratorStrategy::Pin(_)));
    let mut engine = PassGenerator::new(strategy);
    engine.generate().unwrap();
    let pass = engine.get_password_safe().expose_secret().clone();
    assert_eq!(pass.len(), 9);
    assert!(pass.chars().all(|c| c.is_ascii_digit()));
    let params = engine.calculate_entropy();
    assert_eq!(params.pool, 10);
    let score = engine.calculate_strength();
    assert!(score <= 30);
    assert_eq!(score, calculate_strength(&pass));
}

#[test]
fn engine_falls_back_to_random_for_unknown_type() {
    let words = WordList::load(tiny_corpus()).unwrap();
    let confs = config("anything-else");
    let strategy = extract_pass_generate_type(&confs, words);
    assert!(matches!(strategy, PassGeneratorStrategy::Random(_)));
    let mut engine = PassGenerator::new(strategy);
    engine.generate().unwrap();
    assert_eq!(engine.get_password_safe().expose_secret().len(), 9);
}

#[test]
fn engine_strength_and_entropy_stay_separate() {
    let words = WordList::load(b"10000,aaaa\n").unwrap();
    let mut confs = config("memorable");
    confs.words_count = 2;
    let strategy = extract_pass_generate_type(&confs, words);
    assert!(matches!(strategy, PassGeneratorStrategy::Memorable(_)));
    let mut engine = PassGenerator::new(strategy);
    let result = engine.generate();
    assert!(result.is_err());
    let params = engine.calculate_entropy();
    assert_eq!(params.draws, 2);
    assert_eq!(params.pool, 1);
    assert_eq!(engine.calculate_strength(), 0);
}
