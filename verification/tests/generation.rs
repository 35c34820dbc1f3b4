use passgen::PasswordGeneratorConfig;
use passgen::memorable::MemorablePassGenerator;
use passgen::memorable::dice_ware_number_generator;
use passgen::pin::PinPassGenerator;
use passgen::random::RandomPassGenerator;
use passgen::word::WordList;
use secrecy::zeroize::Zeroize;

fn config(gen_type: &str) -> PasswordGeneratorConfig {
    PasswordGeneratorConfig {
        length: 9,
        gen_type: gen_type.to_string(),
        use_numbers: false,
        use_symbols: false,
        use_capitals: false,
        capitalize_memorable_words: false,
        capitalize_memorable_first_letter: false,
        words_count: 3,
        insecure_mode: false,
    }
}

/// A full diceware corpus: every five-dice key, 7776 entries in all, each
/// mapped to a distinct lowercase word.
fn full_corpus() -> String {
    let mut s = String::new();
    for d4 in 1..=6u32 {
        for d3 in 1..=6u32 {
            for d2 in 1..=6u32 {
                for d1 in 1..=6u32 {
                    for d0 in 1..=6u32 {
                        let key = d0 + d1 * 10 + d2 * 100 + d3 * 1000 + d4 * 10000;
                        s.push_str(&format!("{},w{}\n", key, key));
                    }
                }
            }
        }
    }
    s
}

#[test]
fn memorable_operates() {
    let confs = PasswordGeneratorConfig {
        length: 9,
        gen_type: "memorable".to_string(),
        use_numbers: false,
        use_symbols: false,
        use_capitals: false,
        capitalize_memorable_words: false,
        capitalize_memorable_first_letter: false,
        words_count: 3,
        insecure_mode: false,
    };
    let corpus = full_corpus();
    let words = WordList::load(corpus.as_bytes()).unwrap();
    let mut memorable = MemorablePassGenerator::new(&confs, words);
    memorable.generate_password().unwrap();
    let pass = memorable.get_password_safe();
    assert_eq!(
        pass.expose_secret().split("-").collect::<Vec<&str>>().len(),
        confs.words_count.into(),
        "Memorable type is returning correct number of words."
    );
    let params = memorable.calculate_entropy();
    let entropy = params.draws as f64 * f64::log2(params.pool as f64);
    assert_eq!(
        entropy, 38.77443751081734,
        "Memorable entropy is returning correct entropy."
    );
}

#[test]
fn random_operates() {
    let confs = PasswordGeneratorConfig {
        length: 9,
        gen_type: "random".to_string(),
        use_numbers: true,
        use_symbols: true,
        use_capitals: true,
        capitalize_memorable_words: false,
        capitalize_memorable_first_letter: false,
        words_count: 3,
        insecure_mode: false,
    };
    let mut random = RandomPassGenerator::new(&confs);
    random.generate_password();
    let pass = random.get_password_safe();
    assert_eq!(
        pass.expose_secret().len(),
        confs.length.into(),
        "random type is returning correct number of charecters."
    );
    let params = random.calculate_entropy();
    let entropy = params.draws as f64 * f64::log2(params.pool as f64);
    assert_eq!(
        entropy, 56.05936821446292,
        "random entropy is returning correct entropy."
    );
}

#[test]
fn random_all_categories_pool_is_75() {
    let mut confs = config("random");
    confs.use_numbers = true;
    confs.use_symbols = true;
    confs.use_capitals = true;
    let random = RandomPassGenerator::new(&confs);
    let params = random.calculate_entropy();
    assert_eq!(params.draws, 9);
    assert_eq!(params.pool, 26 + 10 + 26 + 13);
}

#[test]
fn random_lowercase_only_output() {
    let mut confs = config("random");
    confs.length = 60;
    let mut random = RandomPassGenerator::new(&confs);
    random.generate_password();
    let pass = random.get_password_safe().expose_secret().clone();
    assert_eq!(pass.len(), 60);
    assert!(pass.chars().all(|c| c.is_ascii_lowercase()));
    let params = random.calculate_entropy();
    assert_eq!(params.pool, 26);
}

#[test]
fn random_enabled_union_membership() {
    let mut confs = config("random");
    confs.length = 200;
    confs.use_numbers = true;
    let mut random = RandomPassGenerator::new(&confs);
    random.generate_password();
    let pass = random.get_password_safe().expose_secret().clone();
    assert_eq!(pass.len(), 200);
    assert!(pass
        .chars()
        .all(|c| c.is_ascii_lowercase() || c.is_ascii_digit()));
}

#[test]
fn random_zero_length_is_empty() {
    let mut confs = config("random");
    confs.length = 0;
    let mut random = RandomPassGenerator::new(&confs);
    random.generate_password();
    assert_eq!(random.get_password_safe().expose_secret().len(), 0);
}

#[test]
fn pin_generates_digits() {
    let confs = config("pin");
    let mut pin = PinPassGenerator::new(&confs);
    pin.generate_password();
    let pass = pin.get_password_safe().expose_secret().clone();
    assert_eq!(pass.len(), 9);
    assert!(pass.chars().all(|c| c.is_ascii_digit()));
}

#[test]
fn pin_zero_length_clamps_to_one() {
    let mut confs = config("pin");
    confs.length = 0;
    let mut pin = PinPassGenerator::new(&confs);
    pin.generate_password();
    let pass = pin.get_password_safe().expose_secret().clone();
    assert_eq!(pass.len(), 1);
    assert!(pass.chars().all(|c| c.is_ascii_digit()));
}

#[test]
fn pin_entropy_formula() {
    let confs = config("pin");
    let pin = PinPassGenerator::new(&confs);
    let params = pin.calculate_entropy();
    assert_eq!(params.draws, 9);
    assert_eq!(params.pool, 10);
    let entropy = params.draws as f64 * f64::log2(params.pool as f64);
    assert!((entropy - 29.897352853986263).abs() < 1e-12);
}

#[test]
fn entropy_is_deterministic_across_generation() {
    let corpus = full_corpus();
    let confs = config("memorable");
    let words = WordList::load(corpus.as_bytes()).unwrap();
    let mut memorable = MemorablePassGenerator::new(&confs, words);
    let before = memorable.calculate_entropy();
    memorable.generate_password().unwrap();
    let after = memorable.calculate_entropy();
    assert_eq!(before, after);
}

#[test]
fn memorable_zero_words_is_empty() {
    let corpus = full_corpus();
    let mut confs = config("memorable");
    confs.words_count = 0;
    let words = WordList::load(corpus.as_bytes()).unwrap();
    let mut memorable = MemorablePassGenerator::new(&confs, words);
    memorable.generate_password().unwrap();
    assert_eq!(memorable.get_password_safe().expose_secret().len(), 0);
}

#[test]
fn memorable_whole_word_restyling_shape() {
    let corpus = full_corpus();
    let mut confs = config("memorable");
    confs.words_count = 24;
    confs.capitalize_memorable_words = true;
    let words = WordList::load(corpus.as_bytes()).unwrap();
    let mut memorable = MemorablePassGenerator::new(&confs, words);
    memorable.generate_password().unwrap();
    let pass = memorable.get_password_safe().expose_secret().clone();
    let segments: Vec<&str> = pass.split('-').collect();
    assert_eq!(segments.len(), 24);
    for seg in segments {
        let mut chars = seg.chars();
        let head = chars.next().unwrap();
        assert!(head == 'w' || head == 'W');
        assert!(chars.all(|c| c.is_ascii_digit()));
    }
}

#[test]
fn memorable_entropy_counts_enabled_toggles() {
    let corpus = full_corpus();
    let mut confs = config("memorable");
    confs.capitalize_memorable_words = true;
    confs.capitalize_memorable_first_letter = true;
    let words = WordList::load(corpus.as_bytes()).unwrap();
    let memorable = MemorablePassGenerator::new(&confs, words);
    let params = memorable.calculate_entropy();
    assert_eq!(params.draws, 3);
    assert_eq!(params.pool, 3 * 7776);
}

#[test]
fn memorable_lookup_inconsistency_aborts() {
    let mut word_maps = std::collections::HashMap::new();
    word_maps.insert(99u32, "stray".to_string());
    let words = WordList::new(word_maps);
    let confs = config("memorable");
    let mut memorable = MemorablePassGenerator::new(&confs, words);
    let result = memorable.generate_password();
    assert!(matches!(
        result,
        Err(passgen::memorable::GenerationError::LookupInconsistency)
    ));
    assert_eq!(memorable.get_password_safe().expose_secret().len(), 0);
}

#[test]
fn dice_ware_numbers_stay_in_range() {
    for _ in 0..200 {
        let k = dice_ware_number_generator();
        assert!((11111..=66666).contains(&k));
        let mut rest = k;
        for _ in 0..5 {
            let digit = rest % 10;
            assert!((1..=6).contains(&digit));
            rest /= 10;
        }
        assert_eq!(rest, 0);
    }
}

#[test]
fn exposing_twice_returns_identical_values() {
    let confs = config("pin");
    let mut pin = PinPassGenerator::new(&confs);
    pin.generate_password();
    let first = pin.get_password_safe().expose_secret().clone();
    let second = pin.get_password_safe().expose_secret().clone();
    assert_eq!(first, second);
    assert_eq!(&first, pin.get_password_safe().expose_secret());
}

#[test]
fn zeroize_clears_configuration() {
    let corpus = full_corpus();
    let confs = config("memorable");
    let words = WordList::load(corpus.as_bytes()).unwrap();
    let mut memorable = MemorablePassGenerator::new(&confs, words);
    memorable.zeroize();
    let params = memorable.calculate_entropy();
    assert_eq!(params.draws, 0);
    assert_eq!(params.pool, 7776);
}

#[test]
fn zeroize_scrubs_a_plain_buffer() {
    let mut buffer = String::from("super-secret-material");
    buffer.zeroize();
    assert!(buffer.is_empty());
}
