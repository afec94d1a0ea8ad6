use passgen::generator::{
    alphabet_string, class_list, class_str, compose_password, fill_remaining,
    generate_complex_password, generate_password, mandatory_count, seed_mandatory, shuffle,
    CharClass, GenerationError, PasswordType,
};

const LOWER: &str = "abcdefghijklmnopqrstuvwxyz";
const UPPER: &str = "ABCDEFGHIJKLMNOPQRSTUVWXYZ";
const DIGITS: &str = "0123456789";
const SYMBOLS: &str = "!@#$%^&*()_+-=[]{}|;:,.<>?";

const ALL_TYPES: [PasswordType; 4] = [
    PasswordType::Standard,
    PasswordType::AlphabetsOnly,
    PasswordType::NumbersOnly,
    PasswordType::Alphanumeric,
];

fn sets_of(p: PasswordType) -> Vec<&'static str> {
    match p {
        PasswordType::Standard => vec![LOWER, UPPER, DIGITS, SYMBOLS],
        PasswordType::AlphabetsOnly => vec![LOWER, UPPER],
        PasswordType::NumbersOnly => vec![DIGITS],
        PasswordType::Alphanumeric => vec![LOWER, UPPER, DIGITS],
    }
}

fn union_of(p: PasswordType) -> String {
    sets_of(p).concat()
}

#[test]
fn class_texts_are_the_fixed_sets() {
    assert_eq!(class_str(CharClass::Lowercase), LOWER);
    assert_eq!(class_str(CharClass::Uppercase), UPPER);
    assert_eq!(class_str(CharClass::Digit), DIGITS);
    assert_eq!(class_str(CharClass::Symbol), SYMBOLS);
}

#[test]
fn alphabets_are_the_unions() {
    for p in ALL_TYPES {
        assert_eq!(alphabet_string(p), union_of(p));
    }
    assert_eq!(alphabet_string(PasswordType::Standard).chars().count(), 88);
}

#[test]
fn mandatory_counts() {
    assert_eq!(mandatory_count(PasswordType::Standard), 4);
    assert_eq!(mandatory_count(PasswordType::AlphabetsOnly), 2);
    assert_eq!(mandatory_count(PasswordType::NumbersOnly), 1);
    assert_eq!(mandatory_count(PasswordType::Alphanumeric), 3);
    assert_eq!(
        class_list(PasswordType::Alphanumeric),
        vec![CharClass::Lowercase, CharClass::Uppercase, CharClass::Digit]
    );
}

#[test]
fn seed_takes_one_from_each_class_in_order() {
    let r = seed_mandatory(PasswordType::Standard, &vec![25, 0, 9, 25]);
    assert_eq!(r, vec!['z', 'A', '9', '?']);
    let r = seed_mandatory(PasswordType::AlphabetsOnly, &vec![1, 2]);
    assert_eq!(r, vec!['b', 'C']);
}

#[test]
fn fill_appends_alphabet_characters() {
    let mut buf = vec!['x'];
    fill_remaining(PasswordType::Alphanumeric, &mut buf, &vec![0, 61, 26]);
    assert_eq!(buf, vec!['x', 'a', '9', 'A']);
    let mut buf = Vec::new();
    fill_remaining(PasswordType::Standard, &mut buf, &vec![62, 87]);
    assert_eq!(buf, vec!['!', '?']);
}

#[test]
fn shuffle_follows_the_exchange_indices() {
    let mut buf = vec!['a', 'A', '0', '!'];
    shuffle(&mut buf, &vec![0, 0, 0, 0]);
    assert_eq!(buf, vec!['A', '0', '!', 'a']);
    let mut buf = vec!['a', 'b', 'c'];
    shuffle(&mut buf, &vec![0, 1, 2]);
    assert_eq!(buf, vec!['a', 'b', 'c']);
    let mut buf = vec!['a', 'b', 'c'];
    shuffle(&mut buf, &vec![0, 0, 1]);
    assert_eq!(buf, vec!['c', 'a', 'b']);
    let mut single = vec!['5'];
    shuffle(&mut single, &vec![0]);
    assert_eq!(single, vec!['5']);
}

#[test]
fn compose_with_coverage_is_exact() {
    let r = compose_password(
        4,
        PasswordType::Standard,
        true,
        &vec![0, 0, 0, 0],
        &vec![],
        &vec![0, 0, 0, 0],
    );
    assert_eq!(r, Ok("A0!a".to_string()));
    let r = compose_password(
        5,
        PasswordType::NumbersOnly,
        true,
        &vec![7],
        &vec![1, 2, 3, 4],
        &vec![0, 1, 2, 3, 4],
    );
    assert_eq!(r, Ok("71234".to_string()));
}

#[test]
fn compose_without_coverage_keeps_draw_order() {
    let r = compose_password(3, PasswordType::Alphanumeric, false, &vec![], &vec![0, 61, 26], &vec![]);
    assert_eq!(r, Ok("a9A".to_string()));
    let r = compose_password(0, PasswordType::Standard, false, &vec![], &vec![], &vec![]);
    assert_eq!(r, Ok(String::new()));
}

#[test]
fn compose_refuses_length_below_mandatory_count() {
    let r = compose_password(3, PasswordType::Standard, true, &vec![], &vec![], &vec![]);
    assert_eq!(r, Err(GenerationError::InvalidRequest));
}

#[test]
fn generated_passwords_have_the_requested_length_and_alphabet() {
    for p in ALL_TYPES {
        let union = union_of(p);
        for complex in [false, true] {
            for length in [4usize, 5, 12, 40] {
                let s = generate_password(length, p, complex).unwrap();
                assert_eq!(s.chars().count(), length);
                assert!(s.chars().all(|c| union.contains(c)));
            }
        }
    }
}

#[test]
fn complex_passwords_cover_every_class() {
    for p in ALL_TYPES {
        let sets = sets_of(p);
        for _ in 0..200 {
            let s = generate_complex_password(sets.len(), p).unwrap();
            for set in &sets {
                assert!(s.chars().any(|c| set.contains(c)));
            }
        }
    }
}

#[test]
fn numbers_only_of_length_one_is_one_digit() {
    let s = generate_password(1, PasswordType::NumbersOnly, true).unwrap();
    assert_eq!(s.chars().count(), 1);
    assert!(s.chars().all(|c| c.is_ascii_digit()));
}

#[test]
fn standard_of_length_three_with_coverage_is_refused() {
    assert_eq!(
        generate_password(3, PasswordType::Standard, true),
        Err(GenerationError::InvalidRequest)
    );
    assert_eq!(
        generate_complex_password(3, PasswordType::Standard),
        Err(GenerationError::InvalidRequest)
    );
    assert_eq!(
        generate_password(1, PasswordType::AlphabetsOnly, true),
        Err(GenerationError::InvalidRequest)
    );
}

#[test]
fn without_coverage_short_lengths_are_served() {
    assert_eq!(generate_password(0, PasswordType::Standard, false), Ok(String::new()));
    let s = generate_password(3, PasswordType::Standard, false).unwrap();
    assert_eq!(s.chars().count(), 3);
}

#[test]
fn draws_vary() {
    let s = generate_password(200, PasswordType::NumbersOnly, false).unwrap();
    let first = s.chars().next().unwrap();
    assert!(s.chars().any(|c| c != first));
    assert!(s.chars().all(|c| c.is_ascii_digit()));
}

#[test]
fn mandatory_characters_are_not_fixed_in_position() {
    let trials = 4000usize;
    let sets = sets_of(PasswordType::Standard);
    let mut counts = [[0usize; 4]; 4];
    for _ in 0..trials {
        let s: Vec<char> = generate_complex_password(4, PasswordType::Standard)
            .unwrap()
            .chars()
            .collect();
        for (pos, c) in s.iter().enumerate() {
            let k = sets.iter().position(|set| set.contains(*c)).unwrap();
            counts[pos][k] += 1;
        }
    }
    let expected = trials as f64 / 4.0;
    for row in counts {
        let chi: f64 = row
            .iter()
            .map(|&n| {
                let d = n as f64 - expected;
                d * d / expected
            })
            .sum();
        assert!(chi < 30.0, "position bias: {:?}", row);
    }
}
