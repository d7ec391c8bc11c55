use secm::generator::{digit, generate_random_string, letter, symbol, SYMBOLS};
use secm::paths::{get_secret_db_path, get_secret_file_path};

#[test]
fn letters_digits_and_symbols_are_numbered() {
    assert_eq!(letter(0), 'A');
    assert_eq!(letter(25), 'Z');
    assert_eq!(letter(26), 'a');
    assert_eq!(letter(51), 'z');
    assert_eq!(digit(0), '0');
    assert_eq!(digit(7), '7');
    assert_eq!(digit(9), '9');
    assert_eq!(symbol(0), '!');
    assert_eq!(symbol(8), '-');
    assert_eq!(symbol(17), '?');
    assert_eq!(SYMBOLS.chars().count(), 18);
}

#[test]
fn a_plain_secret_is_letters_only() {
    for length in [0usize, 1, 2, 10, 32, 200] {
        let s = generate_random_string(length, false);
        assert_eq!(s.chars().count(), length);
        assert!(s.chars().all(|c| c.is_ascii_alphabetic()));
    }
}

#[test]
fn an_advanced_secret_holds_one_digit_and_one_symbol() {
    for length in [2usize, 3, 10, 32, 200] {
        for _ in 0..20 {
            let s = generate_random_string(length, true);
            assert_eq!(s.chars().count(), length);
            assert_eq!(s.chars().filter(|c| c.is_ascii_digit()).count(), 1);
            assert_eq!(s.chars().filter(|c| SYMBOLS.contains(*c)).count(), 1);
            assert_eq!(s.chars().filter(|c| c.is_ascii_alphabetic()).count(), length - 2);
        }
    }
}

#[test]
fn secrets_differ_from_call_to_call() {
    let a = generate_random_string(32, false);
    let b = generate_random_string(32, false);
    assert_ne!(a, b);
}

#[test]
fn the_digit_and_the_symbol_move() {
    let mut digit_places = std::collections::BTreeSet::new();
    for _ in 0..200 {
        let s = generate_random_string(6, true);
        digit_places.insert(s.chars().position(|c| c.is_ascii_digit()).unwrap());
    }
    assert!(digit_places.len() > 1);
}

#[test]
fn paths_hang_below_the_home_directory() {
    assert_eq!(get_secret_file_path("/home/me"), "/home/me/.secrets");
    assert_eq!(get_secret_db_path("/home/me"), "/home/me/.secrets.db");
    assert_eq!(get_secret_file_path(""), "/.secrets");
}
