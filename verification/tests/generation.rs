use shortener::generate::capitalize_word;
use shortener::generate::gen_chared_ident;
use shortener::generate::gen_worded_ident;
use shortener::generate::worded_from_indices;

fn is_alnum(c: char) -> bool {
    ('0'..='9').contains(&c) || ('A'..='Z').contains(&c) || ('a'..='z').contains(&c)
}

#[test]
fn chared_ident_has_requested_length() {
    for len in [1usize, 4, 8, 32] {
        let id = gen_chared_ident(len);
        assert_eq!(id.chars().count(), len);
    }
}

#[test]
fn chared_ident_is_alphanumeric_only() {
    let id = gen_chared_ident(256);
    assert!(id.chars().all(is_alnum));
}

#[test]
fn chared_idents_vary_across_calls() {
    // 16 symbols over a 62-symbol set: two equal draws would mean the
    // generator reuses a fixed sequence.
    let a = gen_chared_ident(16);
    let b = gen_chared_ident(16);
    assert_ne!(a, b);
}

#[test]
fn capitalize_word_uppercases_first_letter() {
    assert_eq!(capitalize_word("red"), "Red");
    assert_eq!(capitalize_word("Red"), "Red");
    assert_eq!(capitalize_word("x"), "X");
    assert_eq!(capitalize_word("7up"), "7up");
}

#[test]
fn worded_from_indices_concatenates_in_draw_order() {
    let words = vec!["red".to_string(), "blue".to_string()];
    assert_eq!(worded_from_indices(&words, &vec![0, 1]), "RedBlue");
    assert_eq!(worded_from_indices(&words, &vec![1, 0]), "BlueRed");
    assert_eq!(worded_from_indices(&words, &vec![1]), "Blue");
    assert_eq!(worded_from_indices(&words, &vec![]), "");
}

#[test]
fn worded_ident_is_two_distinct_capitalized_words() {
    let words = vec!["red".to_string(), "blue".to_string(), "green".to_string()];
    let expected = [
        "RedBlue",
        "RedGreen",
        "BlueRed",
        "BlueGreen",
        "GreenRed",
        "GreenBlue",
    ];
    for _ in 0..32 {
        let id = gen_worded_ident(&words, 2);
        assert!(expected.contains(&id.as_str()), "unexpected identifier {id}");
    }
}

#[test]
fn worded_ident_of_full_length_uses_every_word_once() {
    let words = vec!["red".to_string(), "blue".to_string(), "green".to_string()];
    let id = gen_worded_ident(&words, 3);
    // A draw of all three positions without replacement holds each word
    // exactly once.
    assert_eq!(id.matches("Red").count(), 1);
    assert_eq!(id.matches("Blue").count(), 1);
    assert_eq!(id.matches("Green").count(), 1);
    assert_eq!(id.chars().count(), "RedBlueGreen".chars().count());
}
