use shortener::config::normalize_base_url;
use shortener::config::validate;
use shortener::config::Config;
use shortener::config::ConfigError;

fn sample_words() -> Vec<String> {
    vec!["red".to_string(), "blue".to_string(), "green".to_string()]
}

#[test]
fn a_sound_configuration_validates() {
    let cfg = Config {
        chared_length: 4,
        worded_length: 1,
        base_url: "http://127.0.0.1:8000/".to_string(),
        words: sample_words(),
    };
    assert_eq!(validate(&cfg), Ok(()));
}

#[test]
fn zero_character_length_is_rejected() {
    let cfg = Config {
        chared_length: 0,
        worded_length: 1,
        base_url: String::new(),
        words: sample_words(),
    };
    assert_eq!(validate(&cfg), Err(ConfigError::ZeroCharedLength));
}

#[test]
fn zero_word_count_is_rejected() {
    let cfg = Config {
        chared_length: 4,
        worded_length: 0,
        base_url: String::new(),
        words: sample_words(),
    };
    assert_eq!(validate(&cfg), Err(ConfigError::ZeroWordedLength));
}

#[test]
fn word_count_beyond_the_list_is_rejected() {
    let cfg = Config {
        chared_length: 4,
        worded_length: 4,
        base_url: String::new(),
        words: sample_words(),
    };
    assert_eq!(validate(&cfg), Err(ConfigError::WordListTooSmall));
}

#[test]
fn an_empty_or_non_ascii_word_is_rejected() {
    let cfg = Config {
        chared_length: 4,
        worded_length: 1,
        base_url: String::new(),
        words: vec!["red".to_string(), String::new()],
    };
    assert_eq!(validate(&cfg), Err(ConfigError::UnusableWord));
    let cfg = Config {
        chared_length: 4,
        worded_length: 1,
        base_url: String::new(),
        words: vec!["r\u{e9}d".to_string()],
    };
    assert_eq!(validate(&cfg), Err(ConfigError::UnusableWord));
}

#[test]
fn base_url_is_normalized_to_end_with_a_separator() {
    assert_eq!(normalize_base_url("http://x".to_string()), "http://x/");
    assert_eq!(normalize_base_url("http://x/".to_string()), "http://x/");
    assert_eq!(normalize_base_url(String::new()), "/");
}
