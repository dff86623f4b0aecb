//! Configuration of the core: identifier lengths, the curated word list and
//! the base URL. Validation fails fast, before any generation runs.

use vstd::prelude::*;
use crate::generate::usable_word;
use crate::generate::usable_words;

verus! {

/// The values the core consumes; parsing them out of the environment is the
/// surrounding layer's business.
pub struct Config {
    /// Length of a character-strategy identifier, in symbols.
    pub chared_length: usize,
    /// Number of words in a worded-strategy identifier.
    pub worded_length: usize,
    /// Prefix of every returned short URL; normalized to end with `/`.
    pub base_url: String,
    /// The curated word list for the worded strategy.
    pub words: Vec<String>,
}

/// Why a configuration is rejected.
#[derive(Debug, Clone, Copy, PartialEq, Eq, Structural)]
pub enum ConfigError {
    /// The character-identifier length is zero.
    ZeroCharedLength,
    /// The word-identifier length is zero.
    ZeroWordedLength,
    /// More words are requested per identifier than the list holds.
    WordListTooSmall,
    /// A listed word is empty or not ASCII, so it cannot be capitalized.
    UnusableWord,
}

impl Config {
    /// A configuration the services accept: positive lengths, a word list
    /// large enough for one draw, and every word usable.
    pub open spec fn wf(&self) -> bool {
        &&& self.chared_length >= 1
        &&& self.worded_length >= 1
        &&& self.worded_length <= self.words@.len()
        &&& usable_words(self.words.deep_view())
    }
}

/// Decide in executable code whether every word of the list is usable.
fn words_usable(words: &Vec<String>) -> (r: bool)
    ensures
        r == usable_words(words.deep_view()),
{
    let mut k: usize = 0;
    while k < words.len()
        invariant
            k <= words@.len(),
            forall|i: int| 0 <= i < k ==> usable_word(#[trigger] words.deep_view()[i]),
        decreases words@.len() - k,
    {
        proof {
            assert(words.deep_view()[k as int] == words@[k as int]@);
        }
        let w = &words[k];
        if w.as_str().is_empty() || !w.as_str().is_ascii() {
            return false;
        }
        k = k + 1;
    }
    true
}

/// Validate a configuration, reporting the first fault in the order the
/// fields are listed; accepts exactly the well-formed configurations.
pub fn validate(cfg: &Config) -> (r: Result<(), ConfigError>)
    ensures
        r is Ok <==> cfg.wf(),
        (r == Result::<(), ConfigError>::Err(ConfigError::ZeroCharedLength)) <==> cfg.chared_length
            == 0,
        (r == Result::<(), ConfigError>::Err(ConfigError::ZeroWordedLength)) <==> (
        cfg.chared_length >= 1 && cfg.worded_length == 0),
        (r == Result::<(), ConfigError>::Err(ConfigError::WordListTooSmall)) <==> (
        cfg.chared_length >= 1 && cfg.worded_length >= 1 && cfg.worded_length
            > cfg.words@.len()),
        (r == Result::<(), ConfigError>::Err(ConfigError::UnusableWord)) <==> (cfg.chared_length
            >= 1 && cfg.worded_length >= 1 && cfg.worded_length <= cfg.words@.len()
            && !usable_words(cfg.words.deep_view())),
{
    if cfg.chared_length == 0 {
        Err(ConfigError::ZeroCharedLength)
    } else if cfg.worded_length == 0 {
        Err(ConfigError::ZeroWordedLength)
    } else if cfg.worded_length > cfg.words.len() {
        Err(ConfigError::WordListTooSmall)
    } else if !words_usable(&cfg.words) {
        Err(ConfigError::UnusableWord)
    } else {
        Ok(())
    }
}

/// Normalize a base URL so that it ends with the `/` separator: one is
/// appended unless the URL already ends with it.
pub fn normalize_base_url(url: String) -> (r: String)
    ensures
        r@.len() >= 1,
        r@.last() == '/',
        (url@.len() >= 1 && url@.last() == '/') ==> r@ == url@,
        !(url@.len() >= 1 && url@.last() == '/') ==> r@ == url@ + seq!['/'],
{
    let n = url.as_str().unicode_len();
    if n >= 1 && url.as_str().get_char(n - 1) == '/' {
        url
    } else {
        let mut out = url;
        out.append("/");
        proof {
            reveal_strlit("/");
            assert(("/")@ =~= seq!['/']);
        }
        out
    }
}

} // verus!
