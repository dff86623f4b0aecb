//! Identifier generation: the character strategy draws alphanumeric symbols
//! with replacement, the worded strategy draws distinct words from a list and
//! capitalizes each.

use vstd::prelude::*;

verus! {

/// A character that may appear in a character-strategy identifier:
/// one of the 62 alphanumeric ASCII symbols.
pub open spec fn is_ident_char(c: char) -> bool {
    ('0' <= c && c <= '9') || ('A' <= c && c <= 'Z') || ('a' <= c && c <= 'z')
}

/// Relies on `rand::distributions::Alphanumeric` as `Distribution<u8>`: it
/// returns a byte of `A`-`Z`, `a`-`z` or `0`-`9`, drawn from the auto-seeded
/// thread-local generator, so draws are independent across calls. Nothing
/// more is assumed of which symbol comes back.
#[verifier::external_body]
fn sample_ident_char() -> (r: char)
    ensures
        is_ident_char(r),
{
    let b: u8 = rand::Rng::sample(&mut rand::thread_rng(), rand::distributions::Alphanumeric);
    char::from(b)
}

/// Relies on `String::from` for `char`: the returned string holds exactly the
/// one given character.
#[verifier::external_body]
fn char_to_string(c: char) -> (r: String)
    ensures
        r@ == seq![c],
{
    String::from(c)
}

/// Character strategy: a fresh identifier of exactly `length` symbols, each
/// drawn independently (with replacement) from the alphanumeric set.
pub fn gen_chared_ident(length: usize) -> (r: String)
    ensures
        r@.len() == length,
        forall|i: int| 0 <= i < r@.len() ==> is_ident_char(#[trigger] r@[i]),
{
    let mut ident = String::new();
    let mut drawn: usize = 0;
    while drawn < length
        invariant
            drawn <= length,
            ident@.len() == drawn,
            forall|i: int| 0 <= i < ident@.len() ==> is_ident_char(#[trigger] ident@[i]),
        decreases length - drawn,
    {
        let piece = char_to_string(sample_ident_char());
        ident.append(piece.as_str());
        drawn = drawn + 1;
    }
    ident
}

/// The character with a lower-case ASCII letter replaced by its upper-case
/// counterpart; any other character is kept as it is.
pub open spec fn to_upper_char(c: char) -> char {
    if 'a' <= c && c <= 'z' {
        (((c as u8) - 32) as u8) as char
    } else {
        c
    }
}

/// The word with its first letter capitalized.
pub open spec fn capitalized(w: Seq<char>) -> Seq<char>
    recommends
        w.len() >= 1,
{
    seq![to_upper_char(w[0])] + w.subrange(1, w.len() as int)
}

/// A word fit for the worded strategy: non-empty ASCII, so that
/// capitalization acts on its first letter.
pub open spec fn usable_word(w: Seq<char>) -> bool {
    w.len() >= 1 && vstd::utf8::is_ascii_chars(w)
}

/// Every word of the list is usable.
pub open spec fn usable_words(words: Seq<Seq<char>>) -> bool {
    forall|i: int| 0 <= i < words.len() ==> usable_word(#[trigger] words[i])
}

/// A draw of positions into a list of `n` words: every position is in range
/// and no position repeats, as sampling without replacement demands.
pub open spec fn valid_draw(idxs: Seq<usize>, n: nat) -> bool {
    (forall|i: int| 0 <= i < idxs.len() ==> (#[trigger] idxs[i]) < n)
        && (forall|i: int, j: int| 0 <= i < j < idxs.len() ==> idxs[i] != idxs[j])
}

/// The worded identifier built over `words` by the draw `idxs`: each drawn
/// word capitalized, concatenated in draw order with no separator.
pub open spec fn worded_ident(words: Seq<Seq<char>>, idxs: Seq<usize>) -> Seq<char>
    decreases idxs.len(),
{
    if idxs.len() == 0 {
        Seq::empty()
    } else {
        worded_ident(words, idxs.drop_last()) + capitalized(words[idxs.last() as int])
    }
}

/// A worded identifier over at least one usable word is never empty.
pub proof fn lemma_worded_ident_nonempty(words: Seq<Seq<char>>, idxs: Seq<usize>)
    requires
        usable_words(words),
        valid_draw(idxs, words.len()),
        idxs.len() >= 1,
    ensures
        worded_ident(words, idxs).len() >= 1,
{
    assert(words[idxs.last() as int].len() >= 1);
}

/// Relies on `rand::seq::index::sample`: it returns exactly `amount` distinct
/// indices below `length`, drawn from the auto-seeded thread-local generator
/// in an unspecified order. It panics when `amount > length`, which the
/// precondition rules out.
#[verifier::external_body]
fn sample_distinct_indices(length: usize, amount: usize) -> (r: Vec<usize>)
    requires
        amount <= length,
    ensures
        r@.len() == amount,
        valid_draw(r@, length as nat),
{
    rand::seq::index::sample(&mut rand::thread_rng(), length, amount).into_vec()
}

/// Capitalize the first letter of a word.
pub fn capitalize_word(w: &str) -> (r: String)
    requires
        usable_word(w@),
    ensures
        r@ == capitalized(w@),
{
    let first: char = w.get_char(0);
    let up: char = if 'a' <= first && first <= 'z' {
        ((first as u8) - 32) as char
    } else {
        first
    };
    let mut out = char_to_string(up);
    out.append(w.substring_ascii(1, w.unicode_len()));
    out
}

/// Build the worded identifier that a given draw of positions yields.
pub fn worded_from_indices(words: &Vec<String>, idxs: &Vec<usize>) -> (r: String)
    requires
        usable_words(words.deep_view()),
        forall|i: int| 0 <= i < idxs@.len() ==> (#[trigger] idxs@[i]) < words@.len(),
    ensures
        r@ == worded_ident(words.deep_view(), idxs@),
{
    let mut ident = String::new();
    let mut k: usize = 0;
    while k < idxs.len()
        invariant
            k <= idxs@.len(),
            usable_words(words.deep_view()),
            forall|i: int| 0 <= i < idxs@.len() ==> (#[trigger] idxs@[i]) < words@.len(),
            ident@ == worded_ident(words.deep_view(), idxs@.take(k as int)),
        decreases idxs@.len() - k,
    {
        let idx = idxs[k];
        proof {
            assert(words.deep_view()[idx as int] == words@[idx as int]@);
            assert(usable_word(words.deep_view()[idx as int]));
        }
        let cap = capitalize_word(words[idx].as_str());
        ident.append(cap.as_str());
        proof {
            assert(idxs@.take(k + 1).drop_last() =~= idxs@.take(k as int));
        }
        k = k + 1;
    }
    proof {
        assert(idxs@.take(idxs@.len() as int) =~= idxs@);
    }
    ident
}

/// Worded strategy: a fresh identifier of exactly `length` distinct words
/// drawn from `words`, each capitalized, concatenated with no separator.
pub fn gen_worded_ident(words: &Vec<String>, length: usize) -> (r: String)
    requires
        length <= words@.len(),
        usable_words(words.deep_view()),
    ensures
        exists|idxs: Seq<usize>|
            idxs.len() == length && valid_draw(idxs, words.deep_view().len()) && r@
                == #[trigger] worded_ident(words.deep_view(), idxs),
{
    let idxs = sample_distinct_indices(words.len(), length);
    let r = worded_from_indices(words, &idxs);
    proof {
        assert(r@ == worded_ident(words.deep_view(), idxs@));
    }
    r
}

} // verus!
