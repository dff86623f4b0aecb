//! Registration and resolution: registration draws fresh candidates and
//! retries on collision until an atomic insert succeeds or the retry budget
//! runs out; resolution is a single read of the table.

use vstd::prelude::*;
use crate::generate::gen_chared_ident;
use crate::generate::gen_worded_ident;
use crate::generate::is_ident_char;
use crate::generate::lemma_worded_ident_nonempty;
use crate::generate::usable_words;
use crate::generate::valid_draw;
use crate::generate::worded_ident;
use crate::store::RedirectStore;

verus! {

/// Register `target` under a fresh character-strategy identifier of exactly
/// `length` alphanumeric symbols, drawing anew on every attempt. On success
/// the returned identifier was absent from the table, and afterwards the
/// table maps it — and nothing else new — to `target`. Collisions are
/// absorbed here: a conflicting attempt leaves the table untouched and the
/// next attempt draws afresh. The draw is random, so success cannot be
/// promised outright; but a failure is possible only once the budget is
/// spent, and only against a table that already held some identifier of
/// this very length — on a table without one, the first attempt succeeds.
pub fn register_chared(
    store: &mut RedirectStore,
    target: &String,
    length: usize,
    attempts: usize,
) -> (r: Option<String>)
    requires
        old(store).wf(),
        length >= 1,
    ensures
        final(store).wf(),
        match r {
            Some(id) => {
                &&& id@.len() == length
                &&& forall|i: int| 0 <= i < id@.len() ==> is_ident_char(#[trigger] id@[i])
                &&& !old(store)@.contains_key(id@)
                &&& final(store)@ == old(store)@.insert(id@, target@)
            },
            None => {
                &&& final(store)@ == old(store)@
                &&& (attempts == 0 || exists|k: Seq<char>|
                    #[trigger] old(store)@.contains_key(k) && k.len() == length)
            },
        },
{
    let mut tries: usize = attempts;
    while tries > 0
        invariant
            store.wf(),
            store@ == old(store)@,
            length >= 1,
            tries <= attempts,
            tries < attempts ==> exists|k: Seq<char>|
                #[trigger] old(store)@.contains_key(k) && k.len() == length,
        decreases tries,
    {
        let cand = gen_chared_ident(length);
        if store.insert_if_absent(cand.clone(), target.clone()) {
            return Some(cand);
        }
        tries = tries - 1;
    }
    None
}

/// Register `target` under a fresh worded identifier: `length` distinct
/// words drawn from `words`, each capitalized, concatenated. On success the
/// returned identifier was absent, and afterwards the table maps it — and
/// nothing else new — to `target`. A failure is possible only once the
/// budget is spent, and only against a table that already held some
/// identifier: on an empty table, the first attempt succeeds.
pub fn register_worded(
    store: &mut RedirectStore,
    target: &String,
    words: &Vec<String>,
    length: usize,
    attempts: usize,
) -> (r: Option<String>)
    requires
        old(store).wf(),
        1 <= length <= words@.len(),
        usable_words(words.deep_view()),
    ensures
        final(store).wf(),
        match r {
            Some(id) => {
                &&& exists|idxs: Seq<usize>|
                    idxs.len() == length && valid_draw(idxs, words.deep_view().len()) && id@
                        == #[trigger] worded_ident(words.deep_view(), idxs)
                &&& !old(store)@.contains_key(id@)
                &&& final(store)@ == old(store)@.insert(id@, target@)
            },
            None => {
                &&& final(store)@ == old(store)@
                &&& (attempts == 0 || exists|k: Seq<char>| #[trigger] old(store)@.contains_key(k))
            },
        },
{
    let mut tries: usize = attempts;
    while tries > 0
        invariant
            store.wf(),
            store@ == old(store)@,
            1 <= length <= words@.len(),
            usable_words(words.deep_view()),
            tries <= attempts,
            tries < attempts ==> exists|k: Seq<char>| #[trigger] old(store)@.contains_key(k),
        decreases tries,
    {
        let cand = gen_worded_ident(words, length);
        proof {
            let idxs = choose|idxs: Seq<usize>|
                idxs.len() == length && valid_draw(idxs, words.deep_view().len()) && cand@
                    == #[trigger] worded_ident(words.deep_view(), idxs);
            lemma_worded_ident_nonempty(words.deep_view(), idxs);
        }
        if store.insert_if_absent(cand.clone(), target.clone()) {
            return Some(cand);
        }
        tries = tries - 1;
    }
    None
}

/// One read of the table: the stored target for `ident`, verbatim, or
/// nothing — the expected not-found outcome for an identifier that was
/// never registered (or was deleted).
pub fn resolve(store: &RedirectStore, ident: &String) -> (r: Option<String>)
    requires
        store.wf(),
    ensures
        match r {
            Some(t) => store@.contains_key(ident@) && t@ == store@[ident@],
            None => !store@.contains_key(ident@),
        },
{
    match store.get(ident) {
        Some(t) => Some(t.clone()),
        None => None,
    }
}

/// The externally visible short URL: the base URL followed directly by the
/// identifier.
pub fn short_url(base_url: &String, ident: &String) -> (r: String)
    ensures
        r@ == base_url@ + ident@,
{
    let mut out = base_url.clone();
    out.append(ident.as_str());
    out
}

} // verus!
