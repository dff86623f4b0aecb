//! Laws of the redirect table, stated over the map model that the services'
//! contracts use: what registration, resolution and deletion promise in
//! combination.

use vstd::prelude::*;
use crate::generate::valid_draw;

verus! {

/// Law: a registration that succeeded with identifier `id` leaves a table on
/// which an immediate resolution of `id` finds exactly the registered
/// target, and every other identifier resolves as it did before.
/// `register_chared` and `register_worded` ensure the final table is
/// `pre.insert(id, target)`; `resolve` answers from that map.
pub proof fn lemma_register_then_resolve(
    pre: Map<Seq<char>, Seq<char>>,
    id: Seq<char>,
    target: Seq<char>,
)
    ensures
        pre.insert(id, target).contains_key(id),
        pre.insert(id, target)[id] == target,
        forall|k: Seq<char>|
            k != id ==> (#[trigger] pre.insert(id, target).contains_key(k)) == pre.contains_key(k),
        forall|k: Seq<char>|
            k != id && pre.contains_key(k) ==> (#[trigger] pre.insert(id, target)[k]) == pre[k],
{
}

/// Law: two registrations whose draws overlap on a candidate `id` never
/// both succeed. The store serializes the two check-and-inserts; here they
/// stand in the order taken, each described exactly as `insert_if_absent`'s
/// contract puts it. Whatever that order, at most one succeeds, and when
/// the first does, the table ends with the one record `id` maps to its
/// target.
pub proof fn lemma_no_double_success(
    pre: Map<Seq<char>, Seq<char>>,
    mid: Map<Seq<char>, Seq<char>>,
    post: Map<Seq<char>, Seq<char>>,
    ok1: bool,
    ok2: bool,
    id: Seq<char>,
    t1: Seq<char>,
    t2: Seq<char>,
)
    requires
        ok1 == !pre.contains_key(id),
        ok1 ==> mid == pre.insert(id, t1),
        !ok1 ==> mid == pre,
        ok2 == !mid.contains_key(id),
        ok2 ==> post == mid.insert(id, t2),
        !ok2 ==> post == mid,
    ensures
        !(ok1 && ok2),
        ok1 ==> post == pre.insert(id, t1) && post[id] == t1,
{
}

/// Law: deletion frees the identifier — resolving a just-deleted identifier
/// finds nothing — and deleting an identifier that is absent leaves the
/// table exactly as it was. `delete` ensures the final table is
/// `pre.remove(id)`.
pub proof fn lemma_delete_then_resolve(pre: Map<Seq<char>, Seq<char>>, id: Seq<char>)
    ensures
        !pre.remove(id).contains_key(id),
        !pre.contains_key(id) ==> pre.remove(id) == pre,
{
    if !pre.contains_key(id) {
        assert(pre.remove(id) =~= pre);
    }
}

/// Law: sampling without replacement never repeats a word within one
/// identifier: when the word list holds no duplicate entry, the words of
/// any valid draw are pairwise distinct.
pub proof fn lemma_no_repeated_word(words: Seq<Seq<char>>, idxs: Seq<usize>)
    requires
        valid_draw(idxs, words.len()),
        forall|i: int, j: int| 0 <= i < j < words.len() ==> words[i] != words[j],
    ensures
        forall|i: int, j: int|
            0 <= i < j < idxs.len() ==> words[idxs[i] as int] != words[idxs[j] as int],
{
    assert forall|i: int, j: int|
        0 <= i < j < idxs.len() implies words[idxs[i] as int] != words[idxs[j] as int] by {
        let a = idxs[i] as int;
        let b = idxs[j] as int;
        if a < b {
            assert(words[a] != words[b]);
        } else {
            assert(words[b] != words[a]);
        }
    }
}

} // verus!
