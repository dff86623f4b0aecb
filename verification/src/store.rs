//! The redirect table: a mapping from identifier to target URL with
//! store-enforced uniqueness. `insert_if_absent` is the sole way a row is
//! created, so at most one insert for a given identifier can ever succeed
//! while that identifier is present.

use vstd::prelude::*;

verus! {

/// One row of the redirect table.
pub struct UrlRedirect {
    pub ident: String,
    pub target: String,
}

/// The mathematical content of a sequence of rows: the map from identifier
/// to target. Later rows take precedence, though a well-formed store never
/// holds two rows with one identifier.
pub open spec fn map_of(rows: Seq<UrlRedirect>) -> Map<Seq<char>, Seq<char>>
    decreases rows.len(),
{
    if rows.len() == 0 {
        Map::empty()
    } else {
        map_of(rows.drop_last()).insert(rows.last().ident@, rows.last().target@)
    }
}

/// No two rows share an identifier.
pub open spec fn distinct_idents(rows: Seq<UrlRedirect>) -> bool {
    forall|i: int, j: int| 0 <= i < j < rows.len() ==> rows[i].ident@ != rows[j].ident@
}

proof fn lemma_map_of_contains(rows: Seq<UrlRedirect>, k: Seq<char>)
    ensures
        map_of(rows).contains_key(k) <==> exists|i: int|
            0 <= i < rows.len() && (#[trigger] rows[i]).ident@ == k,
    decreases rows.len(),
{
    if rows.len() > 0 {
        lemma_map_of_contains(rows.drop_last(), k);
        if rows.last().ident@ == k {
            assert(rows[rows.len() - 1].ident@ == k);
        } else if map_of(rows).contains_key(k) {
            let i = choose|i: int| 0 <= i < rows.drop_last().len() && (#[trigger] rows.drop_last()[i]).ident@ == k;
            assert(rows[i].ident@ == k);
        } else {
            assert(forall|i: int| 0 <= i < rows.len() - 1 ==> (#[trigger] rows[i]) == rows.drop_last()[i]);
        }
    }
}

proof fn lemma_map_of_get(rows: Seq<UrlRedirect>, i: int)
    requires
        distinct_idents(rows),
        0 <= i < rows.len(),
    ensures
        map_of(rows).contains_key(rows[i].ident@),
        map_of(rows)[rows[i].ident@] == rows[i].target@,
    decreases rows.len(),
{
    if i == rows.len() - 1 {
    } else {
        assert(forall|j: int| 0 <= j < rows.len() - 1 ==> (#[trigger] rows[j]) == rows.drop_last()[j]);
        lemma_map_of_get(rows.drop_last(), i);
        assert(rows[i].ident@ != rows.last().ident@);
    }
}

/// The redirect table. Its invariant: identifiers are unique and never
/// empty.
pub struct RedirectStore {
    rows: Vec<UrlRedirect>,
}

impl View for RedirectStore {
    type V = Map<Seq<char>, Seq<char>>;

    closed spec fn view(&self) -> Map<Seq<char>, Seq<char>> {
        map_of(self.rows@)
    }
}

impl RedirectStore {
    /// Well-formedness: at most one row per identifier, no empty identifier.
    pub closed spec fn wf(&self) -> bool {
        distinct_idents(self.rows@) && (forall|i: int|
            0 <= i < self.rows@.len() ==> (#[trigger] self.rows@[i]).ident@.len() >= 1)
    }

    /// An empty table.
    pub fn new() -> (s: Self)
        ensures
            s.wf(),
            s@ == Map::<Seq<char>, Seq<char>>::empty(),
    {
        RedirectStore { rows: Vec::new() }
    }

    /// Every identifier the table holds is non-empty.
    pub proof fn lemma_no_empty_ident(&self)
        requires
            self.wf(),
        ensures
            !self@.contains_key(Seq::<char>::empty()),
    {
        lemma_map_of_contains(self.rows@, Seq::<char>::empty());
    }

    fn find_row(&self, ident: &String) -> (r: Option<usize>)
        ensures
            match r {
                Some(i) => i < self.rows@.len() && self.rows@[i as int].ident@ == ident@,
                None => forall|i: int|
                    0 <= i < self.rows@.len() ==> (#[trigger] self.rows@[i]).ident@ != ident@,
            },
    {
        let mut k: usize = 0;
        while k < self.rows.len()
            invariant
                k <= self.rows@.len(),
                forall|i: int| 0 <= i < k ==> (#[trigger] self.rows@[i]).ident@ != ident@,
            decreases self.rows@.len() - k,
        {
            if self.rows[k].ident == *ident {
                return Some(k);
            }
            k = k + 1;
        }
        None
    }

    /// One read of the table: the stored target for `ident`, or nothing when
    /// no row exists for it.
    pub fn get(&self, ident: &String) -> (r: Option<&String>)
        requires
            self.wf(),
        ensures
            match r {
                Some(t) => self@.contains_key(ident@) && t@ == self@[ident@],
                None => !self@.contains_key(ident@),
            },
    {
        let found = self.find_row(ident);
        proof {
            lemma_map_of_contains(self.rows@, ident@);
        }
        match found {
            Some(i) => {
                proof {
                    lemma_map_of_get(self.rows@, i as int);
                }
                Some(&self.rows[i].target)
            },
            None => None,
        }
    }

    /// The atomic check-and-insert: create the row unless the identifier is
    /// already taken. Succeeds if and only if `ident` was absent; on
    /// conflict the table is unchanged.
    pub fn insert_if_absent(&mut self, ident: String, target: String) -> (r: bool)
        requires
            old(self).wf(),
            ident@.len() >= 1,
        ensures
            final(self).wf(),
            r == !old(self)@.contains_key(ident@),
            r ==> final(self)@ == old(self)@.insert(ident@, target@),
            !r ==> final(self)@ == old(self)@,
    {
        let found = self.find_row(&ident);
        proof {
            lemma_map_of_contains(self.rows@, ident@);
        }
        match found {
            Some(_) => false,
            None => {
                let ghost pre = self.rows@;
                self.rows.push(UrlRedirect { ident, target });
                proof {
                    assert(self.rows@.drop_last() =~= pre);
                }
                true
            },
        }
    }

    /// Remove the row for `ident`, if any. Idempotent: deleting an absent
    /// identifier leaves the table exactly as it was.
    pub fn delete(&mut self, ident: &String)
        requires
            old(self).wf(),
        ensures
            final(self).wf(),
            final(self)@ == old(self)@.remove(ident@),
    {
        let found = self.find_row(ident);
        proof {
            lemma_map_of_contains(self.rows@, ident@);
        }
        match found {
            Some(i) => {
                proof {
                    lemma_map_of_remove(self.rows@, i as int);
                }
                self.rows.remove(i);
            },
            None => {
                proof {
                    assert(self@.remove(ident@) =~= self@);
                }
            },
        }
    }
}

proof fn lemma_map_of_remove(rows: Seq<UrlRedirect>, i: int)
    requires
        distinct_idents(rows),
        0 <= i < rows.len(),
    ensures
        map_of(rows.remove(i)) == map_of(rows).remove(rows[i].ident@),
        distinct_idents(rows.remove(i)),
    decreases rows.len(),
{
    let k = rows[i].ident@;
    if i == rows.len() - 1 {
        assert(rows.remove(i) =~= rows.drop_last());
        lemma_map_of_contains(rows.drop_last(), k);
        assert(forall|j: int| 0 <= j < rows.len() - 1 ==> (#[trigger] rows[j]) == rows.drop_last()[j]);
        assert(!map_of(rows.drop_last()).contains_key(k));
        assert(map_of(rows.drop_last()).insert(k, rows.last().target@).remove(k) =~= map_of(
            rows.drop_last(),
        ));
    } else {
        assert(forall|j: int| 0 <= j < rows.len() - 1 ==> (#[trigger] rows[j]) == rows.drop_last()[j]);
        lemma_map_of_remove(rows.drop_last(), i);
        assert(rows.remove(i).drop_last() =~= rows.drop_last().remove(i));
        assert(rows.remove(i).last() == rows.last());
        assert(k != rows.last().ident@);
        assert(map_of(rows.drop_last()).remove(k).insert(rows.last().ident@, rows.last().target@)
            =~= map_of(rows.drop_last()).insert(rows.last().ident@, rows.last().target@).remove(k));
    }
}

} // verus!
