//! A small map keyed by text.
//!
//! Entries live in insertion order in a vector; no key occurs twice. The
//! tables in this crate hold one row per conversation, agent or session, so
//! a linear scan is the whole lookup.

use crate::text::{contains, same};
use vstd::prelude::*;

verus! {

/// A map from text to `V`. Its view is a `Map` over the characters of the
/// keys.
pub struct Table<V> {
    entries: Vec<(String, V)>,
}

spec fn distinct<V>(e: Seq<(String, V)>) -> bool {
    forall|i: int, j: int| 0 <= i < j < e.len() ==> #[trigger] e[i].0@ != #[trigger] e[j].0@
}

spec fn contents<V>(e: Seq<(String, V)>) -> Map<Seq<char>, V>
    decreases e.len(),
{
    if e.len() == 0 {
        Map::empty()
    } else {
        contents(e.drop_last()).insert(e.last().0@, e.last().1)
    }
}

proof fn lemma_contents<V>(e: Seq<(String, V)>)
    requires
        distinct(e),
    ensures
        forall|k: Seq<char>| #[trigger]
            contents(e).dom().contains(k) <==> exists|i: int|
                0 <= i < e.len() && #[trigger] e[i].0@ == k,
        forall|i: int|
            0 <= i < e.len() ==> contents(e).dom().contains(#[trigger] e[i].0@) && contents(
                e,
            )[e[i].0@] == e[i].1,
        contents(e).dom().finite(),
        contents(e).dom().len() == e.len(),
    decreases e.len(),
{
    if e.len() > 0 {
        let d = e.drop_last();
        assert(distinct(d)) by {
            assert forall|i: int, j: int| 0 <= i < j < d.len() implies #[trigger] d[i].0@
                != #[trigger] d[j].0@ by {
                assert(d[i] == e[i] && d[j] == e[j]);
            }
        }
        lemma_contents(d);
        let last = e.last().0@;
        assert(!contents(d).dom().contains(last)) by {
            if contents(d).dom().contains(last) {
                let i = choose|i: int| 0 <= i < d.len() && #[trigger] d[i].0@ == last;
                assert(e[i].0@ == e[e.len() - 1].0@);
            }
        }
        assert forall|k: Seq<char>| #[trigger]
            contents(e).dom().contains(k) implies exists|i: int|
            0 <= i < e.len() && #[trigger] e[i].0@ == k by {
            if k == last {
                assert(e[e.len() - 1].0@ == k);
            } else {
                let i = choose|i: int| 0 <= i < d.len() && #[trigger] d[i].0@ == k;
                assert(e[i].0@ == k);
            }
        }
        assert forall|i: int| 0 <= i < e.len() implies contents(e).dom().contains(
            #[trigger] e[i].0@,
        ) && contents(e)[e[i].0@] == e[i].1 by {
            if i < d.len() {
                assert(d[i].0@ == e[i].0@);
                assert(e[i].0@ != e[e.len() - 1].0@);
            }
        }
        assert(contents(e).dom() =~= contents(d).dom().insert(last));
    }
}

impl<V> View for Table<V> {
    type V = Map<Seq<char>, V>;

    closed spec fn view(&self) -> Map<Seq<char>, V> {
        contents(self.entries@)
    }
}

impl<V> Table<V> {
    #[verifier::type_invariant]
    spec fn keys_are_distinct(self) -> bool {
        distinct(self.entries@)
    }

    /// An empty table.
    pub fn new() -> (r: Self)
        ensures
            r@ == Map::<Seq<char>, V>::empty(),
    {
        Table { entries: Vec::new() }
    }

    fn position(&self, key: &str) -> (r: Option<usize>)
        ensures
            r matches Some(i) ==> i < self.entries@.len() && self.entries@[i as int].0@ == key@,
            r is None ==> forall|i: int|
                0 <= i < self.entries@.len() ==> #[trigger] self.entries@[i].0@ != key@,
    {
        let mut i: usize = 0;
        while i < self.entries.len()
            invariant
                i <= self.entries@.len(),
                forall|k: int| 0 <= k < i ==> #[trigger] self.entries@[k].0@ != key@,
            decreases self.entries@.len() - i,
        {
            if same(self.entries[i].0.as_str(), key) {
                return Some(i);
            }
            i = i + 1;
        }
        None
    }

    /// What `key` maps to.
    pub fn get(&self, key: &str) -> (r: Option<&V>)
        ensures
            r is Some <==> self@.dom().contains(key@),
            r matches Some(v) ==> *v == self@[key@],
    {
        proof {
            use_type_invariant(self);
            lemma_contents(self.entries@);
        }
        match self.position(key) {
            Some(i) => {
                proof {
                    assert(self.entries@[i as int].0@ == key@);
                }
                Some(&self.entries[i].1)
            },
            None => None,
        }
    }

    /// Whether `key` has a row.
    pub fn contains(&self, key: &str) -> (r: bool)
        ensures
            r == self@.dom().contains(key@),
    {
        self.get(key).is_some()
    }

    /// How many rows there are.
    pub fn len(&self) -> (r: usize)
        ensures
            r == self@.dom().len(),
            self@.dom().finite(),
    {
        proof {
            use_type_invariant(self);
            lemma_contents(self.entries@);
        }
        self.entries.len()
    }

    /// Drop the row for `key` and return what it held.
    pub fn remove(&mut self, key: &str) -> (r: Option<V>)
        ensures
            final(self)@ == old(self)@.remove(key@),
            r is Some <==> old(self)@.dom().contains(key@),
            r matches Some(v) ==> v == old(self)@[key@],
    {
        proof {
            use_type_invariant(&*self);
            lemma_contents(self.entries@);
        }
        let ghost before = self.entries@;
        match self.position(key) {
            Some(i) => {
                let mut entries: Vec<(String, V)> = Vec::new();
                core::mem::swap(&mut self.entries, &mut entries);
                let (_, value) = entries.remove(i);
                proof {
                    let after = before.remove(i as int);
                    assert(entries@ =~= after);
                    assert(distinct(after)) by {
                        assert forall|p: int, q: int| 0 <= p < q < after.len() implies
                            #[trigger] after[p].0@ != #[trigger] after[q].0@ by {
                            let p2 = if p < i { p } else { p + 1 };
                            let q2 = if q < i { q } else { q + 1 };
                            assert(after[p] == before[p2] && after[q] == before[q2]);
                        }
                    }
                    lemma_removed(before, i as int);
                }
                core::mem::swap(&mut self.entries, &mut entries);
                Some(value)
            },
            None => {
                proof {
                    assert(contents(before).remove(key@) =~= contents(before));
                }
                None
            },
        }
    }

    /// Give `key` the value `value`, replacing whatever it had.
    pub fn insert(&mut self, key: &str, value: V)
        ensures
            final(self)@ == old(self)@.insert(key@, value),
    {
        let ghost start = self@;
        let _ = self.remove(key);
        proof {
            use_type_invariant(&*self);
            lemma_contents(self.entries@);
        }
        let ghost before = self.entries@;
        let mut entries: Vec<(String, V)> = Vec::new();
        core::mem::swap(&mut self.entries, &mut entries);
        entries.push((key.to_owned(), value));
        proof {
            let after = entries@;
            assert(after.drop_last() =~= before);
            assert(!contents(before).dom().contains(key@));
            assert(distinct(after)) by {
                assert forall|p: int, q: int| 0 <= p < q < after.len() implies #[trigger] after[p].0@
                    != #[trigger] after[q].0@ by {
                    assert(after[p] == before[p]);
                    if q < before.len() {
                        assert(after[q] == before[q]);
                    } else {
                        assert(contents(before).dom().contains(before[p].0@));
                    }
                }
            }
            assert(contents(after) =~= start.insert(key@, value));
        }
        core::mem::swap(&mut self.entries, &mut entries);
    }
}

proof fn lemma_removed<V>(e: Seq<(String, V)>, i: int)
    requires
        distinct(e),
        0 <= i < e.len(),
        distinct(e.remove(i)),
    ensures
        contents(e.remove(i)) == contents(e).remove(e[i].0@),
{
    let a = e.remove(i);
    lemma_contents(e);
    lemma_contents(a);
    assert forall|k: Seq<char>| contents(a).dom().contains(k) implies contents(e).remove(
        e[i].0@,
    ).dom().contains(k) && contents(a)[k] == contents(e)[k] by {
        let p = choose|p: int| 0 <= p < a.len() && #[trigger] a[p].0@ == k;
        let p2 = if p < i { p } else { p + 1 };
        assert(a[p] == e[p2]);
        assert(e[p2].0@ == k);
        assert(p2 != i);
        assert(e[i].0@ != k);
        assert(contents(a)[a[p].0@] == a[p].1);
    }
    assert forall|k: Seq<char>|
        contents(e).remove(e[i].0@).dom().contains(k) implies contents(a).dom().contains(k) by {
        let p = choose|p: int| 0 <= p < e.len() && #[trigger] e[p].0@ == k;
        assert(p != i);
        let p2 = if p < i { p } else { p - 1 };
        assert(a[p2] == e[p]);
        assert(a[p2].0@ == k);
    }
    assert(contents(a) =~= contents(e).remove(e[i].0@));
}

} // verus!
