//! A map keyed by client name that keeps its keys in the order in which they
//! first came.

use vstd::prelude::*;
use vstd::seq_lib::seq_to_set_is_finite;
use vstd::slice::slice_to_vec;
use crate::names::find_name;
use crate::names::lemma_index_of;
use crate::names::lemma_push_distinct;
use crate::names::names_view;

verus! {

/// A value that can be copied with its view kept.
pub trait Duplicate: View + Sized {
    fn duplicate(&self) -> (r: Self)
        ensures
            r@ == self@,
    ;
}

impl Duplicate for Vec<u8> {
    fn duplicate(&self) -> (r: Self) {
        slice_to_vec(self.as_slice())
    }
}

/// A map from client names to values.
#[derive(Debug, Clone)]
pub struct NameMap<V> {
    names: Vec<String>,
    values: Vec<V>,
}

impl<V: View> View for NameMap<V> {
    type V = Map<Seq<char>, V::V>;

    closed spec fn view(&self) -> Map<Seq<char>, V::V> {
        Map::new(
            |k: Seq<char>| names_view(self.names@).contains(k),
            |k: Seq<char>| self.values[names_view(self.names@).index_of(k)]@,
        )
    }
}

impl<V: View> NameMap<V> {
    /// The keys, oldest first.
    pub closed spec fn order(&self) -> Seq<Seq<char>> {
        names_view(self.names@)
    }

    /// Every key has one value and stands once.
    pub closed spec fn wf(&self) -> bool {
        self.names.len() == self.values.len() && names_view(self.names@).no_duplicates()
    }

    /// `order` lists the keys of the map, each once.
    pub proof fn lemma_order(&self)
        requires
            self.wf(),
        ensures
            self.order().no_duplicates(),
            self@.dom() == self.order().to_set(),
            self@.dom().finite(),
            self@.len() == self.order().len(),
            forall|i: int| 0 <= i < self.order().len() ==> self@.contains_key(#[trigger] self.order()[i]),
    {
        let o = self.order();
        assert(self@.dom() =~= o.to_set());
        seq_to_set_is_finite(o);
        o.unique_seq_to_set();
        assert forall|i: int| 0 <= i < o.len() implies self@.contains_key(#[trigger] o[i]) by {
            lemma_index_of(o, i);
        }
    }

    pub fn new() -> (r: NameMap<V>)
        ensures
            r.wf(),
            r@ == Map::<Seq<char>, V::V>::empty(),
            r.order() == Seq::<Seq<char>>::empty(),
    {
        let r = NameMap { names: Vec::new(), values: Vec::new() };
        assert(r@ =~= Map::<Seq<char>, V::V>::empty());
        assert(r.order() =~= Seq::<Seq<char>>::empty());
        r
    }

    /// The number of keys.
    pub fn len(&self) -> (n: usize)
        requires
            self.wf(),
        ensures
            n == self.order().len(),
            n == self@.len(),
    {
        proof {
            self.lemma_order();
        }
        self.names.len()
    }

    /// The value stored under `name`, if there is one.
    pub fn get(&self, name: &String) -> (r: Option<&V>)
        requires
            self.wf(),
        ensures
            match r {
                Some(v) => self@.contains_key(name@) && v@ == self@[name@],
                None => !self@.contains_key(name@),
            },
    {
        match find_name(&self.names, name) {
            Some(i) => {
                proof {
                    assert(self.order()[i as int] == name@);
                    lemma_index_of(self.order(), i as int);
                }
                Some(&self.values[i])
            },
            None => None,
        }
    }

    /// Stores `value` under `name`, in place of an earlier value if there
    /// was one; says whether there was.
    pub fn insert(&mut self, name: String, value: V) -> (replaced: bool)
        requires
            old(self).wf(),
        ensures
            final(self).wf(),
            final(self)@ == old(self)@.insert(name@, value@),
            replaced == old(self)@.contains_key(name@),
            final(self).order() == if replaced {
                old(self).order()
            } else {
                old(self).order().push(name@)
            },
    {
        let ghost o = self.order();
        let ghost old_values = self.values@;
        match find_name(&self.names, &name) {
            Some(i) => {
                proof {
                    assert(o[i as int] == name@);
                    lemma_index_of(o, i as int);
                }
                self.values.set(i, value);
                proof {
                    assert forall|k: Seq<char>| o.contains(k) && k != name@ implies o.index_of(k)
                        != i by {
                        let j = o.index_of(k);
                        assert(0 <= j < o.len() && o[j] == k);
                    }
                    assert(final(self)@ =~= old(self)@.insert(name@, value@));
                }
                true
            },
            None => {
                proof {
                    lemma_push_distinct(self.names@, name);
                }
                let ghost n = o.push(name@);
                self.names.push(name);
                self.values.push(value);
                proof {
                    assert(self.order() == n);
                    assert forall|k: Seq<char>| o.contains(k) implies n.index_of(k) == o.index_of(
                        k,
                    ) && n.contains(k) by {
                        let j = o.index_of(k);
                        assert(0 <= j < o.len() && o[j] == k);
                        assert(n[j] == k);
                        lemma_index_of(n, j);
                    }
                    assert(n[o.len() as int] == name@);
                    lemma_index_of(n, o.len() as int);
                    assert forall|k: Seq<char>| n.contains(k) implies o.contains(k) || k
                        == name@ by {
                        let j = n.index_of(k);
                        assert(0 <= j < n.len() && n[j] == k);
                        if j < o.len() {
                            assert(o[j] == k);
                        }
                    }
                    assert(final(self)@ =~= old(self)@.insert(name@, value@));
                }
                false
            },
        }
    }

    /// Drops every entry.
    pub fn clear(&mut self)
        ensures
            final(self).wf(),
            final(self)@ == Map::<Seq<char>, V::V>::empty(),
            final(self).order() == Seq::<Seq<char>>::empty(),
    {
        self.names = Vec::new();
        self.values = Vec::new();
        assert(final(self)@ =~= Map::<Seq<char>, V::V>::empty());
        assert(final(self).order() =~= Seq::<Seq<char>>::empty());
    }

    /// The key at place `i` of `order`.
    pub fn name_at(&self, i: usize) -> (r: &String)
        requires
            self.wf(),
            i < self.order().len(),
        ensures
            r@ == self.order()[i as int],
    {
        &self.names[i]
    }

    /// The value of the key at place `i` of `order`.
    pub fn value_at(&self, i: usize) -> (r: &V)
        requires
            self.wf(),
            i < self.order().len(),
        ensures
            r@ == self@[self.order()[i as int]],
            self@.contains_key(self.order()[i as int]),
    {
        proof {
            lemma_index_of(self.order(), i as int);
        }
        &self.values[i]
    }
}

impl<V: Duplicate> NameMap<V> {
    /// A copy with the same entries in the same order.
    pub fn snapshot(&self) -> (r: NameMap<V>)
        requires
            self.wf(),
        ensures
            r.wf(),
            r@ == self@,
            r.order() == self.order(),
    {
        let mut out: NameMap<V> = NameMap::new();
        let n = self.len();
        let mut i: usize = 0;
        proof {
            self.lemma_order();
        }
        while i < n
            invariant
                self.wf(),
                out.wf(),
                n == self.order().len(),
                i <= n,
                self.order().no_duplicates(),
                out.order() == self.order().take(i as int),
                forall|j: int|
                    0 <= j < i ==> out@.contains_key(#[trigger] self.order()[j]) && out@[self.order()[j]]
                        == self@[self.order()[j]],
            decreases n - i,
        {
            let ghost before = out;
            let name = self.name_at(i).clone();
            let value = self.value_at(i).duplicate();
            proof {
                before.lemma_order();
                let o = self.order();
                if before@.contains_key(o[i as int]) {
                    let j = before.order().index_of(o[i as int]);
                    assert(0 <= j < i && before.order()[j] == o[i as int]);
                    assert(o[j] == o[i as int]);
                }
            }
            out.insert(name, value);
            proof {
                assert(out.order() =~= self.order().take(i + 1));
            }
            i += 1;
        }
        proof {
            out.lemma_order();
            assert(self.order().take(n as int) =~= self.order());
            assert forall|k: Seq<char>| self@.contains_key(k) implies out@[k] == self@[k] by {
                let j = self.order().index_of(k);
                assert(0 <= j < n && self.order()[j] == k);
            }
            assert(out@ =~= self@);
        }
        out
    }
}

} // verus!
