//! Client names: lists without repetition, and the set of clients that voted.

use vstd::prelude::*;
use vstd::seq_lib::seq_to_set_is_finite;

verus! {

/// The names as plain text.
pub open spec fn names_view(names: Seq<String>) -> Seq<Seq<char>> {
    Seq::new(names.len(), |i: int| names[i]@)
}

/// In a list without repetition a name stands at one index only.
pub proof fn lemma_index_of(names: Seq<Seq<char>>, i: int)
    requires
        names.no_duplicates(),
        0 <= i < names.len(),
    ensures
        names.index_of(names[i]) == i,
        names.contains(names[i]),
{
    let k = names[i];
    let j = names.index_of(k);
    assert(0 <= j < names.len() && names[j] == k);
}

/// Where `name` stands in `names`, if it does.
pub fn find_name(names: &Vec<String>, name: &String) -> (r: Option<usize>)
    ensures
        match r {
            Some(i) => i < names.len() && names[i as int]@ == name@,
            None => !names_view(names@).contains(name@),
        },
{
    let mut i: usize = 0;
    while i < names.len()
        invariant
            i <= names.len(),
            forall|j: int| 0 <= j < i ==> names[j]@ != name@,
        decreases names.len() - i,
    {
        if names[i] == *name {
            return Some(i);
        }
        i += 1;
    }
    proof {
        let nv = names_view(names@);
        assert forall|j: int| 0 <= j < nv.len() implies nv[j] != name@ by {
            assert(nv[j] == names[j]@);
        }
    }
    None
}

/// Pushing a name that the list lacks keeps it free of repetition.
pub proof fn lemma_push_distinct(names: Seq<String>, name: String)
    requires
        names_view(names).no_duplicates(),
        !names_view(names).contains(name@),
    ensures
        names_view(names.push(name)).no_duplicates(),
        names_view(names.push(name)) == names_view(names).push(name@),
{
    let old_v = names_view(names);
    let new_v = names_view(names.push(name));
    assert(new_v =~= old_v.push(name@));
    assert forall|i: int, j: int|
        0 <= i < new_v.len() && 0 <= j < new_v.len() && i != j implies new_v[i] != new_v[j] by {
        if i < old_v.len() && j < old_v.len() {
            assert(old_v[i] != old_v[j]);
        } else if i < old_v.len() {
            assert(old_v[i] != name@);
        } else {
            assert(old_v[j] != name@);
        }
    }
}

/// The clients that voted to close the running epoch.
#[derive(Debug)]
pub struct NameSet {
    names: Vec<String>,
}

impl View for NameSet {
    type V = Set<Seq<char>>;

    closed spec fn view(&self) -> Set<Seq<char>> {
        names_view(self.names@).to_set()
    }
}

impl NameSet {
    /// No name is held twice.
    pub closed spec fn wf(&self) -> bool {
        names_view(self.names@).no_duplicates()
    }

    pub proof fn lemma_finite(&self)
        ensures
            self@.finite(),
    {
        seq_to_set_is_finite(names_view(self.names@));
    }

    pub fn new() -> (r: NameSet)
        ensures
            r.wf(),
            r@ == Set::<Seq<char>>::empty(),
    {
        let r = NameSet { names: Vec::new() };
        assert(r@ =~= Set::<Seq<char>>::empty());
        r
    }

    /// The number of names held.
    pub fn len(&self) -> (n: usize)
        requires
            self.wf(),
        ensures
            n == self@.len(),
            self@.finite(),
    {
        proof {
            names_view(self.names@).unique_seq_to_set();
            self.lemma_finite();
        }
        self.names.len()
    }

    pub fn contains(&self, name: &String) -> (r: bool)
        ensures
            r == self@.contains(name@),
    {
        let found = find_name(&self.names, name);
        proof {
            if let Some(i) = found {
                assert(names_view(self.names@)[i as int] == name@);
            }
        }
        found.is_some()
    }

    /// Adds `name`; says whether it was new.
    pub fn insert(&mut self, name: String) -> (fresh: bool)
        requires
            old(self).wf(),
        ensures
            final(self).wf(),
            fresh == !old(self)@.contains(name@),
            final(self)@ == old(self)@.insert(name@),
    {
        if self.contains(&name) {
            assert(final(self)@ =~= old(self)@.insert(name@));
            false
        } else {
            proof {
                lemma_push_distinct(self.names@, name);
                names_view(self.names@).lemma_push_to_set_commute(name@);
            }
            self.names.push(name);
            true
        }
    }

    pub fn clear(&mut self)
        ensures
            final(self).wf(),
            final(self)@ == Set::<Seq<char>>::empty(),
    {
        self.names = Vec::new();
        assert(final(self)@ =~= Set::<Seq<char>>::empty());
    }
}

} // verus!
