use vstd::prelude::*;

use crate::assoc::{
    distinct_elems, lemma_set_absent, lemma_set_at, lemma_set_push, lemma_set_remove, set_of,
};

verus! {

/// The view function that takes an identifier string to its abstract value.
pub open spec fn str_v() -> spec_fn(String) -> Seq<char> {
    |x: String| x@
}

/// A set of identifier strings, kept as a vector without duplicates.
#[derive(Debug)]
pub struct StrSet {
    items: Vec<String>,
}

impl View for StrSet {
    type V = Set<Seq<char>>;

    closed spec fn view(&self) -> Set<Seq<char>> {
        set_of(self.items@, str_v())
    }
}

impl StrSet {
    /// The vector holds no two strings with the same characters.
    pub closed spec fn wf(self) -> bool {
        distinct_elems(self.items@, str_v())
    }

    /// Builds the empty set.
    pub fn new() -> (r: StrSet)
        ensures
            r@ == Set::<Seq<char>>::empty(),
            r.wf(),
    {
        StrSet { items: Vec::new() }
    }

    /// Where the given string sits in the vector, if anywhere.
    fn index_of(&self, x: &String) -> (r: Option<usize>)
        ensures
            match r {
                Option::Some(i) => i < self.items@.len() && self.items@[i as int]@ == x@,
                Option::None => forall|j: int| 0 <= j < self.items@.len()
                    ==> self.items@[j]@ != x@,
            },
    {
        let n = self.items.len();
        let mut i: usize = 0;
        while i < n
            invariant
                n == self.items@.len(),
                i <= n,
                forall|j: int| 0 <= j < i ==> self.items@[j]@ != x@,
            decreases n - i,
        {
            if self.items[i] == *x {
                return Option::Some(i);
            }
            i = i + 1;
        }
        Option::None
    }

    /// Returns whether the set holds the given string.
    pub fn contains(&self, x: &String) -> (r: bool)
        ensures
            r == self@.contains(x@),
    {
        match self.index_of(x) {
            Option::Some(i) => {
                proof {
                    lemma_set_at(self.items@, str_v(), i as int);
                }
                true
            },
            Option::None => {
                proof {
                    lemma_set_absent(self.items@, str_v(), x@);
                }
                false
            },
        }
    }

    /// Adds a string; reports whether the set grew.
    pub fn insert(&mut self, x: String) -> (r: bool)
        requires
            old(self).wf(),
        ensures
            final(self).wf(),
            final(self)@ == old(self)@.insert(x@),
            r == !old(self)@.contains(x@),
    {
        match self.index_of(&x) {
            Option::Some(i) => {
                proof {
                    lemma_set_at(self.items@, str_v(), i as int);
                    assert(self@ =~= self@.insert(x@));
                }
                false
            },
            Option::None => {
                proof {
                    lemma_set_absent(self.items@, str_v(), x@);
                    lemma_set_push(self.items@, str_v(), x);
                }
                self.items.push(x);
                true
            },
        }
    }

    /// Takes a string out; reports whether it was there.
    pub fn remove(&mut self, x: &String) -> (r: bool)
        requires
            old(self).wf(),
        ensures
            final(self).wf(),
            final(self)@ == old(self)@.remove(x@),
            r == old(self)@.contains(x@),
    {
        match self.index_of(x) {
            Option::Some(i) => {
                proof {
                    lemma_set_at(self.items@, str_v(), i as int);
                    lemma_set_remove(self.items@, str_v(), i as int);
                }
                self.items.remove(i);
                true
            },
            Option::None => {
                proof {
                    lemma_set_absent(self.items@, str_v(), x@);
                    assert(self@ =~= self@.remove(x@));
                }
                false
            },
        }
    }

    /// Throws the old contents away and takes exactly the given strings.
    pub fn replace_all(&mut self, xs: &Vec<String>)
        ensures
            final(self).wf(),
            final(self)@ == set_of(xs@, str_v()),
    {
        self.items.clear();
        let n = xs.len();
        let mut i: usize = 0;
        while i < n
            invariant
                n == xs@.len(),
                i <= n,
                self.wf(),
                self@ == set_of(xs@.subrange(0, i as int), str_v()),
            decreases n - i,
        {
            let ghost prefix = xs@.subrange(0, i as int);
            self.insert(xs[i].clone());
            proof {
                lemma_set_push(prefix, str_v(), xs@[i as int]);
                assert(prefix.push(xs@[i as int]) =~= xs@.subrange(0, i as int + 1));
            }
            i = i + 1;
        }
        proof {
            assert(xs@.subrange(0, n as int) =~= xs@);
        }
    }

    /// Hands the contents out as an owned vector without duplicates.
    pub fn to_vec(&self) -> (r: Vec<String>)
        requires
            self.wf(),
        ensures
            set_of(r@, str_v()) == self@,
            distinct_elems(r@, str_v()),
    {
        let n = self.items.len();
        let mut r: Vec<String> = Vec::new();
        let mut i: usize = 0;
        while i < n
            invariant
                n == self.items@.len(),
                i <= n,
                r@.len() == i,
                forall|j: int| 0 <= j < i ==> r@[j]@ == self.items@[j]@,
            decreases n - i,
        {
            r.push(self.items[i].clone());
            i = i + 1;
        }
        proof {
            assert(r@.map_values(|x: String| x@) =~= self.items@.map_values(|x: String| x@));
            lemma_set_of_same_views(r@, self.items@);
        }
        r
    }
}

/// Two string sequences with the same views element by element denote the same
/// set and are alike in distinctness.
proof fn lemma_set_of_same_views(a: Seq<String>, b: Seq<String>)
    requires
        a.len() == b.len(),
        forall|j: int| 0 <= j < a.len() ==> a[j]@ == b[j]@,
    ensures
        set_of(a, str_v()) == set_of(b, str_v()),
        distinct_elems(a, str_v()) == distinct_elems(b, str_v()),
    decreases a.len(),
{
    if a.len() > 0 {
        assert(forall|j: int| 0 <= j < a.drop_last().len() ==> a.drop_last()[j]@ == b.drop_last()[j]@);
        lemma_set_of_same_views(a.drop_last(), b.drop_last());
        assert(set_of(a, str_v()) =~= set_of(b, str_v()));
    }
}

} // verus!
