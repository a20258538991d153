//! A scope: the variable bindings of one call frame.
//!
//! Seen from outside it is a mapping from identifier to value; inside it is a
//! list of bindings in which the most recent binding of a name wins, so an
//! insert either introduces or shadows a name.

use crate::value::{Value, ValueModel};
use vstd::prelude::*;

verus! {

/// The binding a list of entries gives a name: the value of the most recent
/// entry carrying it, if any does.
spec fn lookup(s: Seq<(String, Value)>, k: Seq<char>) -> Option<ValueModel>
    decreases s.len(),
{
    if s.len() == 0 {
        None
    } else if s.last().0@ == k {
        Some(s.last().1@)
    } else {
        lookup(s.drop_last(), k)
    }
}

proof fn lemma_lookup_prefix(s: Seq<(String, Value)>, k: Seq<char>, i: int)
    requires
        0 <= i <= s.len(),
        forall|j: int| i <= j < s.len() ==> s[j].0@ != k,
    ensures
        lookup(s, k) == lookup(s.subrange(0, i), k),
    decreases s.len() - i,
{
    if i == s.len() {
        assert(s.subrange(0, i) =~= s);
    } else {
        lemma_lookup_prefix(s, k, i + 1);
        let t = s.subrange(0, i + 1);
        assert(t.last().0@ != k);
        assert(t.drop_last() =~= s.subrange(0, i));
    }
}

/// A mapping from identifier to value, created fresh per call frame.
#[derive(Debug)]
pub struct Scope {
    entries: Vec<(String, Value)>,
}

impl View for Scope {
    type V = Map<Seq<char>, ValueModel>;

    closed spec fn view(&self) -> Map<Seq<char>, ValueModel> {
        Map::new(
            |k: Seq<char>| lookup(self.entries@, k) is Some,
            |k: Seq<char>| lookup(self.entries@, k)->Some_0,
        )
    }
}

impl Scope {
    /// A scope with no bindings.
    pub fn new() -> (r: Scope)
        ensures
            r@ == Map::<Seq<char>, ValueModel>::empty(),
    {
        let r = Scope { entries: Vec::new() };
        proof {
            assert(r@ =~= Map::<Seq<char>, ValueModel>::empty());
        }
        r
    }

    /// The value bound to a name, cloned, or `None` where the name is absent.
    pub fn get(&self, name: &String) -> (r: Option<Value>)
        ensures
            match r {
                Some(v) => self@.contains_key(name@) && v@ == self@[name@],
                None => !self@.contains_key(name@),
            },
    {
        let n: usize = self.entries.len();
        let mut i: usize = n;
        while i > 0
            invariant
                0 <= i <= n,
                n == self.entries@.len(),
                forall|j: int| i <= j < n ==> self.entries@[j].0@ != name@,
            decreases i,
        {
            i = i - 1;
            if String::eq(&self.entries[i].0, name) {
                proof {
                    lemma_lookup_prefix(self.entries@, name@, i + 1);
                    let t = self.entries@.subrange(0, i + 1);
                    assert(t.last() == self.entries@[i as int]);
                }
                return Some(self.entries[i].1.clone());
            }
        }
        proof {
            lemma_lookup_prefix(self.entries@, name@, 0);
            assert(self.entries@.subrange(0, 0) =~= Seq::<(String, Value)>::empty());
        }
        None
    }

    /// Binds a name to a value, introducing it or overwriting its previous
    /// binding.
    pub fn insert(&mut self, name: String, value: Value)
        ensures
            final(self)@ == old(self)@.insert(name@, value@),
    {
        let ghost k = name@;
        let ghost v = value@;
        let ghost before = self.entries@;
        self.entries.push((name, value));
        proof {
            assert(self.entries@.drop_last() =~= before);
            assert forall|q: Seq<char>|
                lookup(self.entries@, q) == if q == k {
                    Some(v)
                } else {
                    lookup(before, q)
                } by {
                assert(self.entries@.last().0@ == k);
            }
            assert(self@ =~= old(self)@.insert(k, v));
        }
    }
}

} // verus!
