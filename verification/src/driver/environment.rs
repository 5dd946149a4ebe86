//! Environment variables.

use vstd::prelude::*;

use crate::text::{glue3, texts};
use crate::text_map::{ascending, lemma_next_entry, listing, map_of, TextMap};

verus! {

/// A set of environment variables.
#[derive(Debug)]
pub struct Environment {
    variables: TextMap<String>,
}

impl View for Environment {
    type V = Map<Seq<char>, Seq<char>>;

    closed spec fn view(&self) -> Map<Seq<char>, Seq<char>> {
        self.variables@
    }
}

/// One variable as `name=value`.
pub open spec fn env_line(p: (Seq<char>, Seq<char>)) -> Seq<char> {
    p.0 + "="@ + p.1
}

/// The variables of `m` as `name=value`, in the order of the names.
pub open spec fn env_lines(m: Map<Seq<char>, Seq<char>>) -> Seq<Seq<char>> {
    listing(m).map_values(|p: (Seq<char>, Seq<char>)| env_line(p))
}

impl Environment {
    /// No variables.
    pub fn new() -> (e: Environment)
        ensures
            e@ == Map::<Seq<char>, Seq<char>>::empty(),
    {
        Environment { variables: TextMap::new() }
    }

    /// Sets the variable `name`, in place of an earlier value.
    pub fn set(&mut self, name: &str, value: &str)
        ensures
            final(self)@ == old(self)@.insert(name@, value@),
    {
        self.variables.set(name, value.to_owned());
    }

    /// The value of the variable `name`.
    pub fn get(&self, name: &str) -> (r: Option<&str>)
        ensures
            match r {
                Some(value) => self@.contains_key(name@) && self@[name@] == value@,
                None => !self@.contains_key(name@),
            },
    {
        match self.variables.get(name) {
            Some(value) => Some(value.as_str()),
            None => None,
        }
    }

    /// Sets every variable of `other`, in place of earlier values.
    pub fn extend(&mut self, other: &Environment)
        ensures
            final(self)@ == old(self)@.union_prefer_right(other@),
    {
        let ghost e = listing(other@);
        let ghost start = self@;
        let count: usize = other.variables.len();
        let mut k: usize = 0;
        assert(map_of(e.take(0)) =~= Map::<Seq<char>, Seq<char>>::empty());
        assert(self@ =~= start.union_prefer_right(map_of(e.take(0))));
        while k < count
            invariant
                k <= count,
                count == e.len(),
                e == listing(other.variables@),
                ascending(e),
                self@ == start.union_prefer_right(map_of(e.take(k as int))),
            decreases count - k,
        {
            let name = other.variables.name_at(k);
            let value = other.variables.value_at(k);
            self.set(name, value.as_str());
            proof {
                lemma_next_entry(e, k as int);
            }
            assert(self@ =~= start.union_prefer_right(map_of(e.take(k + 1))));
            k = k + 1;
        }
        assert(e.take(k as int) =~= e);
    }

    /// The variables as `name=value`, in the order of the names.
    pub fn lines(&self) -> (r: Vec<String>)
        ensures
            texts(r@) == env_lines(self@),
            ascending(listing(self@)),
            map_of(listing(self@)) == self@,
    {
        let ghost e = listing(self@);
        let mut r: Vec<String> = Vec::new();
        let mut k: usize = 0;
        while k < self.variables.len()
            invariant
                k <= e.len(),
                e == listing(self.variables@),
                r@.len() == k,
                forall|i: int| 0 <= i < k ==> (#[trigger] r@[i])@ == env_line(e[i]),
            decreases e.len() - k,
        {
            r.push(
                glue3(self.variables.name_at(k), "=", self.variables.value_at(k).as_str()),
            );
            k = k + 1;
        }
        assert(texts(r@) =~= env_lines(self@));
        r
    }

    /// The same variables, copied.
    pub fn copy(&self) -> (r: Environment)
        ensures
            r@ == self@,
    {
        let mut r = Environment::new();
        r.extend(self);
        assert(r@ =~= self@);
        r
    }
}

} // verus!
