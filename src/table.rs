//! The variable table: resolved variable names bound to their values.
use vstd::prelude::*;
use crate::assoc::{keys_unique, lemma_lookup_absent, lemma_lookup_at, lemma_lookup_push, lemma_lookup_update, map_of};
use crate::text::string_of;

verus! {

/// Resolved variables, in the order they were declared.
pub struct VariableTable {
    entries: Vec<(String, String)>,
}

impl View for VariableTable {
    type V = Map<Seq<char>, Seq<char>>;

    closed spec fn view(&self) -> Map<Seq<char>, Seq<char>> {
        map_of(self.entry_seq())
    }
}

impl VariableTable {
    pub closed spec fn entry_seq(&self) -> Seq<(Seq<char>, Seq<char>)> {
        self.entries@.map_values(|e: (String, String)| (e.0@, e.1@))
    }

    /// Every name is bound at most once.
    pub closed spec fn wf(&self) -> bool {
        keys_unique(self.entry_seq())
    }

    pub fn new() -> (r: VariableTable)
        ensures
            r.wf(),
            r@ == Map::<Seq<char>, Seq<char>>::empty(),
    {
        let r = VariableTable { entries: Vec::new() };
        proof {
            assert(r@ =~= Map::<Seq<char>, Seq<char>>::empty());
        }
        r
    }

    fn find(&self, name: &String) -> (r: Option<usize>)
        ensures
            match r {
                Some(i) => i < self.entries@.len() && self.entry_seq()[i as int].0 == name@,
                None => forall|i: int| 0 <= i < self.entries@.len() ==> self.entry_seq()[i].0 != name@,
            },
    {
        let mut i: usize = 0;
        while i < self.entries.len()
            invariant
                i <= self.entries@.len(),
                forall|j: int| 0 <= j < i ==> self.entry_seq()[j].0 != name@,
            decreases self.entries@.len() - i,
        {
            if self.entries[i].0 == *name {
                return Some(i);
            }
            i = i + 1;
        }
        None
    }

    /// The value bound to `name`, if any.
    pub fn get(&self, name: &String) -> (r: Option<&String>)
        requires
            self.wf(),
        ensures
            r is Some == self@.contains_key(name@),
            r is Some ==> r->0@ == self@[name@],
    {
        proof {
            lemma_lookup_absent(self.entry_seq(), name@);
        }
        match self.find(name) {
            Some(i) => {
                proof {
                    lemma_lookup_at(self.entry_seq(), i as int);
                }
                Some(&self.entries[i].1)
            },
            None => None,
        }
    }

    /// Binds `name` to `value`, replacing an earlier binding of `name`.
    pub fn insert(&mut self, name: String, value: String)
        requires
            old(self).wf(),
        ensures
            final(self).wf(),
            final(self)@ == old(self)@.insert(name@, value@),
    {
        let ghost s0 = self.entry_seq();
        match self.find(&name) {
            Some(i) => {
                proof {
                    lemma_lookup_update(s0, i as int, value@);
                }
                self.entries.set(i, (name, value));
                proof {
                    assert(self.entry_seq() =~= s0.update(i as int, (s0[i as int].0, value@)));
                }
            },
            None => {
                let ghost k = name@;
                let ghost v = value@;
                self.entries.push((name, value));
                proof {
                    assert(self.entry_seq() =~= s0.push((k, v)));
                    lemma_lookup_push(s0, k, v);
                }
            },
        }
    }

    /// Binds `name` to the characters `value`.
    pub(crate) fn insert_chars(&mut self, name: String, value: &Vec<char>)
        requires
            old(self).wf(),
        ensures
            final(self).wf(),
            final(self)@ == old(self)@.insert(name@, value@),
    {
        let v = string_of(value);
        self.insert(name, v);
    }
}

} // verus!
