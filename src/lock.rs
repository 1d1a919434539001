//! The lock store: the last modification time seen for each watched path,
//! and the staleness check built on it.
use vstd::prelude::*;
use crate::assoc::{keys_unique, lemma_lookup_absent, lemma_lookup_at, lemma_lookup_push, lemma_lookup_update, map_of};
use crate::decimal::{decimal, decimal_value, format_decimal, lemma_decimal_round_trip, parse_decimal};

verus! {

/// Paths mapped to the modification time (seconds) last observed for them.
pub struct CoyoteLock {
    entries: Vec<(String, u64)>,
}

/// A lock file entry whose timestamp is not a decimal `u64`.
pub struct LockError {
    pub path: String,
    pub value: String,
}

/// The path/text pairs of `s` as characters.
pub open spec fn text_entries(s: Seq<(String, String)>) -> Seq<(Seq<char>, Seq<char>)> {
    s.map_values(|e: (String, String)| (e.0@, e.1@))
}

/// The stored form of timestamps: each one as decimal text.
pub open spec fn as_text(s: Seq<(Seq<char>, u64)>) -> Seq<(Seq<char>, Seq<char>)> {
    s.map_values(|e: (Seq<char>, u64)| (e.0, decimal(e.1 as nat)))
}

/// Every timestamp of `s` is decimal text of a `u64`.
pub open spec fn all_decimal(s: Seq<(Seq<char>, Seq<char>)>) -> bool {
    forall|i: int| 0 <= i < s.len() ==> (#[trigger] decimal_value(s[i].1)) is Some
}

/// The timestamps of `s` read as numbers.
pub open spec fn as_numbers(s: Seq<(Seq<char>, Seq<char>)>) -> Seq<(Seq<char>, u64)> {
    s.map_values(|e: (Seq<char>, Seq<char>)| (e.0, decimal_value(e.1)->0))
}

/// The store after observing time `now` for `path`, and whether that
/// observation counts as a modification.
pub open spec fn observed(store: Map<Seq<char>, u64>, path: Seq<char>, now: u64) -> (Map<Seq<char>, u64>, bool) {
    (store.insert(path, now), !store.contains_key(path) || store[path] != now)
}

/// A path seen for the first time counts as modified, and the store then
/// holds its time.
pub proof fn lemma_first_observation(store: Map<Seq<char>, u64>, path: Seq<char>, now: u64)
    requires
        !store.contains_key(path),
    ensures
        observed(store, path, now).1,
        observed(store, path, now).0.contains_key(path),
        observed(store, path, now).0[path] == now,
{
}

/// Observing the same time twice in a row: the second observation is not
/// a modification, and the store holds that time after each. The first is
/// one when the path was unseen or stored with another time.
pub proof fn lemma_observe_twice(store: Map<Seq<char>, u64>, path: Seq<char>, now: u64)
    ensures
        observed(observed(store, path, now).0, path, now).0[path] == now,
        observed(store, path, now).0[path] == now,
        !observed(observed(store, path, now).0, path, now).1,
        (!store.contains_key(path) || store[path] != now) ==> observed(store, path, now).1,
{
}

impl View for CoyoteLock {
    type V = Map<Seq<char>, u64>;

    closed spec fn view(&self) -> Map<Seq<char>, u64> {
        map_of(self.entry_seq())
    }
}

impl CoyoteLock {
    pub closed spec fn entry_seq(&self) -> Seq<(Seq<char>, u64)> {
        self.entries@.map_values(|e: (String, u64)| (e.0@, e.1))
    }

    /// Every path is stored at most once.
    pub closed spec fn wf(&self) -> bool {
        keys_unique(self.entry_seq())
    }

    /// An empty store.
    pub fn new() -> (r: CoyoteLock)
        ensures
            r.wf(),
            r@ == Map::<Seq<char>, u64>::empty(),
    {
        let r = CoyoteLock { entries: Vec::new() };
        proof {
            assert(r@ =~= Map::<Seq<char>, u64>::empty());
        }
        r
    }

    fn find(&self, path: &String) -> (r: Option<usize>)
        ensures
            match r {
                Some(i) => i < self.entries@.len() && self.entry_seq()[i as int].0 == path@,
                None => forall|i: int| 0 <= i < self.entries@.len() ==> self.entry_seq()[i].0 != path@,
            },
    {
        let mut i: usize = 0;
        while i < self.entries.len()
            invariant
                i <= self.entries@.len(),
                forall|j: int| 0 <= j < i ==> self.entry_seq()[j].0 != path@,
            decreases self.entries@.len() - i,
        {
            if self.entries[i].0 == *path {
                return Some(i);
            }
            i = i + 1;
        }
        None
    }

    /// The timestamp stored for `path`, if any.
    pub fn get(&self, path: &String) -> (r: Option<u64>)
        requires
            self.wf(),
        ensures
            r is Some == self@.contains_key(path@),
            r is Some ==> r->0 == self@[path@],
    {
        proof {
            lemma_lookup_absent(self.entry_seq(), path@);
        }
        match self.find(path) {
            Some(i) => {
                proof {
                    lemma_lookup_at(self.entry_seq(), i as int);
                }
                Some(self.entries[i].1)
            },
            None => None,
        }
    }

    /// Stores `time` for `path`, replacing what was stored for it.
    pub fn set(&mut self, path: String, time: u64)
        requires
            old(self).wf(),
        ensures
            final(self).wf(),
            final(self)@ == old(self)@.insert(path@, time),
    {
        let ghost s0 = self.entry_seq();
        match self.find(&path) {
            Some(i) => {
                proof {
                    lemma_lookup_update(s0, i as int, time);
                }
                self.entries.set(i, (path, time));
                proof {
                    assert(self.entry_seq() =~= s0.update(i as int, (s0[i as int].0, time)));
                }
            },
            None => {
                let ghost k = path@;
                self.entries.push((path, time));
                proof {
                    assert(self.entry_seq() =~= s0.push((k, time)));
                    lemma_lookup_push(s0, k, time);
                }
            },
        }
    }

    /// Records `now` as the time of `path` and says whether the path
    /// counts as modified: it had no time stored, or a different one.
    pub fn observe(&mut self, path: &String, now: u64) -> (met: bool)
        requires
            old(self).wf(),
        ensures
            final(self).wf(),
            (final(self)@, met) == observed(old(self)@, path@, now),
    {
        let previous = self.get(path);
        self.set(path.clone(), now);
        match previous {
            None => true,
            Some(p) => p != now,
        }
    }

    /// The stored entries, each timestamp as decimal text.
    pub fn to_entries(&self) -> (r: Vec<(String, String)>)
        requires
            self.wf(),
        ensures
            text_entries(r@) == as_text(self.entry_seq()),
    {
        let mut r: Vec<(String, String)> = Vec::new();
        let mut i: usize = 0;
        while i < self.entries.len()
            invariant
                i <= self.entries@.len(),
                text_entries(r@) == as_text(self.entry_seq()).take(i as int),
            decreases self.entries@.len() - i,
        {
            let ghost r0 = text_entries(r@);
            let t = format_decimal(self.entries[i].1);
            let p = self.entries[i].0.clone();
            r.push((p, t));
            proof {
                assert(text_entries(r@) =~= r0.push((self.entry_seq()[i as int].0, decimal(self.entry_seq()[i as int].1 as nat))));
                assert(as_text(self.entry_seq()).take(i + 1) =~= as_text(self.entry_seq()).take(i as int).push(as_text(self.entry_seq())[i as int]));
            }
            i = i + 1;
        }
        proof {
            assert(as_text(self.entry_seq()).take(i as int) =~= as_text(self.entry_seq()));
        }
        r
    }

    /// A store holding the path/timestamp pairs `entries` (a later pair
    /// for a path replaces an earlier one). Fails on the first timestamp
    /// that is not the decimal text of a `u64`.
    pub fn from_entries(entries: &Vec<(String, String)>) -> (r: Result<CoyoteLock, LockError>)
        ensures
            match r {
                Ok(l) => l.wf() && all_decimal(text_entries(entries@))
                    && l@ == map_of(as_numbers(text_entries(entries@))),
                Err(e) => exists|i: int|
                    0 <= i < entries@.len() && (#[trigger] entries@[i]).0@ == e.path@
                        && entries@[i].1@ == e.value@ && decimal_value(e.value@) is None,
            },
    {
        let ghost s = text_entries(entries@);
        let mut l = CoyoteLock::new();
        let mut i: usize = 0;
        while i < entries.len()
            invariant
                s == text_entries(entries@),
                i <= entries@.len(),
                l.wf(),
                all_decimal(s.take(i as int)),
                l@ == map_of(as_numbers(s.take(i as int))),
            decreases entries@.len() - i,
        {
            let ghost before = as_numbers(s.take(i as int));
            match parse_decimal(&entries[i].1) {
                Some(t) => {
                    l.set(entries[i].0.clone(), t);
                    proof {
                        assert(as_numbers(s.take(i + 1)) =~= before.push((entries@[i as int].0@, t)));
                        lemma_lookup_push(before, entries@[i as int].0@, t);
                        assert(all_decimal(s.take(i + 1)));
                    }
                },
                None => {
                    return Err(LockError { path: entries[i].0.clone(), value: entries[i].1.clone() });
                },
            }
            i = i + 1;
        }
        proof {
            assert(s.take(i as int) =~= s);
        }
        Ok(l)
    }
}

/// Writing a store out as decimal entries and reading them back gives a
/// store with the same paths and timestamps.
pub proof fn lemma_lock_round_trip(l: CoyoteLock, text: Seq<(Seq<char>, Seq<char>)>)
    requires
        l.wf(),
        text == as_text(l.entry_seq()),
    ensures
        all_decimal(text),
        map_of(as_numbers(text)) == l@,
{
    assert forall|i: int| 0 <= i < text.len() implies (#[trigger] decimal_value(text[i].1)) is Some by {
        lemma_decimal_round_trip(l.entry_seq()[i].1);
    }
    assert forall|i: int| 0 <= i < text.len() implies #[trigger] as_numbers(text)[i] == l.entry_seq()[i] by {
        lemma_decimal_round_trip(l.entry_seq()[i].1);
    }
    assert(as_numbers(text) =~= l.entry_seq());
}

} // verus!
