//! A table keyed by 32-byte identifiers, such as those of global sessions.

use crate::bytes::hash_eq;
use vstd::prelude::*;

verus! {

/// A table from 32-byte identifiers to values, which holds each identifier at most once.
pub struct SessionTable<V> {
    entries: Vec<([u8; 32], V)>,
}

impl<V> SessionTable<V> {
    /// No identifier is held twice.
    pub closed spec fn wf(&self) -> bool {
        forall|i: int, j: int|
            0 <= i < j < self.entries@.len() ==> (#[trigger] self.entries@[i]).0 != (
            #[trigger] self.entries@[j]).0
    }

    /// Whether the entry at `i` is the one of `key`.
    spec fn holds_at(&self, key: [u8; 32], i: int) -> bool {
        0 <= i < self.entries@.len() && self.entries@[i].0 == key
    }

    /// A table which holds nothing.
    pub fn new() -> (table: Self)
        ensures
            table.wf(),
            table@ == Map::<[u8; 32], V>::empty(),
    {
        let table = SessionTable { entries: Vec::new() };
        assert(table@ =~= Map::<[u8; 32], V>::empty());
        table
    }

    /// Where `key` is held, if it is.
    fn position(&self, key: &[u8; 32]) -> (at: Option<usize>)
        ensures
            match at {
                Some(at) => self.holds_at(*key, at as int),
                None => forall|i: int| !self.holds_at(*key, i),
            },
    {
        let mut i: usize = 0;
        while i < self.entries.len()
            invariant
                i <= self.entries@.len(),
                forall|j: int| 0 <= j < i ==> !self.holds_at(*key, j),
            decreases self.entries@.len() - i,
        {
            if hash_eq(&self.entries[i].0, key) {
                return Some(i);
            }
            i += 1;
        }
        None
    }

    /// The value held for `key`, if one is.
    pub fn get(&self, key: &[u8; 32]) -> (value: Option<&V>)
        requires
            self.wf(),
        ensures
            match value {
                Some(value) => self@.contains_key(*key) && self@[*key] == *value,
                None => !self@.contains_key(*key),
            },
    {
        match self.position(key) {
            Some(at) => {
                proof {
                    let chosen = choose|i: int| self.holds_at(*key, i);
                    assert(self.holds_at(*key, at as int));
                    assert(self.holds_at(*key, chosen));
                    assert(chosen == at);
                }
                Some(&self.entries[at].1)
            },
            None => None,
        }
    }

    /// Holds `value` for `key` from now on, in place of any value held for it before.
    pub fn set(&mut self, key: [u8; 32], value: V)
        requires
            old(self).wf(),
        ensures
            final(self).wf(),
            final(self)@ == old(self)@.insert(key, value),
    {
        let ghost held: int;
        match self.position(&key) {
            Some(at) => {
                self.entries[at] = (key, value);
                assert(self.entries@ == old(self).entries@.update(at as int, (key, value)));
                proof {
                    held = at as int;
                }
            },
            None => {
                self.entries.push((key, value));
                assert(self.entries@ == old(self).entries@.push((key, value)));
                proof {
                    held = old(self).entries@.len() as int;
                }
            },
        }
        proof {
            assert(self.holds_at(key, held));
            assert forall|i: int, j: int| 0 <= i < j < self.entries@.len() implies (
            #[trigger] self.entries@[i]).0 != (#[trigger] self.entries@[j]).0 by {
                if i != held && j != held {
                    assert(old(self).entries@[i].0 != old(self).entries@[j].0);
                } else if held < old(self).entries@.len() {
                    assert(old(self).holds_at(key, held));
                    assert(old(self).entries@[i].0 != old(self).entries@[j].0);
                } else {
                    assert(!old(self).holds_at(key, i));
                }
            }
            assert forall|k: [u8; 32]| #[trigger]
                self@.contains_key(k) == old(self)@.insert(key, value).contains_key(k) by {
                if self@.contains_key(k) {
                    let i = choose|i: int| self.holds_at(k, i);
                    if k != key {
                        assert(old(self).holds_at(k, i));
                    }
                } else if old(self)@.insert(key, value).contains_key(k) {
                    if k == key {
                        assert(self.holds_at(key, held));
                    } else {
                        let i = choose|i: int| old(self).holds_at(k, i);
                        assert(self.holds_at(k, i));
                    }
                }
            }
            assert forall|k: [u8; 32]| self@.contains_key(k) implies #[trigger] self@[k] == old(
                self,
            )@.insert(key, value)[k] by {
                let i = choose|i: int| self.holds_at(k, i);
                assert(self.holds_at(k, i));
                if k != key {
                    let j = choose|j: int| old(self).holds_at(k, j);
                    assert(old(self).holds_at(k, i));
                    assert(old(self).holds_at(k, j));
                    assert(i == j);
                }
            }
            assert(self@ =~= old(self)@.insert(key, value));
        }
    }
}

impl<V> View for SessionTable<V> {
    type V = Map<[u8; 32], V>;

    closed spec fn view(&self) -> Map<[u8; 32], V> {
        Map::new(
            |key: [u8; 32]| exists|i: int| self.holds_at(key, i),
            |key: [u8; 32]| self.entries@[choose|i: int| self.holds_at(key, i)].1,
        )
    }
}

} // verus!
