//! The players of all servers, found by server id.

use std::collections::HashMap;
use vstd::prelude::*;
use vstd::std_specs::hash::spec_hash_map_iter;
use vstd::std_specs::iter::IteratorSpec;
use crate::errors::MusicError;

verus! {

broadcast use vstd::std_specs::hash::group_hash_axioms;


/// Values kept per server id.
#[derive(Debug)]
pub struct SessionTable<V> {
    map: HashMap<u64, V>,
}

impl<V> View for SessionTable<V> {
    type V = Map<u64, V>;

    closed spec fn view(&self) -> Map<u64, V> {
        self.map@
    }
}

impl<V> SessionTable<V> {
    /// An empty table.
    pub fn new() -> (t: Self)
        ensures
            t@ == Map::<u64, V>::empty(),
    {
        SessionTable { map: HashMap::new() }
    }

    /// The value of a server, if it has one.
    pub fn find(&self, guild: u64) -> (r: Option<&V>)
        ensures
            match r {
                Some(v) => self@.contains_key(guild) && *v == self@[guild],
                None => !self@.contains_key(guild),
            },
    {
        self.map.get(&guild)
    }

    /// The value of a server; a server without one has no player.
    pub fn require(&self, guild: u64) -> (r: Result<&V, MusicError>)
        ensures
            self@.contains_key(guild) ==> (r matches Ok(v) && *v == self@[guild]),
            !self@.contains_key(guild) ==> (r matches Err(MusicError::NotPlaying)),
    {
        match self.find(guild) {
            Some(v) => Ok(v),
            None => Err(MusicError::NotPlaying),
        }
    }

    /// Gives a server its value unless it has one already; says whether it
    /// was added.
    pub fn insert_if_absent(&mut self, guild: u64, value: V) -> (added: bool)
        ensures
            added == !old(self)@.contains_key(guild),
            final(self)@ == if added {
                old(self)@.insert(guild, value)
            } else {
                old(self)@
            },
    {
        if self.map.contains_key(&guild) {
            false
        } else {
            self.map.insert(guild, value);
            true
        }
    }

    /// The servers and their values, each server once.
    pub fn values(&self) -> (r: Vec<(u64, &V)>)
        ensures
            r@.len() == self@.dom().len(),
            forall|i: int| 0 <= i < r@.len() ==> self@.contains_key(#[trigger] r@[i].0) && *r@[i].1
                == self@[r@[i].0],
            forall|i: int, j: int| 0 <= i < j < r@.len() ==> #[trigger] r@[i].0 != #[trigger] r@[j].0,
    {
        let mut r: Vec<(u64, &V)> = Vec::new();
        for entry in it: self.map.iter()
            invariant
                r@.len() == it.index(),
                it.seq() == spec_hash_map_iter(&self.map).remaining(),
                forall|j: int| 0 <= j < r@.len() ==> (#[trigger] r@[j]).0 == *it.seq()[j].0 && *r@[j].1
                    == *it.seq()[j].1,
        {
            r.push((*entry.0, entry.1));
        }
        let ghost v = spec_hash_map_iter(&self.map).remaining();
        assert forall|a: int, b: int| 0 <= a < b < r@.len() implies #[trigger] r@[a].0 != #[trigger] r@[b].0 by {
            if r@[a].0 == r@[b].0 {
                assert(self.map@.contains_key(*v[a].0) && self.map@[*v[a].0] == *v[a].1);
                assert(self.map@.contains_key(*v[b].0) && self.map@[*v[b].0] == *v[b].1);
                assert(v[a] == v[b]);
            }
        }
        assert forall|j: int| 0 <= j < r@.len() implies self@.contains_key(#[trigger] r@[j].0) && *r@[j].1
            == self@[r@[j].0] by {
            assert(self.map@.contains_key(*v[j].0) && self.map@[*v[j].0] == *v[j].1);
        }
        r
    }
}

} // verus!
