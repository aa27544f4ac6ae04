//! Maps keyed by identifiers.
use std::collections::BTreeMap;

use vstd::prelude::*;

use crate::ids::{MessageId, ProgramId};

verus! {

/// A map from programs to values.
#[derive(Debug)]
pub struct ProgramMap<V> {
    entries: BTreeMap<(u128, u128), V>,
}

impl<V> View for ProgramMap<V> {
    type V = Map<ProgramId, V>;

    closed spec fn view(&self) -> Map<ProgramId, V> {
        Map::new(
            |id: ProgramId| self.entries@.contains_key(id.key()),
            |id: ProgramId| self.entries@[id.key()],
        )
    }
}

impl<V> ProgramMap<V> {
    /// The empty map.
    pub fn new() -> (map: Self)
        ensures
            map@ == Map::<ProgramId, V>::empty(),
    {
        let map = ProgramMap { entries: BTreeMap::new() };
        assert(map@ =~= Map::<ProgramId, V>::empty());
        map
    }

    /// Whether the map has a value for `id`.
    pub fn contains_key(&self, id: &ProgramId) -> (found: bool)
        ensures
            found == self@.contains_key(*id),
    {
        self.entries.contains_key(&id.to_key())
    }

    /// The value that the map has for `id`.
    pub fn get(&self, id: &ProgramId) -> (value: Option<&V>)
        ensures
            match value {
                Some(value) => self@.contains_key(*id) && *value == self@[*id],
                None => !self@.contains_key(*id),
            },
    {
        self.entries.get(&id.to_key())
    }

    /// Gives `id` the value `value`, and hands back the value it had before.
    pub fn insert(&mut self, id: ProgramId, value: V) -> (previous: Option<V>)
        ensures
            final(self)@ == old(self)@.insert(id, value),
            match previous {
                Some(previous) => old(self)@.contains_key(id) && previous == old(self)@[id],
                None => !old(self)@.contains_key(id),
            },
    {
        let previous = self.entries.insert(id.to_key(), value);
        assert(self@ =~= old(self)@.insert(id, value));
        previous
    }

    /// Takes the value of `id` out of the map.
    pub fn remove(&mut self, id: &ProgramId) -> (removed: Option<V>)
        ensures
            final(self)@ == old(self)@.remove(*id),
            match removed {
                Some(removed) => old(self)@.contains_key(*id) && removed == old(self)@[*id],
                None => !old(self)@.contains_key(*id),
            },
    {
        let removed = self.entries.remove(&id.to_key());
        assert(self@ =~= old(self)@.remove(*id));
        removed
    }
}

/// A map from a program and a message to a value.
#[derive(Debug)]
pub struct MessageMap<V> {
    entries: BTreeMap<((u128, u128), (u128, u128)), V>,
}

impl<V> View for MessageMap<V> {
    type V = Map<(ProgramId, MessageId), V>;

    closed spec fn view(&self) -> Map<(ProgramId, MessageId), V> {
        Map::new(
            |at: (ProgramId, MessageId)| self.entries@.contains_key((at.0.key(), at.1.key())),
            |at: (ProgramId, MessageId)| self.entries@[(at.0.key(), at.1.key())],
        )
    }
}

impl<V> MessageMap<V> {
    /// The empty map.
    pub fn new() -> (map: Self)
        ensures
            map@ == Map::<(ProgramId, MessageId), V>::empty(),
    {
        let map = MessageMap { entries: BTreeMap::new() };
        assert(map@ =~= Map::<(ProgramId, MessageId), V>::empty());
        map
    }

    /// The value that the map has for the program and the message of `at`.
    pub fn get(&self, at: &(ProgramId, MessageId)) -> (value: Option<&V>)
        ensures
            match value {
                Some(value) => self@.contains_key(*at) && *value == self@[*at],
                None => !self@.contains_key(*at),
            },
    {
        self.entries.get(&(at.0.to_key(), at.1.to_key()))
    }

    /// Gives the program and the message of `at` the value `value`, and hands back the value
    /// they had before.
    pub fn insert(&mut self, at: (ProgramId, MessageId), value: V) -> (previous: Option<V>)
        ensures
            final(self)@ == old(self)@.insert(at, value),
            match previous {
                Some(previous) => old(self)@.contains_key(at) && previous == old(self)@[at],
                None => !old(self)@.contains_key(at),
            },
    {
        let previous = self.entries.insert((at.0.to_key(), at.1.to_key()), value);
        assert(self@ =~= old(self)@.insert(at, value));
        previous
    }

    /// Takes the value of the program and the message of `at` out of the map.
    pub fn remove(&mut self, at: &(ProgramId, MessageId)) -> (removed: Option<V>)
        ensures
            final(self)@ == old(self)@.remove(*at),
            match removed {
                Some(removed) => old(self)@.contains_key(*at) && removed == old(self)@[*at],
                None => !old(self)@.contains_key(*at),
            },
    {
        let removed = self.entries.remove(&(at.0.to_key(), at.1.to_key()));
        assert(self@ =~= old(self)@.remove(*at));
        removed
    }
}

} // verus!
