use std::collections::HashMap;
use vstd::prelude::*;

verus! {

broadcast use vstd::std_specs::hash::group_hash_axioms;

/// One resource: its value and the tick of its last exclusive write.
pub struct ResourceEntry<R> {
    pub value: R,
    pub written_at: Option<u64>,
}

/// The resource store seen as mathematics: the entries by resource id and
/// the number of the current tick.
pub ghost struct ResourcesView<R> {
    pub entries: Map<u32, ResourceEntry<R>>,
    pub tick: nat,
}

/// At most one value per resource id, shared by every system.
pub struct Resources<R> {
    entries: HashMap<u32, ResourceEntry<R>>,
    tick: u64,
}

impl<R> View for Resources<R> {
    type V = ResourcesView<R>;

    closed spec fn view(&self) -> ResourcesView<R> {
        ResourcesView { entries: self.entries@, tick: self.tick as nat }
    }
}

/// The resource was written exclusively during the tick before the current one.
pub open spec fn changed<R>(s: ResourcesView<R>, id: u32) -> bool {
    &&& s.entries.contains_key(id)
    &&& s.entries[id].written_at matches Some(t) && t + 1 == s.tick
}

pub open spec fn write_model<R>(s: ResourcesView<R>, id: u32, v: R) -> ResourcesView<R> {
    if s.entries.contains_key(id) {
        ResourcesView {
            entries: s.entries.insert(id, ResourceEntry { value: v, written_at: Some(s.tick as u64) }),
            ..s
        }
    } else {
        s
    }
}

/// The store `n` ticks later, with no write in between.
pub open spec fn advance<R>(s: ResourcesView<R>, n: nat) -> ResourcesView<R> {
    ResourcesView { tick: s.tick + n, ..s }
}

impl<R> Resources<R> {
    pub fn new() -> (r: Resources<R>)
        ensures
            r@.entries == Map::<u32, ResourceEntry<R>>::empty(),
            r@.tick == 0,
    {
        Resources { entries: HashMap::new(), tick: 0 }
    }

    /// The number of the current tick.
    pub fn tick(&self) -> (r: u64)
        ensures
            r == self@.tick,
    {
        self.tick
    }

    /// Registers a resource: creates it with `value` if it is absent and
    /// keeps the present value otherwise. Returns whether it was created.
    /// Creating a resource is no write.
    pub fn init(&mut self, id: u32, value: R) -> (r: bool)
        ensures
            r == !old(self)@.entries.contains_key(id),
            final(self)@.tick == old(self)@.tick,
            final(self)@.entries == if r {
                old(self)@.entries.insert(id, ResourceEntry { value, written_at: None })
            } else {
                old(self)@.entries
            },
    {
        if self.entries.contains_key(&id) {
            return false;
        }
        self.entries.insert(id, ResourceEntry { value, written_at: None });
        true
    }

    /// Shared access to a resource's value.
    pub fn get(&self, id: u32) -> (r: Option<&R>)
        ensures
            match r {
                Some(v) => self@.entries.contains_key(id) && *v == self@.entries[id].value,
                None => !self@.entries.contains_key(id),
            },
    {
        match self.entries.get(&id) {
            Some(entry) => Some(&entry.value),
            None => None,
        }
    }

    /// An exclusive write: replaces the value of a registered resource and
    /// marks it written in the current tick. Returns whether it was registered.
    pub fn write(&mut self, id: u32, value: R) -> (r: bool)
        ensures
            r == old(self)@.entries.contains_key(id),
            final(self)@ == write_model(old(self)@, id, value),
    {
        if !self.entries.contains_key(&id) {
            return false;
        }
        let t = self.tick;
        self.entries.insert(id, ResourceEntry { value, written_at: Some(t) });
        true
    }

    /// Whether the resource was written exclusively in the previous tick.
    pub fn is_changed(&self, id: u32) -> (r: bool)
        ensures
            r == changed(self@, id),
    {
        match self.entries.get(&id) {
            Some(entry) => match entry.written_at {
                Some(t) => t < u64::MAX && t + 1 == self.tick,
                None => false,
            },
            None => false,
        }
    }

    /// Ends the current tick.
    pub fn end_tick(&mut self)
        requires
            old(self)@.tick < u64::MAX,
        ensures
            final(self)@ == advance(old(self)@, 1),
    {
        self.tick = self.tick + 1;
    }
}

/// After an exclusive write, the resource's changed flag is up during exactly
/// one tick, the next one, and down in the tick of the write and in every
/// tick after the next one until another write.
pub proof fn lemma_changed_exactly_next_tick<R>(s: ResourcesView<R>, id: u32, v: R, n: nat)
    requires
        s.entries.contains_key(id),
        s.tick < u64::MAX,
    ensures
        changed(advance(write_model(s, id, v), n), id) <==> n == 1,
{
}

} // verus!
