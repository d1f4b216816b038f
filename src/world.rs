use std::collections::HashMap;
use vstd::prelude::*;
use crate::entity::Entity;
use crate::query::{accepts, Query, QuerySingleError};

verus! {

broadcast use vstd::std_specs::hash::group_hash_axioms;

/// What one storage slot holds, seen as mathematics.
pub ghost struct SlotView<C> {
    pub generation: u32,
    pub alive: bool,
    pub components: Map<u32, C>,
}

struct Slot<C> {
    generation: u32,
    alive: bool,
    components: HashMap<u32, C>,
}

impl<C> Slot<C> {
    spec fn model(self) -> SlotView<C> {
        SlotView { generation: self.generation, alive: self.alive, components: self.components@ }
    }
}

/// Component storage: one slot per entity ever created, each holding at most
/// one value of each component kind.
pub struct World<C> {
    slots: Vec<Slot<C>>,
}

impl<C> World<C> {
    /// Every slot index fits in an entity identifier.
    pub open spec fn wf(&self) -> bool {
        self@.len() <= u32::MAX
    }
}

/// Whether the component kinds in `m` pass the filters of `q`.
fn kinds_accepted<C>(m: &HashMap<u32, C>, q: &Query) -> (r: bool)
    ensures
        r == accepts(*q, m@.dom()),
{
    let mut i: usize = 0;
    while i < q.required.len()
        invariant
            i <= q.required@.len(),
            forall|j: int| 0 <= j < i ==> m@.dom().contains(#[trigger] q.required@[j]),
        decreases q.required@.len() - i,
    {
        if !m.contains_key(&q.required[i]) {
            return false;
        }
        i = i + 1;
    }
    let mut i: usize = 0;
    while i < q.with.len()
        invariant
            i <= q.with@.len(),
            forall|j: int| 0 <= j < i ==> m@.dom().contains(#[trigger] q.with@[j]),
        decreases q.with@.len() - i,
    {
        if !m.contains_key(&q.with[i]) {
            return false;
        }
        i = i + 1;
    }
    let mut i: usize = 0;
    while i < q.without.len()
        invariant
            i <= q.without@.len(),
            forall|j: int| 0 <= j < i ==> !m@.dom().contains(#[trigger] q.without@[j]),
        decreases q.without@.len() - i,
    {
        if m.contains_key(&q.without[i]) {
            return false;
        }
        i = i + 1;
    }
    true
}

/// The map that inserting the pairs of `s` one after the other builds: a later
/// pair replaces an earlier one of the same kind.
pub open spec fn pairs_to_map<C>(s: Seq<(u32, C)>) -> Map<u32, C>
    decreases s.len(),
{
    if s.len() == 0 {
        Map::empty()
    } else {
        pairs_to_map(s.drop_last()).insert(s.last().0, s.last().1)
    }
}

pub open spec fn alive<C>(w: Seq<SlotView<C>>, e: Entity) -> bool {
    &&& e.index < w.len()
    &&& w[e.index as int].alive
    &&& w[e.index as int].generation == e.generation
}

/// The live entity `e` has every kind that `q` asks for and none that it excludes.
pub open spec fn query_matches<C>(w: Seq<SlotView<C>>, e: Entity, q: Query) -> bool {
    alive(w, e) && accepts(q, w[e.index as int].components.dom())
}

pub open spec fn has_component<C>(w: Seq<SlotView<C>>, e: Entity, kind: u32) -> bool {
    alive(w, e) && w[e.index as int].components.contains_key(kind)
}

pub open spec fn next_generation(g: u32) -> u32 {
    if g < u32::MAX { (g + 1) as u32 } else { g }
}

pub open spec fn despawn_model<C>(w: Seq<SlotView<C>>, e: Entity) -> Seq<SlotView<C>> {
    if alive(w, e) {
        w.update(
            e.index as int,
            SlotView {
                generation: next_generation(e.generation),
                alive: false,
                components: Map::empty(),
            },
        )
    } else {
        w
    }
}

pub open spec fn insert_model<C>(w: Seq<SlotView<C>>, e: Entity, kind: u32, value: C) -> Seq<SlotView<C>> {
    if alive(w, e) {
        let s = w[e.index as int];
        w.update(e.index as int, SlotView { components: s.components.insert(kind, value), ..s })
    } else {
        w
    }
}

pub open spec fn remove_model<C>(w: Seq<SlotView<C>>, e: Entity, kind: u32) -> Seq<SlotView<C>> {
    if alive(w, e) {
        let s = w[e.index as int];
        w.update(e.index as int, SlotView { components: s.components.remove(kind), ..s })
    } else {
        w
    }
}

pub open spec fn spawn_model<C>(w: Seq<SlotView<C>>, components: Map<u32, C>) -> Seq<SlotView<C>> {
    w.push(SlotView { generation: 0, alive: true, components })
}

/// A dead slot whose generation can still advance: every identifier handed
/// out for it has an older generation, so it may hold a new entity.
pub open spec fn reusable<C>(s: SlotView<C>) -> bool {
    !s.alive && s.generation < u32::MAX
}

/// `e` was spawned with `components`, taking `w` to `w2`: in the first
/// reusable slot with that slot's generation, or, where none is, in a new
/// slot with generation zero.
pub open spec fn spawned_at<C>(w: Seq<SlotView<C>>, e: Entity, components: Map<u32, C>, w2: Seq<SlotView<C>>) -> bool {
    &&& forall|j: int| 0 <= j < e.index && j < w.len() ==> !reusable(#[trigger] w[j])
    &&& if e.index < w.len() {
        &&& reusable(w[e.index as int])
        &&& e.generation == w[e.index as int].generation
        &&& w2 == w.update(e.index as int, SlotView { generation: e.generation, alive: true, components })
    } else {
        &&& e.index == w.len()
        &&& e.generation == 0
        &&& w2 == spawn_model(w, components)
    }
}

/// The entity that currently owns slot `i`.
pub open spec fn slot_entity<C>(w: Seq<SlotView<C>>, i: int) -> Entity {
    Entity { index: i as u32, generation: w[i].generation }
}

/// The number of slots below `n` whose entity matches `q`.
pub open spec fn count_below<C>(w: Seq<SlotView<C>>, q: Query, n: int) -> nat
    decreases n,
{
    if n <= 0 {
        0
    } else {
        count_below(w, q, n - 1) + if query_matches(w, slot_entity(w, n - 1), q) { 1nat } else { 0nat }
    }
}

/// What a query yields: every matching entity once, in slot order.
pub open spec fn query_result<C>(w: Seq<SlotView<C>>, q: Query, r: Seq<Entity>) -> bool {
    &&& forall|i: int| 0 <= i < r.len() ==> query_matches(w, #[trigger] r[i], q)
    &&& forall|i: int, j: int| 0 <= i < j < r.len() ==> r[i].index < r[j].index
    &&& forall|e: Entity| query_matches(w, e, q) ==> r.contains(e)
}

impl<C> View for World<C> {
    type V = Seq<SlotView<C>>;

    closed spec fn view(&self) -> Seq<SlotView<C>> {
        self.slots@.map_values(|s: Slot<C>| s.model())
    }
}

} // verus!

verus! {

impl<C> World<C> {
    pub fn new() -> (r: World<C>)
        ensures
            r@ == Seq::<SlotView<C>>::empty(),
    {
        let r = World { slots: Vec::new() };
        assert(r@ =~= Seq::<SlotView<C>>::empty());
        r
    }

    /// The number of slots, live or not.
    pub fn slot_count(&self) -> (r: usize)
        requires
            self.wf(),
        ensures
            r == self@.len(),
            r <= u32::MAX,
    {
        assert(self.slots@.len() == self@.len());
        self.slots.len()
    }

    pub fn is_alive(&self, e: Entity) -> (r: bool)
        ensures
            r == alive(self@, e),
    {
        let i = e.index as usize;
        i < self.slots.len() && self.slots[i].alive && self.slots[i].generation == e.generation
    }

    /// Creates an entity at once with the given components. It takes the
    /// first dead slot whose generation has advanced past every identifier
    /// handed out for it, else a new slot. Fails only when neither is left.
    pub fn spawn(&mut self, components: Vec<(u32, C)>) -> (r: Option<Entity>)
        requires
            old(self).wf(),
        ensures
            final(self).wf(),
            match r {
                Some(e) => spawned_at(old(self)@, e, pairs_to_map(components@), final(self)@),
                None => {
                    &&& forall|j: int| 0 <= j < old(self)@.len() ==> !reusable(#[trigger] old(self)@[j])
                    &&& old(self)@.len() == u32::MAX
                    &&& final(self)@ == old(self)@
                },
            },
    {
        let n = self.slots.len();
        assert(self.slots@.len() == self@.len());
        let mut i: usize = 0;
        while i < n
            invariant
                n == self@.len(),
                n == self.slots@.len(),
                n <= u32::MAX,
                self@ == old(self)@,
                i <= n,
                forall|j: int| 0 <= j < i ==> !reusable(#[trigger] self@[j]),
            decreases n - i,
        {
            assert(self@[i as int] == self.slots@[i as int].model());
            if !self.slots[i].alive && self.slots[i].generation < u32::MAX {
                let g = self.slots[i].generation;
                let map = pairs_into_map(components);
                self.slots.set(i, Slot { generation: g, alive: true, components: map });
                proof {
                    assert(self@ =~= old(self)@.update(
                        i as int,
                        SlotView { generation: g, alive: true, components: pairs_to_map(components@) },
                    ));
                }
                return Some(Entity { index: i as u32, generation: g });
            }
            i = i + 1;
        }
        let r = self.spawn_fresh(components);
        r
    }

    /// Creates an entity at once in a new slot, never reusing one.
    pub(crate) fn spawn_fresh(&mut self, components: Vec<(u32, C)>) -> (r: Option<Entity>)
        requires
            old(self).wf(),
        ensures
            final(self).wf(),
            match r {
                Some(e) => {
                    &&& old(self)@.len() < u32::MAX
                    &&& e == Entity { index: old(self)@.len() as u32, generation: 0 }
                    &&& final(self)@ == spawn_model(old(self)@, pairs_to_map(components@))
                },
                None => old(self)@.len() == u32::MAX && final(self)@ == old(self)@,
            },
    {
        let n = self.slots.len();
        assert(self.slots@.len() == self@.len());
        if n == u32::MAX as usize {
            return None;
        }
        let map = pairs_into_map(components);
        self.slots.push(Slot { generation: 0, alive: true, components: map });
        proof {
            assert(self@ =~= spawn_model(old(self)@, pairs_to_map(components@)));
        }
        Some(Entity { index: n as u32, generation: 0 })
    }

    /// Removes a live entity and all its components; its slot's generation
    /// advances, so the identifier goes stale. Returns whether `e` was live.
    pub fn despawn(&mut self, e: Entity) -> (r: bool)
        ensures
            r == alive(old(self)@, e),
            final(self)@ == despawn_model(old(self)@, e),
    {
        if !self.is_alive(e) {
            return false;
        }
        let i = e.index as usize;
        let g = if e.generation < u32::MAX { e.generation + 1 } else { e.generation };
        self.slots.set(i, Slot { generation: g, alive: false, components: HashMap::new() });
        proof {
            assert(self@ =~= despawn_model(old(self)@, e));
        }
        true
    }

    /// Puts `value` as the component of kind `kind` of a live entity,
    /// replacing any earlier one. Returns whether `e` was live.
    pub fn insert(&mut self, e: Entity, kind: u32, value: C) -> (r: bool)
        ensures
            r == alive(old(self)@, e),
            final(self)@ == insert_model(old(self)@, e, kind, value),
    {
        if !self.is_alive(e) {
            return false;
        }
        let i = e.index as usize;
        self.slots[i].components.insert(kind, value);
        proof {
            assert(self@ =~= insert_model(old(self)@, e, kind, value));
        }
        true
    }

    /// Takes away the component of kind `kind` of `e`, if `e` is live and has one.
    pub fn remove(&mut self, e: Entity, kind: u32) -> (r: Option<C>)
        ensures
            final(self)@ == remove_model(old(self)@, e, kind),
            match r {
                Some(v) => has_component(old(self)@, e, kind)
                    && v == old(self)@[e.index as int].components[kind],
                None => !has_component(old(self)@, e, kind),
            },
    {
        if !self.is_alive(e) {
            return None;
        }
        let i = e.index as usize;
        let r = self.slots[i].components.remove(&kind);
        proof {
            assert(self@ =~= remove_model(old(self)@, e, kind));
        }
        r
    }

    /// The component of kind `kind` of `e`; none for a stale entity.
    pub fn get(&self, e: Entity, kind: u32) -> (r: Option<&C>)
        ensures
            match r {
                Some(v) => has_component(self@, e, kind) && *v == self@[e.index as int].components[kind],
                None => !has_component(self@, e, kind),
            },
    {
        if !self.is_alive(e) {
            return None;
        }
        self.slots[e.index as usize].components.get(&kind)
    }

    pub fn has(&self, e: Entity, kind: u32) -> (r: bool)
        ensures
            r == has_component(self@, e, kind),
    {
        self.is_alive(e) && self.slots[e.index as usize].components.contains_key(&kind)
    }

    /// The entities that match `q` now, each once, in slot order. The result
    /// is a snapshot: later changes to the world do not alter it.
    pub fn query(&self, q: &Query) -> (r: Vec<Entity>)
        requires
            self.wf(),
        ensures
            query_result(self@, *q, r@),
            r@.len() == count_below(self@, *q, self@.len() as int),
    {
        let mut r: Vec<Entity> = Vec::new();
        let n = self.slots.len();
        assert(self.slots@.len() == self@.len());
        let mut i: usize = 0;
        while i < n
            invariant
                n == self@.len(),
                n <= u32::MAX,
                i <= n,
                r@.len() == count_below(self@, *q, i as int),
                forall|k: int| 0 <= k < r@.len() ==> query_matches(self@, #[trigger] r@[k], *q),
                forall|k: int| 0 <= k < r@.len() ==> (#[trigger] r@[k]).index < i,
                forall|k: int, l: int| 0 <= k < l < r@.len() ==> r@[k].index < r@[l].index,
                forall|e: Entity| e.index < i && query_matches(self@, e, *q) ==> r@.contains(e),
            decreases n - i,
        {
            let slot = &self.slots[i];
            let e = Entity { index: i as u32, generation: slot.generation };
            assert(self@[i as int] == slot.model());
            assert(e == slot_entity(self@, i as int));
            let ghost r_before = r@;
            if slot.alive && kinds_accepted(&slot.components, q) {
                r.push(e);
                assert(r@[r@.len() - 1] == e);
            }
            assert forall|e2: Entity| e2.index < i + 1 && query_matches(self@, e2, *q) implies r@.contains(e2) by {
                if e2.index == i {
                    assert(e2 == e);
                    assert(r@[r@.len() - 1] == e);
                } else {
                    assert(e2.index < i);
                    assert(r_before.contains(e2));
                    let k = choose|k: int| 0 <= k < r_before.len() && r_before[k] == e2;
                    assert(r@[k] == e2);
                }
            }
            i = i + 1;
        }
        r
    }

    /// The number of entities that match `q`.
    pub fn count(&self, q: &Query) -> (r: usize)
        requires
            self.wf(),
        ensures
            r == count_below(self@, *q, self@.len() as int),
    {
        let v = self.query(q);
        v.len()
    }

    /// The one entity that matches `q`, or why there is not exactly one.
    pub fn single(&self, q: &Query) -> (r: Result<Entity, QuerySingleError>)
        requires
            self.wf(),
        ensures
            match r {
                Ok(e) => query_matches(self@, e, *q) && forall|f: Entity| query_matches(self@, f, *q) ==> f == e,
                Err(QuerySingleError::NoEntities) => forall|f: Entity| !query_matches(self@, f, *q),
                Err(QuerySingleError::MultipleEntities) => exists|f: Entity, g: Entity|
                    query_matches(self@, f, *q) && query_matches(self@, g, *q) && f != g,
            },
    {
        let v = self.query(q);
        if v.len() == 0 {
            assert forall|f: Entity| !query_matches(self@, f, *q) by {
                if query_matches(self@, f, *q) {
                    assert(v@.contains(f));
                }
            }
            Err(QuerySingleError::NoEntities)
        } else if v.len() == 1 {
            let e = v[0];
            assert forall|f: Entity| query_matches(self@, f, *q) implies f == e by {
                assert(v@.contains(f));
            }
            Ok(e)
        } else {
            assert(v@[0].index < v@[1].index);
            assert(query_matches(self@, v@[0], *q) && query_matches(self@, v@[1], *q));
            Err(QuerySingleError::MultipleEntities)
        }
    }
}

/// Builds a component map from pairs, a later pair replacing an earlier one.
fn pairs_into_map<C>(pairs: Vec<(u32, C)>) -> (r: HashMap<u32, C>)
    ensures
        r@ == pairs_to_map(pairs@),
{
    let mut m: HashMap<u32, C> = HashMap::new();
    let mut rest = pairs;
    let ghost all = rest@;
    let total = rest.len();
    let mut k: usize = 0;
    while rest.len() > 0
        invariant
            k <= all.len(),
            k + rest@.len() == all.len(),
            all.len() == total,
            rest@ == all.skip(k as int),
            m@ == pairs_to_map(all.take(k as int)),
        decreases rest@.len(),
    {
        let (kind, value) = rest.remove(0);
        proof {
            assert(all.take(k + 1).drop_last() =~= all.take(k as int));
            assert(all[k as int] == (kind, value));
        }
        m.insert(kind, value);
        k = k + 1;
        proof {
            assert(rest@ =~= all.skip(k as int));
        }
    }
    assert(all.take(k as int) =~= all);
    m
}

} // verus!

verus! {

/// A despawned identifier stays stale: a later spawn never hands it out
/// again, even where it takes the same slot, and it does not become live.
pub proof fn lemma_despawned_identifier_stays_stale<C>(
    w: Seq<SlotView<C>>,
    e: Entity,
    f: Entity,
    components: Map<u32, C>,
    w2: Seq<SlotView<C>>,
)
    requires
        alive(w, e),
        spawned_at(despawn_model(w, e), f, components, w2),
    ensures
        f != e,
        !alive(w2, e),
        alive(w2, f),
{
    let w1 = despawn_model(w, e);
    assert(w1[e.index as int].generation == next_generation(e.generation));
}

} // verus!
