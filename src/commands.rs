use vstd::prelude::*;
use crate::entity::Entity;
use crate::query::{accepts, Query};
use crate::world::{
    alive, despawn_model, insert_model, query_matches, pairs_to_map, query_result, remove_model, spawn_model, SlotView, World,
};

verus! {

/// A structural change staged during a phase and applied at its sync point.
pub enum Command<C> {
    Spawn(Vec<(u32, C)>),
    Despawn(Entity),
    Insert(Entity, u32, C),
    Remove(Entity, u32),
}

/// Why a command buffer could not be applied.
#[derive(Clone, Copy, Debug, PartialEq, Eq, Structural)]
pub enum ApplyError {
    /// The world gained slots after the buffer was made, so the identifiers
    /// the buffer handed out would not name the entities it spawns.
    StaleReservation,
}

pub open spec fn apply_one<C>(w: Seq<SlotView<C>>, c: Command<C>) -> Seq<SlotView<C>> {
    match c {
        Command::Spawn(v) => spawn_model(w, pairs_to_map(v@)),
        Command::Despawn(e) => despawn_model(w, e),
        Command::Insert(e, k, v) => insert_model(w, e, k, v),
        Command::Remove(e, k) => remove_model(w, e, k),
    }
}

/// The world after the commands of `cs`, in order.
pub open spec fn apply_all<C>(w: Seq<SlotView<C>>, cs: Seq<Command<C>>) -> Seq<SlotView<C>>
    decreases cs.len(),
{
    if cs.len() == 0 {
        w
    } else {
        apply_one(apply_all(w, cs.drop_last()), cs.last())
    }
}

pub open spec fn spawn_count<C>(cs: Seq<Command<C>>) -> nat
    decreases cs.len(),
{
    if cs.len() == 0 {
        0
    } else {
        spawn_count(cs.drop_last()) + if cs.last() is Spawn { 1nat } else { 0nat }
    }
}

/// A buffer of deferred commands. Spawns get their identifiers at once: the
/// buffer reserves the slots that follow the last slot of the world it was
/// made for.
pub struct Commands<C> {
    pub base: u32,
    pub spawned: u32,
    pub queue: Vec<Command<C>>,
}

impl<C> Commands<C> {
    /// The spawn count matches the staged spawns, and every reserved index fits.
    pub open spec fn wf(&self) -> bool {
        &&& self.spawned == spawn_count(self.queue@)
        &&& self.base + self.spawned <= u32::MAX
    }

    /// An empty buffer for a phase that runs against `world`.
    pub fn new(world: &World<C>) -> (r: Commands<C>)
        requires
            world.wf(),
        ensures
            r.wf(),
            r.base == world@.len(),
            r.spawned == 0,
            r.queue@ == Seq::<Command<C>>::empty(),
    {
        let n = world.slot_count();
        Commands { base: n as u32, spawned: 0, queue: Vec::new() }
    }

    /// Stages an entity with the given components and returns its identifier;
    /// none when no slot index is left to reserve.
    pub fn spawn(&mut self, components: Vec<(u32, C)>) -> (r: Option<Entity>)
        requires
            old(self).wf(),
        ensures
            final(self).wf(),
            final(self).base == old(self).base,
            match r {
                Some(e) => {
                    &&& old(self).base + old(self).spawned < u32::MAX
                    &&& e == Entity { index: (old(self).base + old(self).spawned) as u32, generation: 0 }
                    &&& final(self).spawned == old(self).spawned + 1
                    &&& final(self).queue@ == old(self).queue@.push(Command::Spawn(components))
                },
                None => {
                    &&& old(self).base + old(self).spawned >= u32::MAX
                    &&& final(self).spawned == old(self).spawned
                    &&& final(self).queue@ == old(self).queue@
                },
            },
    {
        if self.spawned >= u32::MAX - self.base {
            return None;
        }
        let index = self.base + self.spawned;
        self.spawned = self.spawned + 1;
        self.queue.push(Command::Spawn(components));
        proof {
            assert(self.queue@.drop_last() =~= old(self).queue@);
        }
        Some(Entity { index, generation: 0 })
    }

    /// Stages the removal of `e` and all its components.
    pub fn despawn(&mut self, e: Entity)
        requires
            old(self).wf(),
        ensures
            final(self).wf(),
            final(self).base == old(self).base,
            final(self).spawned == old(self).spawned,
            final(self).queue@ == old(self).queue@.push(Command::Despawn(e)),
    {
        self.queue.push(Command::Despawn(e));
        proof {
            assert(self.queue@.drop_last() =~= old(self).queue@);
        }
    }

    /// Stages putting `value` as the component of kind `kind` of `e`.
    pub fn insert(&mut self, e: Entity, kind: u32, value: C)
        requires
            old(self).wf(),
        ensures
            final(self).wf(),
            final(self).base == old(self).base,
            final(self).spawned == old(self).spawned,
            final(self).queue@ == old(self).queue@.push(Command::Insert(e, kind, value)),
    {
        self.queue.push(Command::Insert(e, kind, value));
        proof {
            assert(self.queue@.drop_last() =~= old(self).queue@);
        }
    }

    /// Stages taking away the component of kind `kind` of `e`.
    pub fn remove(&mut self, e: Entity, kind: u32)
        requires
            old(self).wf(),
        ensures
            final(self).wf(),
            final(self).base == old(self).base,
            final(self).spawned == old(self).spawned,
            final(self).queue@ == old(self).queue@.push(Command::Remove(e, kind)),
    {
        self.queue.push(Command::Remove(e, kind));
        proof {
            assert(self.queue@.drop_last() =~= old(self).queue@);
        }
    }

    /// The sync point: applies every staged command in order. Commands on
    /// stale entities change nothing.
    pub fn apply(self, world: &mut World<C>) -> (r: Result<(), ApplyError>)
        requires
            old(world).wf(),
            self.wf(),
        ensures
            final(world).wf(),
            r is Err <==> old(world)@.len() != self.base,
            r is Ok ==> final(world)@ == apply_all(old(world)@, self.queue@),
            r is Err ==> final(world)@ == old(world)@,
    {
        if world.slot_count() != self.base as usize {
            return Err(ApplyError::StaleReservation);
        }
        let ghost all = self.queue@;
        let ghost start = world@;
        let mut rest = self.queue;
        let total = rest.len();
        let mut k: usize = 0;
        while rest.len() > 0
            invariant
                k + rest@.len() == all.len(),
                all.len() == total,
                rest@ == all.skip(k as int),
                world@ == apply_all(start, all.take(k as int)),
                world@.len() == start.len() + spawn_count(all.take(k as int)),
                start.len() + spawn_count(all) <= u32::MAX,
            decreases rest@.len(),
        {
            let c = rest.remove(0);
            proof {
                assert(all.take(k + 1).drop_last() =~= all.take(k as int));
                assert(all[k as int] == c);
                lemma_spawn_count_prefix(all, k as int + 1);
            }
            match c {
                Command::Spawn(v) => {
                    let _ = world.spawn_fresh(v);
                }
                Command::Despawn(e) => {
                    world.despawn(e);
                }
                Command::Insert(e, kind, value) => {
                    world.insert(e, kind, value);
                }
                Command::Remove(e, kind) => {
                    world.remove(e, kind);
                }
            }
            k = k + 1;
            proof {
                assert(rest@ =~= all.skip(k as int));
            }
        }
        assert(all.take(k as int) =~= all);
        Ok(())
    }
}

/// Applying one command alone.
proof fn lemma_apply_single<C>(w: Seq<SlotView<C>>, c: Command<C>)
    ensures
        apply_all(w, seq![c]) == apply_one(w, c),
{
    let cs = seq![c];
    assert(cs.drop_last() =~= Seq::<Command<C>>::empty());
    assert(apply_all(w, cs.drop_last()) == w);
    assert(cs.last() == c);
}

/// No prefix of a command sequence spawns more than the whole.
proof fn lemma_spawn_count_prefix<C>(cs: Seq<Command<C>>, n: int)
    requires
        0 <= n <= cs.len(),
    ensures
        spawn_count(cs.take(n)) <= spawn_count(cs),
    decreases cs.len() - n,
{
    if n < cs.len() {
        lemma_spawn_count_prefix(cs, n + 1);
        assert(cs.take(n + 1).drop_last() =~= cs.take(n));
    } else {
        assert(cs.take(n) =~= cs);
    }
}

} // verus!

verus! {

/// A query result is a snapshot: every entity that matched when it was taken
/// occurs in it exactly once, and despawning another entity at the sync point
/// leaves that entity matching.
pub proof fn lemma_query_snapshot_survives_despawn<C>(
    w: Seq<SlotView<C>>,
    q: Query,
    r: Seq<Entity>,
    e: Entity,
    d: Entity,
)
    requires
        query_result(w, q, r),
        query_matches(w, e, q),
        e != d,
    ensures
        exists|k: int| 0 <= k < r.len() && r[k] == e,
        forall|k: int, l: int| 0 <= k < r.len() && 0 <= l < r.len() && r[k] == e && r[l] == e ==> k == l,
        query_matches(apply_all(w, seq![Command::Despawn(d)]), e, q),
{
    assert(r.contains(e));
    assert forall|k: int, l: int| 0 <= k < r.len() && 0 <= l < r.len() && r[k] == e && r[l] == e implies k == l by {
        if k < l {
            assert(r[k].index < r[l].index);
        } else if l < k {
            assert(r[l].index < r[k].index);
        }
    }
    lemma_apply_single(w, Command::<C>::Despawn(d));
}

/// A component inserted or removed through a command buffer changes nothing
/// until the sync point; right after it, a query sees the entity's new set of
/// kinds, and the change persists into later ticks until another command.
pub proof fn lemma_structural_change_visible_after_sync<C>(
    w: Seq<SlotView<C>>,
    q: Query,
    e: Entity,
    kind: u32,
    value: C,
)
    requires
        alive(w, e),
    ensures
        query_matches(apply_all(w, seq![Command::Insert(e, kind, value)]), e, q)
            == accepts(q, w[e.index as int].components.dom().insert(kind)),
        query_matches(apply_all(w, seq![Command::Remove(e, kind)]), e, q)
            == accepts(q, w[e.index as int].components.dom().remove(kind)),
        forall|f: Entity| f.index != e.index ==>
            query_matches(apply_all(w, seq![Command::Insert(e, kind, value)]), f, q)
                == query_matches(w, f, q),
{
    lemma_apply_single(w, Command::<C>::Insert(e, kind, value));
    lemma_apply_single(w, Command::<C>::Remove(e, kind));
    let wi = apply_all(w, seq![Command::<C>::Insert(e, kind, value)]);
    let wr = apply_all(w, seq![Command::<C>::Remove(e, kind)]);
    assert(wi[e.index as int].components.dom() =~= w[e.index as int].components.dom().insert(kind));
    assert(wr[e.index as int].components.dom() =~= w[e.index as int].components.dom().remove(kind));
}

/// A despawn staged by a system is not seen before the sync point: the world
/// still holds the entity. After the sync point no query matches it, and its
/// old identifier is stale.
pub proof fn lemma_despawn_seen_after_sync<C>(w: Seq<SlotView<C>>, q: Query, e: Entity)
    requires
        query_matches(w, e, q),
    ensures
        !alive(apply_all(w, seq![Command::Despawn(e)]), e),
        !query_matches(apply_all(w, seq![Command::Despawn(e)]), e, q),
{
    lemma_apply_single(w, Command::<C>::Despawn(e));
}

} // verus!
