use vstd::prelude::*;
use crate::commands::{Command, Commands};
use crate::entity::Entity;
use crate::query::Query;
use crate::resources::{changed, write_model, Resources, ResourcesView};
use crate::timer::{tick_model, Timer, TimerMode};
use crate::world::{count_below, World};

verus! {

/// Marker kind of the player.
pub const PLAYER: u32 = 0;

/// Marker kind of a star.
pub const STAR: u32 = 1;

/// Marker kind of an enemy.
pub const ENEMY: u32 = 2;

/// How many stars the field holds at most.
pub const START_COUNT: usize = 10;

/// How many enemies are spawned at startup.
pub const NUMBER_OF_ENEMIES: i32 = 3;

/// The star spawn interval, in nanoseconds.
pub const STAR_SPAWN_NANOS: u64 = 1_000_000_000;

/// Resource id of the score.
pub const SCORE: u32 = 0;

/// Resource id of the star spawn timer.
pub const STAR_SPAWN_TIMER: u32 = 1;

#[derive(Clone, Copy, Debug, PartialEq, Eq, Structural)]
pub struct Score {
    pub value: u32,
}

impl Default for Score {
    fn default() -> (r: Score)
        ensures
            r.value == 0,
    {
        Score { value: 0 }
    }
}

#[derive(Clone, Copy, Debug, PartialEq, Eq, Structural)]
pub struct StarSpawnTimer {
    pub timer: Timer,
}

impl Default for StarSpawnTimer {
    fn default() -> (r: StarSpawnTimer)
        ensures
            r.timer == (Timer { duration: STAR_SPAWN_NANOS, elapsed: 0, mode: TimerMode::Repeating, finished: false }),
    {
        StarSpawnTimer { timer: Timer::new(STAR_SPAWN_NANOS, TimerMode::Repeating) }
    }
}

/// The resources of the star game.
#[derive(Clone, Copy, Debug, PartialEq, Eq, Structural)]
pub enum GameResource {
    Score(Score),
    StarSpawnTimer(StarSpawnTimer),
}

/// The score stored under `SCORE`, if that entry holds one.
pub open spec fn score_of(s: ResourcesView<GameResource>) -> Option<u32> {
    if s.entries.contains_key(SCORE) {
        match s.entries[SCORE].value {
            GameResource::Score(sc) => Some(sc.value),
            _ => None,
        }
    } else {
        None
    }
}

/// The timer stored under `STAR_SPAWN_TIMER`, if that entry holds one.
pub open spec fn spawn_timer_of(s: ResourcesView<GameResource>) -> Option<Timer> {
    if s.entries.contains_key(STAR_SPAWN_TIMER) {
        match s.entries[STAR_SPAWN_TIMER].value {
            GameResource::StarSpawnTimer(t) => Some(t.timer),
            _ => None,
        }
    } else {
        None
    }
}

fn read_score(res: &Resources<GameResource>) -> (r: Option<u32>)
    ensures
        r == score_of(res@),
{
    match res.get(SCORE) {
        Some(GameResource::Score(s)) => Some(s.value),
        _ => None,
    }
}

fn read_spawn_timer(res: &Resources<GameResource>) -> (r: Option<Timer>)
    ensures
        r == spawn_timer_of(res@),
{
    match res.get(STAR_SPAWN_TIMER) {
        Some(GameResource::StarSpawnTimer(t)) => Some(t.timer),
        _ => None,
    }
}

/// The score to report: its value when it changed in the previous tick.
pub fn udpate_score(res: &Resources<GameResource>) -> (r: Option<u32>)
    ensures
        r == if changed(res@, SCORE) { score_of(res@) } else { None },
{
    if res.is_changed(SCORE) {
        read_score(res)
    } else {
        None
    }
}

/// Advances the star spawn timer by `delta` nanoseconds, as an exclusive
/// write. Nothing happens where no well-formed timer is stored.
pub fn update_star_tick(res: &mut Resources<GameResource>, delta: u64)
    ensures
        final(res)@ == match spawn_timer_of(old(res)@) {
            Some(t) => if t.wf() {
                write_model(
                    old(res)@,
                    STAR_SPAWN_TIMER,
                    GameResource::StarSpawnTimer(StarSpawnTimer { timer: tick_model(t, delta) }),
                )
            } else {
                old(res)@
            },
            None => old(res)@,
        },
{
    match read_spawn_timer(res) {
        Some(t) => {
            if t.elapsed <= t.duration && !(t.mode == TimerMode::Repeating && t.duration > 0 && t.elapsed >= t.duration) {
                let mut timer = t;
                timer.tick(delta);
                res.write(STAR_SPAWN_TIMER, GameResource::StarSpawnTimer(StarSpawnTimer { timer }));
            }
        },
        None => {},
    }
}

/// Whether a star is to be respawned now: the spawn timer finished in its
/// last tick and fewer than `START_COUNT` stars are on the field.
pub fn respawn_stars<C>(world: &World<C>, res: &Resources<GameResource>) -> (r: bool)
    requires
        world.wf(),
    ensures
        exists|q: Query|
            q.required@ == Seq::<u32>::empty() && q.with@ == seq![STAR] && q.without@ == Seq::<u32>::empty()
                && r == (spawn_timer_of(res@) matches Some(t) && t.finished
                    && #[trigger] count_below(world@, q, world@.len() as int) < START_COUNT),
{
    let q = Query::new().with(STAR);
    let due = match read_spawn_timer(res) {
        Some(t) => t.finished(),
        None => false,
    };
    if !due {
        // the query built above witnesses the `exists` of the postcondition
        let ghost n = count_below(world@, q, world@.len() as int);
        return false;
    }
    let n = world.count(&q);
    n < START_COUNT
}

/// What follows the player touching a star: the score goes up by one (it
/// stays at its largest value), as an exclusive write, and the star's despawn
/// is staged.
pub fn collect_star<C>(res: &mut Resources<GameResource>, commands: &mut Commands<C>, star: Entity)
    requires
        old(commands).wf(),
    ensures
        final(commands).wf(),
        final(commands).base == old(commands).base,
        final(commands).spawned == old(commands).spawned,
        final(commands).queue@ == old(commands).queue@.push(Command::Despawn(star)),
        final(res)@ == match score_of(old(res)@) {
            Some(v) => if v < u32::MAX {
                write_model(old(res)@, SCORE, GameResource::Score(Score { value: (v + 1) as u32 }))
            } else {
                old(res)@
            },
            None => old(res)@,
        },
{
    match read_score(res) {
        Some(v) => {
            if v < u32::MAX {
                res.write(SCORE, GameResource::Score(Score { value: v + 1 }));
            }
        },
        None => {},
    }
    commands.despawn(star);
}

} // verus!
