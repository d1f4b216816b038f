use vstd::prelude::*;

verus! {

/// The phase a system belongs to: run once before the first tick, or once
/// in every tick.
#[derive(Clone, Copy, Debug, PartialEq, Eq, Structural)]
pub enum Phase {
    Startup,
    Frame,
}

/// One declared access of a system: a resource or component kind, shared or
/// exclusive.
#[derive(Clone, Copy, Debug, PartialEq, Eq, Structural)]
pub struct Access {
    pub target: u32,
    pub exclusive: bool,
}

/// A registered system: its phase and its declared accesses.
pub struct SystemDecl {
    pub phase: Phase,
    pub access: Vec<Access>,
}

/// Two accesses to one target of which at least one is exclusive.
pub open spec fn clash(a: Access, b: Access) -> bool {
    a.target == b.target && (a.exclusive || b.exclusive)
}

/// Two systems of one phase whose accesses clash.
pub open spec fn conflicts(a: SystemDecl, b: SystemDecl) -> bool {
    &&& a.phase == b.phase
    &&& exists|i: int, j: int|
        0 <= i < a.access@.len() && 0 <= j < b.access@.len() && #[trigger] clash(a.access@[i], b.access@[j])
}

/// A system whose own accesses clash with each other.
pub open spec fn self_conflict(a: SystemDecl) -> bool {
    exists|i: int, j: int|
        0 <= i < a.access@.len() && 0 <= j < a.access@.len() && i != j && #[trigger] clash(a.access@[i], a.access@[j])
}

/// Systems in one stage may run at once. A conflicting pair is placed in
/// stages in registration order, and each system is in the earliest stage
/// that this allows.
pub open spec fn serializes(systems: Seq<SystemDecl>, stage: Seq<usize>) -> bool {
    &&& stage.len() == systems.len()
    &&& forall|i: int, j: int| 0 <= i < j < systems.len() && conflicts(systems[i], systems[j])
        ==> stage[i] < stage[j]
    &&& forall|j: int| 0 <= j < systems.len() && stage[j] != 0 ==> exists|i: int|
        0 <= i < j && conflicts(systems[i], systems[j]) && stage[i] + 1 == stage[j]
}

/// `r` lists, in registration order, the systems of phase `p`.
pub open spec fn phase_order(systems: Seq<SystemDecl>, p: Phase, r: Seq<usize>) -> bool {
    &&& forall|k: int| 0 <= k < r.len() ==> r[k] < systems.len() && systems[r[k] as int].phase == p
    &&& forall|k: int, l: int| 0 <= k < l < r.len() ==> r[k] < r[l]
    &&& forall|i: int| 0 <= i < systems.len() && systems[i].phase == p ==> r.contains(i as usize)
}

/// A schedule: the startup systems and the frame systems in registration
/// order, and the stage of each system within its phase.
pub struct Schedule {
    pub startup: Vec<usize>,
    pub frame: Vec<usize>,
    pub stage: Vec<usize>,
}

/// Why a set of systems cannot be scheduled.
#[derive(Clone, Copy, Debug, PartialEq, Eq, Structural)]
pub enum ScheduleError {
    /// The system at this index declares clashing accesses itself.
    SelfConflict(usize),
}

fn clashes(a: &Access, b: &Access) -> (r: bool)
    ensures
        r == clash(*a, *b),
{
    a.target == b.target && (a.exclusive || b.exclusive)
}

fn conflicting(a: &SystemDecl, b: &SystemDecl) -> (r: bool)
    ensures
        r == conflicts(*a, *b),
{
    if a.phase != b.phase {
        return false;
    }
    let mut i: usize = 0;
    while i < a.access.len()
        invariant
            a.phase == b.phase,
            i <= a.access@.len(),
            forall|x: int, y: int| 0 <= x < i && 0 <= y < b.access@.len() ==> !#[trigger] clash(a.access@[x], b.access@[y]),
        decreases a.access@.len() - i,
    {
        let mut j: usize = 0;
        while j < b.access.len()
            invariant
                a.phase == b.phase,
                i < a.access@.len(),
                j <= b.access@.len(),
                forall|x: int, y: int| 0 <= x < i && 0 <= y < b.access@.len() ==> !#[trigger] clash(a.access@[x], b.access@[y]),
                forall|y: int| 0 <= y < j ==> !#[trigger] clash(a.access@[i as int], b.access@[y]),
            decreases b.access@.len() - j,
        {
            if clashes(&a.access[i], &b.access[j]) {
                assert(clash(a.access@[i as int], b.access@[j as int]));
                return true;
            }
            j = j + 1;
        }
        i = i + 1;
    }
    false
}

fn conflicts_with_itself(a: &SystemDecl) -> (r: bool)
    ensures
        r == self_conflict(*a),
{
    let n = a.access.len();
    let mut i: usize = 0;
    while i < n
        invariant
            n == a.access@.len(),
            i <= n,
            forall|x: int, y: int| 0 <= x < i && 0 <= y < n && x != y ==> !#[trigger] clash(a.access@[x], a.access@[y]),
        decreases n - i,
    {
        let mut j: usize = 0;
        while j < n
            invariant
                n == a.access@.len(),
                i < n,
                j <= n,
                forall|x: int, y: int| 0 <= x < i && 0 <= y < n && x != y ==> !#[trigger] clash(a.access@[x], a.access@[y]),
                forall|y: int| 0 <= y < j && y != i ==> !#[trigger] clash(a.access@[i as int], a.access@[y]),
            decreases n - j,
        {
            if i != j && clashes(&a.access[i], &a.access[j]) {
                assert(clash(a.access@[i as int], a.access@[j as int]));
                return true;
            }
            j = j + 1;
        }
        i = i + 1;
    }
    proof {
        assert forall|x: int, y: int| 0 <= x < n && 0 <= y < n && x != y implies !#[trigger] clash(a.access@[x], a.access@[y]) by {
            if clash(a.access@[x], a.access@[y]) {
                assert(clash(a.access@[y], a.access@[x]));
            }
        }
    }
    false
}

fn systems_of_phase(systems: &Vec<SystemDecl>, p: Phase) -> (r: Vec<usize>)
    ensures
        phase_order(systems@, p, r@),
{
    let mut r: Vec<usize> = Vec::new();
    let mut i: usize = 0;
    while i < systems.len()
        invariant
            i <= systems@.len(),
            forall|k: int| 0 <= k < r@.len() ==> #[trigger] r@[k] < i && systems@[r@[k] as int].phase == p,
            forall|k: int, l: int| 0 <= k < l < r@.len() ==> r@[k] < r@[l],
            forall|x: int| 0 <= x < i && systems@[x].phase == p ==> r@.contains(x as usize),
        decreases systems@.len() - i,
    {
        let ghost before = r@;
        if systems[i].phase == p {
            r.push(i);
        }
        assert forall|x: int| 0 <= x < i + 1 && systems@[x].phase == p implies r@.contains(x as usize) by {
            if x < i {
                let k = choose|k: int| 0 <= k < before.len() && before[k] == x as usize;
                assert(r@[k] == x as usize);
            } else {
                assert(r@[r@.len() - 1] == i);
            }
        }
        i = i + 1;
    }
    r
}

/// Builds the schedule of `systems`, given in registration order: each
/// phase keeps registration order, and any two conflicting systems land in
/// different stages, the earlier registered one first. A system that clashes
/// with itself is refused before anything runs; the first such one is named.
pub fn build_schedule(systems: &Vec<SystemDecl>) -> (r: Result<Schedule, ScheduleError>)
    ensures
        match r {
            Ok(s) => {
                &&& forall|i: int| 0 <= i < systems@.len() ==> !self_conflict(#[trigger] systems@[i])
                &&& serializes(systems@, s.stage@)
                &&& phase_order(systems@, Phase::Startup, s.startup@)
                &&& phase_order(systems@, Phase::Frame, s.frame@)
            },
            Err(ScheduleError::SelfConflict(k)) => {
                &&& k < systems@.len()
                &&& self_conflict(systems@[k as int])
                &&& forall|i: int| 0 <= i < k ==> !self_conflict(#[trigger] systems@[i])
            },
        },
{
    let n = systems.len();
    let mut k: usize = 0;
    while k < n
        invariant
            n == systems@.len(),
            k <= n,
            forall|i: int| 0 <= i < k ==> !self_conflict(#[trigger] systems@[i]),
        decreases n - k,
    {
        if conflicts_with_itself(&systems[k]) {
            return Err(ScheduleError::SelfConflict(k));
        }
        k = k + 1;
    }
    let mut stage: Vec<usize> = Vec::new();
    let mut j: usize = 0;
    while j < n
        invariant
            n == systems@.len(),
            j <= n,
            stage@.len() == j,
            forall|x: int| 0 <= x < j ==> #[trigger] stage@[x] <= x,
            forall|x: int, y: int| 0 <= x < y < j && conflicts(systems@[x], systems@[y]) ==> stage@[x] < stage@[y],
            forall|y: int| 0 <= y < j && stage@[y] != 0 ==> exists|x: int|
                0 <= x < y && conflicts(systems@[x], systems@[y]) && stage@[x] + 1 == stage@[y],
        decreases n - j,
    {
        let mut s: usize = 0;
        let mut i: usize = 0;
        while i < j
            invariant
                n == systems@.len(),
                j < n,
                i <= j,
                stage@.len() == j,
                s <= i,
                forall|x: int| 0 <= x < j ==> #[trigger] stage@[x] <= x,
                forall|x: int| 0 <= x < i && conflicts(systems@[x], systems@[j as int]) ==> stage@[x] < s,
                s != 0 ==> exists|x: int| 0 <= x < i && conflicts(systems@[x], systems@[j as int]) && stage@[x] + 1 == s,
            decreases j - i,
        {
            if conflicting(&systems[i], &systems[j]) && stage[i] + 1 > s {
                s = stage[i] + 1;
            }
            i = i + 1;
        }
        stage.push(s);
        j = j + 1;
    }
    let startup = systems_of_phase(systems, Phase::Startup);
    let frame = systems_of_phase(systems, Phase::Frame);
    Ok(Schedule { startup, frame, stage })
}

/// Two systems that declare conflicting access are never in one stage, so
/// they never run at once, and the one registered first runs first.
pub proof fn lemma_conflicting_systems_never_concurrent(
    systems: Seq<SystemDecl>,
    stage: Seq<usize>,
    i: int,
    j: int,
)
    requires
        serializes(systems, stage),
        0 <= i < systems.len(),
        0 <= j < systems.len(),
        i != j,
        conflicts(systems[i], systems[j]),
    ensures
        stage[i] != stage[j],
        i < j ==> stage[i] < stage[j],
        j < i ==> stage[j] < stage[i],
{
    if j < i {
        let (x, y) = choose|x: int, y: int|
            0 <= x < systems[i].access@.len() && 0 <= y < systems[j].access@.len()
                && #[trigger] clash(systems[i].access@[x], systems[j].access@[y]);
        assert(clash(systems[j].access@[y], systems[i].access@[x]));
        assert(conflicts(systems[j], systems[i]));
    }
}

} // verus!

verus! {

/// Where the run loop stands: before startup, after a number of ticks, or
/// shut down.
#[derive(Clone, Copy, Debug, PartialEq, Eq, Structural)]
pub enum RunState {
    NotStarted,
    Running(u64),
    Exited,
}

/// What the host does next: run the startup phase, run the frame phase of
/// the given tick, shut down, or nothing (after shutdown no system runs).
/// Each phase ends at its sync point, where its command buffer is applied.
#[derive(Clone, Copy, Debug, PartialEq, Eq, Structural)]
pub enum Step {
    RunStartup,
    RunFrame(u64),
    Exit,
    Idle,
}

/// The run loop's decision from its state and whether shutdown was asked.
pub fn next_step(state: RunState, shutdown: bool) -> (r: (RunState, Step))
    ensures
        r == match state {
            RunState::Exited => (RunState::Exited, Step::Idle),
            RunState::NotStarted => if shutdown {
                (RunState::Exited, Step::Exit)
            } else {
                (RunState::Running(0), Step::RunStartup)
            },
            RunState::Running(t) => if shutdown || t == u64::MAX {
                (RunState::Exited, Step::Exit)
            } else {
                (RunState::Running((t + 1) as u64), Step::RunFrame(t))
            },
        },
{
    match state {
        RunState::Exited => (RunState::Exited, Step::Idle),
        RunState::NotStarted => {
            if shutdown {
                (RunState::Exited, Step::Exit)
            } else {
                (RunState::Running(0), Step::RunStartup)
            }
        },
        RunState::Running(t) => {
            if shutdown || t == u64::MAX {
                (RunState::Exited, Step::Exit)
            } else {
                (RunState::Running(t + 1), Step::RunFrame(t))
            }
        },
    }
}

} // verus!
