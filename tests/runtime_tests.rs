use mini_ecs::resources::Resources;
use mini_ecs::schedule::{build_schedule, next_step, Access, Phase, RunState, ScheduleError, Step, SystemDecl};
use mini_ecs::timer::{Timer, TimerMode};

const SECOND: u64 = 1_000_000_000;

#[test]
fn changed_flag_up_for_exactly_the_next_tick() {
    let mut r: Resources<u32> = Resources::new();
    assert!(r.init(5, 0));
    assert!(!r.init(5, 9));
    assert_eq!(r.get(5), Some(&0));
    assert!(!r.is_changed(5));
    assert!(r.write(5, 1));
    assert!(!r.is_changed(5));
    r.end_tick();
    assert!(r.is_changed(5));
    r.end_tick();
    assert!(!r.is_changed(5));
    r.end_tick();
    assert!(!r.is_changed(5));
    assert_eq!(r.get(5), Some(&1));
    assert_eq!(r.tick(), 3);
}

#[test]
fn write_to_unregistered_resource_is_refused() {
    let mut r: Resources<u32> = Resources::new();
    assert!(!r.write(1, 4));
    assert_eq!(r.get(1), None);
    assert!(!r.is_changed(1));
}

fn sys(phase: Phase, access: Vec<(u32, bool)>) -> SystemDecl {
    SystemDecl { phase, access: access.into_iter().map(|(target, exclusive)| Access { target, exclusive }).collect() }
}

#[test]
fn conflicting_systems_get_ordered_stages() {
    let systems = vec![
        sys(Phase::Startup, vec![(1, true)]),
        sys(Phase::Frame, vec![(1, true)]),
        sys(Phase::Frame, vec![(1, false), (2, false)]),
        sys(Phase::Frame, vec![(2, false)]),
        sys(Phase::Frame, vec![(1, false)]),
        sys(Phase::Frame, vec![(2, true)]),
    ];
    let s = build_schedule(&systems).unwrap();
    assert_eq!(s.startup, vec![0]);
    assert_eq!(s.frame, vec![1, 2, 3, 4, 5]);
    assert_eq!(s.stage, vec![0, 0, 1, 0, 1, 2]);
}

#[test]
fn self_conflicting_system_is_refused() {
    let systems = vec![
        sys(Phase::Frame, vec![(1, false), (1, false)]),
        sys(Phase::Frame, vec![(3, false), (3, true)]),
        sys(Phase::Frame, vec![(4, true), (4, true)]),
    ];
    assert_eq!(build_schedule(&systems).err(), Some(ScheduleError::SelfConflict(1)));
}

#[test]
fn run_loop_steps() {
    let (s, a) = next_step(RunState::NotStarted, false);
    assert_eq!((s, a), (RunState::Running(0), Step::RunStartup));
    let (s, a) = next_step(s, false);
    assert_eq!((s, a), (RunState::Running(1), Step::RunFrame(0)));
    let (s, a) = next_step(s, false);
    assert_eq!((s, a), (RunState::Running(2), Step::RunFrame(1)));
    let (s, a) = next_step(s, true);
    assert_eq!((s, a), (RunState::Exited, Step::Exit));
    assert_eq!(next_step(s, false), (RunState::Exited, Step::Idle));
    assert_eq!(next_step(RunState::NotStarted, true), (RunState::Exited, Step::Exit));
    assert_eq!(next_step(RunState::Running(u64::MAX), false), (RunState::Exited, Step::Exit));
}

#[test]
fn repeating_timer_finishes_when_sum_reaches_interval() {
    let mut t = Timer::new(SECOND, TimerMode::Repeating);
    let quarter = SECOND / 4;
    for _ in 0..3 {
        t.tick(quarter);
        assert!(!t.finished());
    }
    t.tick(quarter);
    assert!(t.finished());
    assert_eq!(t.elapsed, 0);
    t.tick(quarter);
    assert!(!t.finished());
    assert_eq!(t.elapsed, quarter);
}

#[test]
fn repeating_timer_keeps_overshoot() {
    let mut t = Timer::new(100, TimerMode::Repeating);
    t.tick(70);
    t.tick(250);
    assert!(t.finished());
    assert_eq!(t.elapsed, 20);
    t.tick(u64::MAX);
    assert!(t.finished());
    assert_eq!(t.elapsed, ((20u128 + u64::MAX as u128) % 100) as u64);
}

#[test]
fn once_timer_stays_finished() {
    let mut t = Timer::new(10, TimerMode::Once);
    t.tick(4);
    assert!(!t.finished());
    t.tick(6);
    assert!(t.finished());
    assert_eq!(t.elapsed, 10);
    t.tick(3);
    assert!(t.finished());
    assert_eq!(t.elapsed, 10);
}

#[test]
fn zero_length_repeating_timer_finishes_every_tick() {
    let mut t = Timer::new(0, TimerMode::Repeating);
    t.tick(0);
    assert!(t.finished());
    assert_eq!(t.elapsed, 0);
}
