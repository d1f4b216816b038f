use mini_ecs::commands::Commands;
use mini_ecs::entity::Entity;
use mini_ecs::game::{
    collect_star, respawn_stars, udpate_score, GameResource, Score, StarSpawnTimer, SCORE, STAR, STAR_SPAWN_NANOS,
    STAR_SPAWN_TIMER, START_COUNT,
};
use mini_ecs::game::update_star_tick;
use mini_ecs::people::{
    i_have_a_job, job_name, person_is_, print_names, setup, they_took_our_jobs, Job, PeopleComponent, PeoplePluging,
    EMPLOYED, PERSON,
};
use mini_ecs::resources::Resources;
use mini_ecs::schedule::{build_schedule, Phase};
use mini_ecs::world::World;

fn people_world() -> World<PeopleComponent> {
    let mut w: World<PeopleComponent> = World::new();
    let mut cmds = Commands::new(&w);
    setup(&mut cmds);
    assert_eq!(cmds.queue.len(), 2);
    assert!(cmds.apply(&mut w).is_ok());
    w
}

#[test]
fn people_scene_lists() {
    let w = people_world();
    assert_eq!(print_names(&w), vec!["Grabrulenzo".to_string(), "Dionilsonzinete".to_string()]);
    assert_eq!(i_have_a_job(&w), vec!["Dionilsonzinete".to_string()]);
    assert_eq!(they_took_our_jobs(&w), vec!["Grabrulenzo".to_string()]);
    assert_eq!(person_is_(&w), vec![("Dionilsonzinete".to_string(), Job::Doctor)]);
    assert!(w.has(Entity::new(1, 0), EMPLOYED));
    assert!(w.has(Entity::new(0, 0), PERSON));
}

#[test]
fn job_names() {
    assert_eq!(job_name(Job::Doctor), "Doctor");
    assert_eq!(job_name(Job::FireFighter), "FireFighter");
    assert_eq!(job_name(Job::Lawyer), "Lawyer");
}

#[test]
fn people_plugin_schedule() {
    let systems = PeoplePluging.build();
    assert_eq!(systems.len(), 5);
    assert_eq!(systems[0].phase, Phase::Startup);
    let s = build_schedule(&systems).unwrap();
    assert_eq!(s.startup, vec![0]);
    assert_eq!(s.frame, vec![1, 2, 3, 4]);
    assert_eq!(s.stage, vec![0, 0, 0, 0, 0]);
}

fn game_resources() -> Resources<GameResource> {
    let mut r = Resources::new();
    r.init(SCORE, GameResource::Score(Score::default()));
    r.init(STAR_SPAWN_TIMER, GameResource::StarSpawnTimer(StarSpawnTimer::default()));
    r
}

#[test]
fn collecting_a_star_scores_and_stages_despawn() {
    let mut w: World<u8> = World::new();
    let star = w.spawn(vec![(STAR, 0)]).unwrap();
    let mut r = game_resources();
    let mut cmds = Commands::new(&w);
    assert_eq!(udpate_score(&r), None);
    collect_star(&mut r, &mut cmds, star);
    assert_eq!(r.get(SCORE), Some(&GameResource::Score(Score { value: 1 })));
    assert_eq!(udpate_score(&r), None);
    r.end_tick();
    assert_eq!(udpate_score(&r), Some(1));
    r.end_tick();
    assert_eq!(udpate_score(&r), None);
    assert!(w.is_alive(star));
    assert!(cmds.apply(&mut w).is_ok());
    assert!(!w.is_alive(star));
}

#[test]
fn score_stays_at_its_largest_value() {
    let mut w: World<u8> = World::new();
    let star = w.spawn(vec![(STAR, 0)]).unwrap();
    let mut r = Resources::new();
    r.init(SCORE, GameResource::Score(Score { value: u32::MAX }));
    let mut cmds = Commands::new(&w);
    collect_star(&mut r, &mut cmds, star);
    assert_eq!(r.get(SCORE), Some(&GameResource::Score(Score { value: u32::MAX })));
    assert_eq!(cmds.queue.len(), 1);
}

#[test]
fn stars_respawn_when_timer_fires_and_field_not_full() {
    let mut w: World<u8> = World::new();
    let mut r = game_resources();
    assert!(!respawn_stars(&w, &r));
    update_star_tick(&mut r, STAR_SPAWN_NANOS / 2);
    assert!(!respawn_stars(&w, &r));
    update_star_tick(&mut r, STAR_SPAWN_NANOS / 2);
    assert!(respawn_stars(&w, &r));
    for _ in 0..START_COUNT {
        let _ = w.spawn(vec![(STAR, 0)]);
    }
    assert!(!respawn_stars(&w, &r));
    update_star_tick(&mut r, 1);
    let _ = w.spawn(vec![]);
    assert!(!respawn_stars(&w, &r));
}
