use vstd::prelude::*;
use crate::commands::{Command, Commands};
use crate::entity::Entity;
use crate::query::{accepts, Query};
use crate::schedule::{Access, Phase, SystemDecl};
use crate::world::{alive, SlotView, World};

verus! {

/// Component kind of a person's name.
pub const PERSON: u32 = 0;

/// Component kind of a person's job.
pub const EMPLOYED: u32 = 1;

#[derive(Clone, Copy, Debug, PartialEq, Eq, Structural)]
pub enum Job {
    Doctor,
    FireFighter,
    Lawyer,
}

#[derive(Debug)]
pub struct Person {
    pub name: String,
}

#[derive(Clone, Copy, Debug)]
pub struct Employed {
    pub job: Job,
}

/// The component values of the people scene.
#[derive(Debug)]
pub enum PeopleComponent {
    Person(Person),
    Employed(Employed),
}

/// The people scene: one startup system that spawns the people and four
/// frame systems that list them.
pub struct PeoplePluging;

/// The name stored as the `PERSON` component of `e`; empty where there is none.
pub open spec fn person_name(w: Seq<SlotView<PeopleComponent>>, e: Entity) -> Seq<char> {
    if alive(w, e) && w[e.index as int].components.contains_key(PERSON) {
        match w[e.index as int].components[PERSON] {
            PeopleComponent::Person(p) => p.name@,
            _ => Seq::empty(),
        }
    } else {
        Seq::empty()
    }
}

/// The job stored as the `EMPLOYED` component of `e`; `Doctor` where there is none.
pub open spec fn person_job(w: Seq<SlotView<PeopleComponent>>, e: Entity) -> Job {
    if alive(w, e) && w[e.index as int].components.contains_key(EMPLOYED) {
        match w[e.index as int].components[EMPLOYED] {
            PeopleComponent::Employed(j) => j.job,
            _ => Job::Doctor,
        }
    } else {
        Job::Doctor
    }
}

/// `es` lists, once each and in slot order, the live entities whose kinds
/// satisfy `f`.
pub open spec fn selection(
    w: Seq<SlotView<PeopleComponent>>,
    f: spec_fn(Set<u32>) -> bool,
    es: Seq<Entity>,
) -> bool {
    &&& forall|i: int| 0 <= i < es.len() ==> alive(w, #[trigger] es[i]) && f(w[es[i].index as int].components.dom())
    &&& forall|i: int, j: int| 0 <= i < j < es.len() ==> es[i].index < es[j].index
    &&& forall|e: Entity| alive(w, e) && f(w[e.index as int].components.dom()) ==> es.contains(e)
}

pub open spec fn names_listed(w: Seq<SlotView<PeopleComponent>>, es: Seq<Entity>, r: Seq<String>) -> bool {
    &&& r.len() == es.len()
    &&& forall|i: int| 0 <= i < r.len() ==> (#[trigger] r[i])@ == person_name(w, es[i])
}

/// `c` spawns a person named `name`, employed at `job` if there is one.
pub open spec fn spawns_person(c: Command<PeopleComponent>, name: Seq<char>, job: Option<Job>) -> bool {
    match c {
        Command::Spawn(v) => {
            &&& v@.len() == if job is Some { 2int } else { 1int }
            &&& v@[0].0 == PERSON
            &&& (match v@[0].1 {
                PeopleComponent::Person(p) => p.name@ == name,
                _ => false,
            })
            &&& (match job {
                Some(j) => v@[1].0 == EMPLOYED && (match v@[1].1 {
                    PeopleComponent::Employed(x) => x.job == j,
                    _ => false,
                }),
                None => true,
            })
        },
        _ => false,
    }
}

pub open spec fn jobs_listed(w: Seq<SlotView<PeopleComponent>>, es: Seq<Entity>, r: Seq<(String, Job)>) -> bool {
    &&& r.len() == es.len()
    &&& forall|i: int| 0 <= i < r.len() ==> (#[trigger] r[i]).0@ == person_name(w, es[i]) && r[i].1 == person_job(w, es[i])
}

/// The name of `job`.
pub fn job_name(job: Job) -> (r: &'static str)
    ensures
        r@ == match job {
            Job::Doctor => "Doctor"@,
            Job::FireFighter => "FireFighter"@,
            Job::Lawyer => "Lawyer"@,
        },
{
    match job {
        Job::Doctor => "Doctor",
        Job::FireFighter => "FireFighter",
        Job::Lawyer => "Lawyer",
    }
}

fn name_of(world: &World<PeopleComponent>, e: Entity) -> (r: String)
    ensures
        r@ == person_name(world@, e),
{
    match world.get(e, PERSON) {
        Some(PeopleComponent::Person(p)) => p.name.clone(),
        _ => String::new(),
    }
}

fn job_of(world: &World<PeopleComponent>, e: Entity) -> (r: Job)
    ensures
        r == person_job(world@, e),
{
    match world.get(e, EMPLOYED) {
        Some(PeopleComponent::Employed(j)) => j.job,
        _ => Job::Doctor,
    }
}

fn names_of(world: &World<PeopleComponent>, es: &Vec<Entity>) -> (r: Vec<String>)
    ensures
        names_listed(world@, es@, r@),
{
    let mut r: Vec<String> = Vec::new();
    let mut i: usize = 0;
    while i < es.len()
        invariant
            i <= es@.len(),
            r@.len() == i,
            forall|k: int| 0 <= k < i ==> (#[trigger] r@[k])@ == person_name(world@, es@[k]),
        decreases es@.len() - i,
    {
        let name = name_of(world, es[i]);
        r.push(name);
        i = i + 1;
    }
    r
}

/// Stages the two people of the scene: Grabrulenzo without a job and
/// Dionilsonzinete, employed as a doctor. Each spawn is staged only where an
/// identifier is left to reserve.
pub fn setup(commands: &mut Commands<PeopleComponent>)
    requires
        old(commands).wf(),
    ensures
        final(commands).wf(),
        final(commands).base == old(commands).base,
        old(commands).base + old(commands).spawned + 2 <= u32::MAX ==> {
            let q = final(commands).queue@;
            &&& q.len() == old(commands).queue@.len() + 2
            &&& q.take(old(commands).queue@.len() as int) == old(commands).queue@
            &&& spawns_person(q[q.len() - 2], "Grabrulenzo"@, None)
            &&& spawns_person(q[q.len() - 1], "Dionilsonzinete"@, Some(Job::Doctor))
        },
{
    let first = vec![(PERSON, PeopleComponent::Person(Person { name: "Grabrulenzo".to_string() }))];
    let second = vec![
        (PERSON, PeopleComponent::Person(Person { name: "Dionilsonzinete".to_string() })),
        (EMPLOYED, PeopleComponent::Employed(Employed { job: Job::Doctor })),
    ];
    let ghost q0 = commands.queue@;
    let _ = commands.spawn(first);
    let _ = commands.spawn(second);
    proof {
        if old(commands).base + old(commands).spawned + 2 <= u32::MAX {
            let q = commands.queue@;
            assert(q.take(q0.len() as int) =~= q0);
        }
    }
}

/// The names of all people.
pub fn print_names(world: &World<PeopleComponent>) -> (r: Vec<String>)
    requires
        world.wf(),
    ensures
        exists|es: Seq<Entity>| selection(world@, |k: Set<u32>| k.contains(PERSON), es) && names_listed(world@, es, r@),
{
    let q = Query::new().read(PERSON);
    let es = world.query(&q);
    assert(forall|k: Set<u32>| accepts(q, k) == k.contains(PERSON)) by {
        assert forall|k: Set<u32>| accepts(q, k) == k.contains(PERSON) by {
            if k.contains(PERSON) {
                assert(forall|i: int| 0 <= i < q.required@.len() ==> q.required@[i] == PERSON);
            } else {
                assert(q.required@[0] == PERSON);
            }
        }
    }
    let r = names_of(world, &es);
    assert(selection(world@, |k: Set<u32>| k.contains(PERSON), es@));
    r
}

/// The names of the people that have a job.
pub fn i_have_a_job(world: &World<PeopleComponent>) -> (r: Vec<String>)
    requires
        world.wf(),
    ensures
        exists|es: Seq<Entity>|
            selection(world@, |k: Set<u32>| k.contains(PERSON) && k.contains(EMPLOYED), es)
                && names_listed(world@, es, r@),
{
    let q = Query::new().read(PERSON).with(EMPLOYED);
    let es = world.query(&q);
    assert forall|k: Set<u32>| accepts(q, k) == (k.contains(PERSON) && k.contains(EMPLOYED)) by {
        assert(q.required@[0] == PERSON);
        assert(q.with@[0] == EMPLOYED);
    }
    let r = names_of(world, &es);
    assert(selection(world@, |k: Set<u32>| k.contains(PERSON) && k.contains(EMPLOYED), es@));
    r
}

/// The names of the people that have no job.
pub fn they_took_our_jobs(world: &World<PeopleComponent>) -> (r: Vec<String>)
    requires
        world.wf(),
    ensures
        exists|es: Seq<Entity>|
            selection(world@, |k: Set<u32>| k.contains(PERSON) && !k.contains(EMPLOYED), es)
                && names_listed(world@, es, r@),
{
    let q = Query::new().read(PERSON).without(EMPLOYED);
    let es = world.query(&q);
    assert forall|k: Set<u32>| accepts(q, k) == (k.contains(PERSON) && !k.contains(EMPLOYED)) by {
        assert(q.required@[0] == PERSON);
        assert(q.without@[0] == EMPLOYED);
    }
    let r = names_of(world, &es);
    assert(selection(world@, |k: Set<u32>| k.contains(PERSON) && !k.contains(EMPLOYED), es@));
    r
}

/// Each employed person's name with the job.
pub fn person_is_(world: &World<PeopleComponent>) -> (r: Vec<(String, Job)>)
    requires
        world.wf(),
    ensures
        exists|es: Seq<Entity>|
            selection(world@, |k: Set<u32>| k.contains(PERSON) && k.contains(EMPLOYED), es)
                && jobs_listed(world@, es, r@),
{
    let q = Query::new().read(PERSON).read(EMPLOYED);
    let es = world.query(&q);
    assert forall|k: Set<u32>| accepts(q, k) == (k.contains(PERSON) && k.contains(EMPLOYED)) by {
        assert(q.required@[0] == PERSON);
        assert(q.required@[1] == EMPLOYED);
        if k.contains(PERSON) && k.contains(EMPLOYED) {
            assert forall|i: int| 0 <= i < q.required@.len() implies k.contains(#[trigger] q.required@[i]) by {
                assert(i == 0 || i == 1);
            }
        }
    }
    let mut r: Vec<(String, Job)> = Vec::new();
    let mut i: usize = 0;
    while i < es.len()
        invariant
            i <= es@.len(),
            r@.len() == i,
            forall|k: int| 0 <= k < i ==>
                (#[trigger] r@[k]).0@ == person_name(world@, es@[k]) && r@[k].1 == person_job(world@, es@[k]),
        decreases es@.len() - i,
    {
        let name = name_of(world, es[i]);
        let job = job_of(world, es[i]);
        r.push((name, job));
        i = i + 1;
    }
    assert(selection(world@, |k: Set<u32>| k.contains(PERSON) && k.contains(EMPLOYED), es@));
    assert(jobs_listed(world@, es@, r@));
    r
}

impl PeoplePluging {
    /// The scene's systems in registration order: `setup` at startup, then
    /// `print_names`, `i_have_a_job`, `they_took_our_jobs` and `person_is_`
    /// in every frame, all of them reading only.
    pub fn build(&self) -> (r: Vec<SystemDecl>)
        ensures
            r@.len() == 5,
            r@[0].phase == Phase::Startup,
            r@[0].access@ == Seq::<Access>::empty(),
            r@[1].phase == Phase::Frame,
            r@[1].access@ == seq![Access { target: PERSON, exclusive: false }],
            forall|i: int| 2 <= i < 5 ==> (#[trigger] r@[i]).phase == Phase::Frame && r@[i].access@ == seq![
                Access { target: PERSON, exclusive: false },
                Access { target: EMPLOYED, exclusive: false },
            ],
    {
        let mut r: Vec<SystemDecl> = Vec::new();
        r.push(SystemDecl { phase: Phase::Startup, access: Vec::new() });
        r.push(SystemDecl { phase: Phase::Frame, access: vec![Access { target: PERSON, exclusive: false }] });
        let mut i: usize = 0;
        while i < 3
            invariant
                i <= 3,
                r@.len() == 2 + i,
                r@[0].phase == Phase::Startup,
                r@[0].access@ == Seq::<Access>::empty(),
                r@[1].phase == Phase::Frame,
                r@[1].access@ == seq![Access { target: PERSON, exclusive: false }],
                forall|k: int| 2 <= k < 2 + i ==> (#[trigger] r@[k]).phase == Phase::Frame && r@[k].access@ == seq![
                    Access { target: PERSON, exclusive: false },
                    Access { target: EMPLOYED, exclusive: false },
                ],
            decreases 3 - i,
        {
            let access = vec![
                Access { target: PERSON, exclusive: false },
                Access { target: EMPLOYED, exclusive: false },
            ];
            r.push(SystemDecl { phase: Phase::Frame, access });
            i = i + 1;
        }
        r
    }
}

} // verus!
