//! The scheduler and the simulation instance: an ordered list of systems
//! executed once per tick against one world and resource store, with the
//! structural mutations queued during the pass applied atomically at its
//! end.

use vstd::prelude::*;
use crate::geometry::Vec2;
use crate::world::{
    spec_remove_id, lemma_remove_id, DeferredCommand, FrameLog, Kinematics, ParkingManagement,
    RandProvider, RenderStats, ResModel, Resources, Transform, World, WorldModel,
};
use crate::time::GameTime;

verus! {

/// Seed of the random-number resource of a fresh simulation instance.
pub const RNG_SEED: u64 = 123;

/// Declares `std::time::Instant`, the opaque wall-clock anchor used only
/// to measure how long a scheduler pass took.
#[verifier::external_type_specification]
#[verifier::external_body]
pub struct ExInstant(std::time::Instant);

/// Relies on `Instant::now`: an opaque point in time; nothing is promised
/// of it.
pub assume_specification[ std::time::Instant::now ]() -> std::time::Instant;

/// Relies on `Instant::elapsed`: the wall-clock duration since `start`.
/// Nothing is promised of the value; callers state what holds of every
/// outcome.
#[verifier::external_body]
fn elapsed_ms(start: &std::time::Instant) -> u64 {
    start.elapsed().as_millis() as u64
}

/// What one system does to the state it may write: the component tables,
/// the random-number resource, appended log lines, and the structural
/// changes it queues.
pub struct SystemOutput {
    pub transforms: Map<u64, Transform>,
    pub kinematics: Map<u64, Kinematics>,
    pub rand: Option<RandProvider>,
    pub log_lines: Seq<String>,
    pub emitted: Seq<DeferredCommand>,
}

/// Lines appended to the frame log, where one is present.
pub open spec fn spec_append_log(l: Option<Seq<String>>, lines: Seq<String>) -> Option<
    Seq<String>,
> {
    match l {
        Option::Some(s) => Option::Some(s + lines),
        Option::None => Option::None,
    }
}

/// A system of the schedule. Its executable `run` is pinned to its own
/// specification, so a verified system is a function of the world and
/// resource state it reads: two runs from equal states produce equal
/// effects. A system never changes the entity set itself; structural
/// changes go through the command buffer it appends to.
pub trait System: Sized {
    /// What this system computes from the state it observes.
    spec fn spec_run(self, w: WorldModel, r: ResModel) -> SystemOutput;

    fn run(&self, world: &mut World, res: &mut Resources)
        requires
            old(world)@.wf(),
        ensures
            final(world)@.alive == old(world)@.alive,
            final(world)@.next_id == old(world)@.next_id,
            final(world)@.transforms == self.spec_run(old(world)@, old(res)@).transforms,
            final(world)@.kinematics == self.spec_run(old(world)@, old(res)@).kinematics,
            final(world)@.wf(),
            final(res)@.time == old(res)@.time,
            final(res)@.render_stats == old(res)@.render_stats,
            final(res)@.parking == old(res)@.parking,
            final(res)@.rand == self.spec_run(old(world)@, old(res)@).rand,
            final(res)@.frame_log == spec_append_log(
                old(res)@.frame_log,
                self.spec_run(old(world)@, old(res)@).log_lines,
            ),
            final(res)@.commands == old(res)@.commands + self.spec_run(
                old(world)@,
                old(res)@,
            ).emitted,
    ;
}

/// The state after one system ran.
pub open spec fn spec_step<S: System>(s: S, w: WorldModel, r: ResModel) -> (WorldModel, ResModel) {
    let out = s.spec_run(w, r);
    (
        WorldModel { transforms: out.transforms, kinematics: out.kinematics, ..w },
        ResModel {
            rand: out.rand,
            frame_log: spec_append_log(r.frame_log, out.log_lines),
            commands: r.commands + out.emitted,
            ..r
        },
    )
}

/// The state after the whole ordered list of systems ran, first to last.
pub open spec fn spec_run_systems<S: System>(systems: Seq<S>, w: WorldModel, r: ResModel) -> (
    WorldModel,
    ResModel,
)
    decreases systems.len(),
{
    if systems.len() == 0 {
        (w, r)
    } else {
        let (w1, r1) = spec_step(systems[0], w, r);
        spec_run_systems(systems.drop_first(), w1, r1)
    }
}

/// Running systems never touches the entity set, the clock, the stats or
/// the parking resource, and only appends to the command buffer.
pub proof fn lemma_run_systems_frame<S: System>(systems: Seq<S>, w: WorldModel, r: ResModel)
    ensures
        spec_run_systems(systems, w, r).0.alive == w.alive,
        spec_run_systems(systems, w, r).0.next_id == w.next_id,
        spec_run_systems(systems, w, r).1.time == r.time,
        spec_run_systems(systems, w, r).1.render_stats == r.render_stats,
        spec_run_systems(systems, w, r).1.parking == r.parking,
        r.commands.is_prefix_of(spec_run_systems(systems, w, r).1.commands),
    decreases systems.len(),
{
    if systems.len() == 0 {
        assert(r.commands.is_prefix_of(r.commands));
    } else {
        let (w1, r1) = spec_step(systems[0], w, r);
        lemma_run_systems_frame(systems.drop_first(), w1, r1);
        assert(r.commands.is_prefix_of(r1.commands));
        let rn = spec_run_systems(systems.drop_first(), w1, r1).1;
        assert(r1.commands.is_prefix_of(rn.commands));
        assert(r.commands.is_prefix_of(rn.commands));
    }
}

/// The world after one queued structural change.
pub open spec fn spec_apply_one(w: WorldModel, c: DeferredCommand) -> WorldModel {
    match c {
        DeferredCommand::Kill(e) => WorldModel {
            alive: spec_remove_id(w.alive, e),
            transforms: w.transforms.remove(e),
            kinematics: w.kinematics.remove(e),
            ..w
        },
        DeferredCommand::Spawn(t, k) => {
            if w.next_id < u64::MAX {
                WorldModel {
                    next_id: (w.next_id + 1) as u64,
                    alive: w.alive.push(w.next_id),
                    transforms: if t is Some {
                        w.transforms.insert(w.next_id, t->Some_0)
                    } else {
                        w.transforms
                    },
                    kinematics: if k is Some {
                        w.kinematics.insert(w.next_id, k->Some_0)
                    } else {
                        w.kinematics
                    },
                }
            } else {
                w
            }
        },
    }
}

/// The world after the queued structural changes were applied in order.
pub open spec fn spec_apply(w: WorldModel, cmds: Seq<DeferredCommand>) -> WorldModel
    decreases cmds.len(),
{
    if cmds.len() == 0 {
        w
    } else {
        spec_apply(spec_apply_one(w, cmds[0]), cmds.drop_first())
    }
}

/// An ordered list of systems, executed strictly in registration order.
pub struct SeqSchedule<S: System> {
    pub systems: Vec<S>,
}

impl<S: System> SeqSchedule<S> {
    pub fn new() -> (r: SeqSchedule<S>)
        ensures
            r.systems@.len() == 0,
    {
        SeqSchedule { systems: Vec::new() }
    }

    /// Registers one more system at the end of the order.
    pub fn add_system(&mut self, s: S)
        ensures
            final(self).systems@ == old(self).systems@.push(s),
    {
        self.systems.push(s);
    }

    /// Executes every system once, in registration order; later systems
    /// observe the effects of earlier ones.
    pub fn execute(&self, world: &mut World, res: &mut Resources)
        requires
            old(world)@.wf(),
        ensures
            (final(world)@, final(res)@) == spec_run_systems(
                self.systems@,
                old(world)@,
                old(res)@,
            ),
            final(world)@.wf(),
    {
        let n: usize = self.systems.len();
        proof {
            assert(self.systems@.skip(0) =~= self.systems@);
        }
        let mut i: usize = 0;
        while i < n
            invariant
                i <= n,
                n == self.systems@.len(),
                world@.wf(),
                spec_run_systems(self.systems@.skip(i as int), world@, res@) == spec_run_systems(
                    self.systems@,
                    old(world)@,
                    old(res)@,
                ),
            decreases n - i,
        {
            proof {
                assert(self.systems@.skip(i as int)[0] == self.systems@[i as int]);
            }
            let ghost pre = (world@, res@);
            self.systems[i].run(world, res);
            proof {
                assert((world@, res@) =~= spec_step(self.systems@[i as int], pre.0, pre.1));
                assert(self.systems@.skip(i as int).drop_first() =~= self.systems@.skip(i + 1));
            }
            i = i + 1;
        }
        proof {
            assert(self.systems@.skip(n as int) =~= Seq::<S>::empty());
        }
    }
}

/// Applies the queued structural changes atomically, after all systems of
/// the tick have run.
pub fn apply_deferred(world: &mut World, res: &mut Resources)
    requires
        old(world)@.wf(),
    ensures
        final(world)@ == spec_apply(old(world)@, old(res)@.commands),
        final(world)@.wf(),
        final(res)@.commands == Seq::<DeferredCommand>::empty(),
        final(res)@.time == old(res)@.time,
        final(res)@.rand == old(res)@.rand,
        final(res)@.frame_log == old(res)@.frame_log,
        final(res)@.render_stats == old(res)@.render_stats,
        final(res)@.parking == old(res)@.parking,
{
    let cmds: Vec<DeferredCommand> = res.take_commands();
    let n: usize = cmds.len();
    proof {
        assert(cmds@.skip(0) =~= cmds@);
    }
    let mut i: usize = 0;
    while i < n
        invariant
            i <= n,
            n == cmds@.len(),
            world@.wf(),
            spec_apply(world@, cmds@.skip(i as int)) == spec_apply(old(world)@, cmds@),
        decreases n - i,
    {
        proof {
            assert(cmds@.skip(i as int)[0] == cmds@[i as int]);
        }
        let ghost pre = world@;
        match cmds[i] {
            DeferredCommand::Kill(e) => {
                world.despawn_now(e);
            },
            DeferredCommand::Spawn(t, k) => {
                if world.next_id < u64::MAX {
                    world.spawn(t, k);
                }
            },
        }
        proof {
            assert(world@ =~= spec_apply_one(pre, cmds@[i as int]));
            assert(cmds@.skip(i as int).drop_first() =~= cmds@.skip(i + 1));
        }
        i = i + 1;
    }
    proof {
        assert(cmds@.skip(n as int) =~= Seq::<DeferredCommand>::empty());
    }
}

/// One whole tick over the mathematical state: the frame log is cleared,
/// the systems run in order, and the queued structural changes are
/// applied. The duration accumulated into the stats resource is the one
/// part of a tick the clock decides, so it is left out here and bounded
/// separately in `run`'s contract.
pub open spec fn spec_tick<S: System>(systems: Seq<S>, w: WorldModel, r: ResModel) -> (
    WorldModel,
    ResModel,
) {
    let cleared = ResModel { frame_log: Option::Some(Seq::<String>::empty()), ..r };
    let (w2, r2) = spec_run_systems(systems, w, cleared);
    (spec_apply(w2, r2.commands), ResModel { commands: Seq::<DeferredCommand>::empty(), ..r2 })
}

/// The simulation instance: one world, one resource store, and the
/// schedule that advances them tick by tick.
pub struct Egregoria<S: System> {
    pub world: World,
    pub schedule: SeqSchedule<S>,
    pub resources: Resources,
}

impl<S: System> Egregoria<S> {
    /// A fresh instance: empty world, empty schedule, and the basic
    /// resources inserted with their documented defaults. Resources are
    /// scoped to this instance; a second instance shares nothing with it.
    pub fn init() -> (r: Egregoria<S>)
        ensures
            r.world@.wf(),
            r.world@.alive.len() == 0,
            r.world@.next_id == 0,
            r.world@.transforms.len() == 0,
            r.world@.kinematics.len() == 0,
            r.schedule.systems@.len() == 0,
            r.resources@.time == Option::Some(GameTime {
                timestamp: 0,
                delta: 0,
                seconds: 0,
                daytime: crate::time::daytime_of(0),
            }),
            r.resources@.rand == Option::Some(RandProvider { state: RNG_SEED }),
            r.resources@.frame_log == Option::Some(Seq::<String>::empty()),
            r.resources@.render_stats == Option::Some(RenderStats {
                world_update_ms_total: 0,
                frames: 0,
            }),
            r.resources@.parking == Option::Some(Seq::<u64>::empty()),
            r.resources@.commands == Seq::<DeferredCommand>::empty(),
    {
        let mut resources = Resources::new();
        resources.insert_time(GameTime::new(0, 0));
        resources.insert_rand(RandProvider::new(RNG_SEED));
        resources.insert_frame_log(FrameLog { lines: Vec::new() });
        resources.insert_render_stats(RenderStats { world_update_ms_total: 0, frames: 0 });
        resources.insert_parking(ParkingManagement { reserved: Vec::new() });
        Egregoria { world: World::new(), schedule: SeqSchedule::new(), resources }
    }

    /// The position of an entity, if it has one.
    pub fn pos(&self, e: u64) -> (r: Option<Vec2>)
        ensures
            self.world@.transforms.dom().contains(e) ==> r == Option::Some(
                self.world@.transforms[e].position,
            ),
            !self.world@.transforms.dom().contains(e) ==> r is None,
    {
        self.world.pos(e)
    }

    /// Runs one tick: clears the frame log, executes every system in
    /// registration order, applies the queued structural changes, and
    /// accumulates the pass duration into the stats resource. The tick
    /// holds the instance exclusively, so no pass can overlap or re-enter
    /// another.
    pub fn run(&mut self)
        requires
            old(self).world@.wf(),
            old(self).resources@.frame_log is Some,
            old(self).resources@.render_stats is Some,
        ensures
            final(self).schedule == old(self).schedule,
            final(self).world@ == spec_tick(
                old(self).schedule.systems@,
                old(self).world@,
                old(self).resources@,
            ).0,
            final(self).world@.wf(),
            ({
                let r2 = spec_tick(
                    old(self).schedule.systems@,
                    old(self).world@,
                    old(self).resources@,
                ).1;
                &&& final(self).resources@.time == r2.time
                &&& final(self).resources@.rand == r2.rand
                &&& final(self).resources@.frame_log == r2.frame_log
                &&& final(self).resources@.parking == r2.parking
                &&& final(self).resources@.commands == r2.commands
                &&& final(self).resources@.render_stats is Some
                &&& final(self).resources@.render_stats->Some_0.frames
                    >= r2.render_stats->Some_0.frames
            }),
    {
        self.resources.clear_frame_log();
        proof {
            assert(self.resources@ =~= (ResModel {
                frame_log: Option::Some(Seq::<String>::empty()),
                ..old(self).resources@
            }));
        }
        let t0: std::time::Instant = std::time::Instant::now();
        self.schedule.execute(&mut self.world, &mut self.resources);
        apply_deferred(&mut self.world, &mut self.resources);
        let ms: u64 = elapsed_ms(&t0);
        proof {
            lemma_run_systems_frame(
                old(self).schedule.systems@,
                old(self).world@,
                ResModel {
                    frame_log: Option::Some(Seq::<String>::empty()),
                    ..old(self).resources@
                },
            );
        }
        let stats: &mut RenderStats = self.resources.write_render_stats();
        stats.add_value(ms);
        proof {
            let r2 = spec_tick(
                old(self).schedule.systems@,
                old(self).world@,
                old(self).resources@,
            ).1;
            assert(self.resources@.time == r2.time);
            assert(self.resources@.commands =~= r2.commands);
        }
    }
}

/// Scheduler determinism: a tick is a function of the schedule, the world
/// and the resources alone. Two instances in the same state, with the
/// random-number resource seeded identically, end a tick in the same
/// state; `run`'s contract pins the executed tick to this function of its
/// starting state.
pub proof fn lemma_tick_deterministic<S: System>(
    systems: Seq<S>,
    w1: WorldModel,
    r1: ResModel,
    w2: WorldModel,
    r2: ResModel,
)
    requires
        w1 == w2,
        r1 == r2,
    ensures
        spec_tick(systems, w1, r1) == spec_tick(systems, w2, r2),
{
}

/// Deferred deletion: an entity marked for deletion during a tick stays
/// visible to every later system of the same tick, and is gone, with its
/// components, once the tick's deferred changes are applied.
pub proof fn lemma_deferred_deletion<S: System>(
    systems: Seq<S>,
    w: WorldModel,
    r: ResModel,
    e: u64,
)
    requires
        w.wf(),
        w.alive.contains(e),
        spec_run_systems(systems, w, r).1.commands.contains(DeferredCommand::Kill(e)),
    ensures
        spec_run_systems(systems, w, r).0.alive == w.alive,
        !spec_tick_world_after_systems(systems, w, r).alive.contains(e),
        !spec_tick_world_after_systems(systems, w, r).transforms.dom().contains(e),
        !spec_tick_world_after_systems(systems, w, r).kinematics.dom().contains(e),
{
    lemma_run_systems_frame(systems, w, r);
    let (w2, r2) = spec_run_systems(systems, w, r);
    assert(e < w2.next_id) by {
        let p = choose|p: int| 0 <= p < w.alive.len() && w.alive[p] == e;
    }
    lemma_kill_applied(w2, r2.commands, e);
}

/// The world right after a tick's systems and deferred apply, when the
/// systems run against the resource state `r` as it stands.
pub open spec fn spec_tick_world_after_systems<S: System>(
    systems: Seq<S>,
    w: WorldModel,
    r: ResModel,
) -> WorldModel {
    let (w2, r2) = spec_run_systems(systems, w, r);
    spec_apply(w2, r2.commands)
}

/// A kill queued among the commands removes the already-issued identity
/// for good: no later command of the same batch can bring it back.
proof fn lemma_kill_applied(w: WorldModel, cmds: Seq<DeferredCommand>, e: u64)
    requires
        e < w.next_id,
        cmds.contains(DeferredCommand::Kill(e)),
    ensures
        !spec_apply(w, cmds).alive.contains(e),
        !spec_apply(w, cmds).transforms.dom().contains(e),
        !spec_apply(w, cmds).kinematics.dom().contains(e),
    decreases cmds.len(),
{
    let w1 = spec_apply_one(w, cmds[0]);
    assert(e < w1.next_id);
    if cmds[0] == DeferredCommand::Kill(e) {
        lemma_remove_id(w.alive, e);
        if cmds.drop_first().contains(DeferredCommand::Kill(e)) {
            lemma_kill_applied(w1, cmds.drop_first(), e);
        } else {
            lemma_dead_stays_dead(w1, cmds.drop_first(), e);
        }
    } else {
        let i = choose|i: int| 0 <= i < cmds.len() && cmds[i] == DeferredCommand::Kill(e);
        assert(cmds.drop_first()[i - 1] == DeferredCommand::Kill(e));
        assert(cmds.drop_first().contains(DeferredCommand::Kill(e)));
        lemma_kill_applied(w1, cmds.drop_first(), e);
    }
}

/// An identity that is dead and already issued never comes back: spawns
/// only ever use fresh identities.
proof fn lemma_dead_stays_dead(w: WorldModel, cmds: Seq<DeferredCommand>, e: u64)
    requires
        !w.alive.contains(e),
        !w.transforms.dom().contains(e),
        !w.kinematics.dom().contains(e),
        e < w.next_id,
    ensures
        !spec_apply(w, cmds).alive.contains(e),
        !spec_apply(w, cmds).transforms.dom().contains(e),
        !spec_apply(w, cmds).kinematics.dom().contains(e),
    decreases cmds.len(),
{
    if cmds.len() > 0 {
        let w1 = spec_apply_one(w, cmds[0]);
        match cmds[0] {
            DeferredCommand::Kill(x) => {
                lemma_remove_id(w.alive, x);
                if x != e && w1.alive.contains(e) {
                    assert(w.alive.contains(e));
                }
            },
            DeferredCommand::Spawn(t, k) => {
                if w.next_id < u64::MAX {
                    if w1.alive.contains(e) {
                        let p = choose|p: int| 0 <= p < w1.alive.len() && w1.alive[p] == e;
                        if p < w.alive.len() {
                            assert(w.alive.contains(e));
                        }
                    }
                }
            },
        }
        lemma_dead_stays_dead(w1, cmds.drop_first(), e);
    }
}

/// Whether a position can take a velocity step without leaving the
/// coordinate type.
pub open spec fn spec_can_move(p: Vec2, v: Vec2) -> bool {
    &&& i64::MIN <= p.x + v.x <= i64::MAX
    &&& i64::MIN <= p.y + v.y <= i64::MAX
}

/// One kinematic step of a single entity; a step that would leave the
/// coordinate type leaves the position unchanged.
pub open spec fn spec_moved(t: Transform, k: Kinematics) -> Transform {
    if spec_can_move(t.position, k.velocity) {
        Transform {
            position: Vec2 {
                x: (t.position.x + k.velocity.x) as i64,
                y: (t.position.y + k.velocity.y) as i64,
            },
        }
    } else {
        t
    }
}

/// The position table after every listed entity with both components took
/// one kinematic step.
pub open spec fn spec_integrate_all(
    alive: Seq<u64>,
    ts: Map<u64, Transform>,
    ks: Map<u64, Kinematics>,
) -> Map<u64, Transform>
    decreases alive.len(),
{
    if alive.len() == 0 {
        ts
    } else {
        let prev = spec_integrate_all(alive.drop_last(), ts, ks);
        let e = alive.last();
        if ts.dom().contains(e) && ks.dom().contains(e) {
            prev.insert(e, spec_moved(ts[e], ks[e]))
        } else {
            prev
        }
    }
}

/// Entities not listed keep their entry untouched.
proof fn lemma_integrate_untouched(
    alive: Seq<u64>,
    ts: Map<u64, Transform>,
    ks: Map<u64, Kinematics>,
    e: u64,
)
    requires
        !alive.contains(e),
    ensures
        spec_integrate_all(alive, ts, ks).dom().contains(e) == ts.dom().contains(e),
        ts.dom().contains(e) ==> spec_integrate_all(alive, ts, ks)[e] == ts[e],
    decreases alive.len(),
{
    if alive.len() > 0 {
        assert(alive.contains(alive.last())) by {
            assert(alive[alive.len() - 1] == alive.last());
        }
        assert(!alive.drop_last().contains(e)) by {
            if alive.drop_last().contains(e) {
                let p = choose|p: int|
                    0 <= p < alive.drop_last().len() && alive.drop_last()[p] == e;
                assert(alive[p] == e);
            }
        }
        lemma_integrate_untouched(alive.drop_last(), ts, ks, e);
    }
}

/// Integration attaches no component to an entity outside the list.
proof fn lemma_integrate_dom(alive: Seq<u64>, ts: Map<u64, Transform>, ks: Map<u64, Kinematics>)
    ensures
        forall|x: u64|
            #[trigger] spec_integrate_all(alive, ts, ks).dom().contains(x) ==> ts.dom().contains(
                x,
            ) || alive.contains(x),
    decreases alive.len(),
{
    if alive.len() > 0 {
        lemma_integrate_dom(alive.drop_last(), ts, ks);
        assert(alive.contains(alive.last())) by {
            assert(alive[alive.len() - 1] == alive.last());
        }
        assert forall|x: u64| #[trigger] spec_integrate_all(alive, ts, ks).dom().contains(x)
            implies ts.dom().contains(x) || alive.contains(x) by {
            if x != alive.last() {
                if spec_integrate_all(alive.drop_last(), ts, ks).dom().contains(x) {
                    if alive.drop_last().contains(x) {
                        let p = choose|p: int|
                            0 <= p < alive.drop_last().len() && alive.drop_last()[p] == x;
                        assert(alive[p] == x);
                    }
                }
            }
        }
    }
}

/// The kinematics system: applies each live entity's velocity to its
/// position, in entity creation order. It writes no resource and queues
/// nothing.
pub struct KinematicsApply {}

impl System for KinematicsApply {
    open spec fn spec_run(self, w: WorldModel, r: ResModel) -> SystemOutput {
        SystemOutput {
            transforms: spec_integrate_all(w.alive, w.transforms, w.kinematics),
            kinematics: w.kinematics,
            rand: r.rand,
            log_lines: Seq::<String>::empty(),
            emitted: Seq::<DeferredCommand>::empty(),
        }
    }

    fn run(&self, world: &mut World, res: &mut Resources) {
        let n: usize = world.n_entities();
        proof {
            assert(old(world)@.alive.subrange(0, 0) =~= Seq::<u64>::empty());
        }
        let mut i: usize = 0;
        while i < n
            invariant
                i <= n,
                n == world@.alive.len(),
                old(world)@.wf(),
                world@.alive == old(world)@.alive,
                world@.next_id == old(world)@.next_id,
                world@.kinematics == old(world)@.kinematics,
                world@.transforms == spec_integrate_all(
                    old(world)@.alive.subrange(0, i as int),
                    old(world)@.transforms,
                    old(world)@.kinematics,
                ),
            decreases n - i,
        {
            let ghost pre = world@.transforms;
            let ghost prefix = old(world)@.alive.subrange(0, i as int);
            let e: u64 = world.entity_at(i);
            proof {
                assert(old(world)@.alive[i as int] == e);
                assert(!prefix.contains(e)) by {
                    if prefix.contains(e) {
                        let m = choose|m: int| 0 <= m < prefix.len() && prefix[m] == e;
                        assert(old(world)@.alive[m] == e);
                    }
                }
                lemma_integrate_untouched(
                    prefix,
                    old(world)@.transforms,
                    old(world)@.kinematics,
                    e,
                );
                assert(old(world)@.alive.subrange(0, i + 1).drop_last() =~= prefix);
                assert(old(world)@.alive.subrange(0, i + 1).last() == e);
            }
            let kv: Option<Kinematics> = match world.comp_kinematics(e) {
                Option::Some(k) => Option::Some(*k),
                Option::None => Option::None,
            };
            let tv: Option<Transform> = match world.comp_transform(e) {
                Option::Some(t) => Option::Some(*t),
                Option::None => Option::None,
            };
            match (tv, kv) {
                (Option::Some(t), Option::Some(k)) => {
                    let can_x: bool = if k.velocity.x >= 0 {
                        t.position.x <= i64::MAX - k.velocity.x
                    } else {
                        t.position.x >= i64::MIN - k.velocity.x
                    };
                    let can_y: bool = if k.velocity.y >= 0 {
                        t.position.y <= i64::MAX - k.velocity.y
                    } else {
                        t.position.y >= i64::MIN - k.velocity.y
                    };
                    let moved: Transform = if can_x && can_y {
                        Transform {
                            position: Vec2 {
                                x: t.position.x + k.velocity.x,
                                y: t.position.y + k.velocity.y,
                            },
                        }
                    } else {
                        t
                    };
                    proof {
                        assert(world@.alive.contains(e)) by {
                            assert(world@.alive[i as int] == e);
                        }
                        assert(moved == spec_moved(
                            old(world)@.transforms[e],
                            old(world)@.kinematics[e],
                        ));
                    }
                    world.set_transform(e, moved);
                },
                _ => {
                    proof {
                        assert(world@.transforms =~= spec_integrate_all(
                            old(world)@.alive.subrange(0, i + 1),
                            old(world)@.transforms,
                            old(world)@.kinematics,
                        ));
                    }
                },
            }
            i = i + 1;
        }
        proof {
            assert(old(world)@.alive.subrange(0, n as int) =~= old(world)@.alive);
            lemma_integrate_dom(old(world)@.alive, old(world)@.transforms, old(world)@.kinematics);
            assert forall|x: u64| #[trigger] world@.transforms.dom().contains(x)
                implies world@.alive.contains(x) by {
                if old(world)@.transforms.dom().contains(x) {
                    assert(old(world)@.alive.contains(x));
                }
            }
            assert(res@.commands =~= old(res)@.commands + self.spec_run(
                old(world)@,
                old(res)@,
            ).emitted);
            assert(res@.frame_log == spec_append_log(
                old(res)@.frame_log,
                self.spec_run(old(world)@, old(res)@).log_lines,
            )) by {
                match old(res)@.frame_log {
                    Option::Some(s) => {
                        assert(s + Seq::<String>::empty() =~= s);
                    },
                    Option::None => {},
                }
            }
        }
    }
}

} // verus!
