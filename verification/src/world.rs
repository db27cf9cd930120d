//! The entity/resource world: entities with their attached components,
//! addressed by stable identities, and the singleton shared resources of
//! one simulation instance.

use vstd::prelude::*;
use std::collections::HashMap;
use crate::geometry::Vec2;
use crate::time::GameTime;

verus! {

broadcast use vstd::std_specs::hash::group_hash_axioms;

/// Position of an entity in the world.
#[derive(Debug, PartialEq, Eq, Copy, Clone, Structural)]
pub struct Transform {
    pub position: Vec2,
}

/// Kinematic state of an entity: the velocity applied each tick.
#[derive(Debug, PartialEq, Eq, Copy, Clone, Structural)]
pub struct Kinematics {
    pub velocity: Vec2,
}

/// The mathematical state of a `World`.
pub struct WorldModel {
    pub next_id: u64,
    pub alive: Seq<u64>,
    pub transforms: Map<u64, Transform>,
    pub kinematics: Map<u64, Kinematics>,
}

impl WorldModel {
    /// Identities are issued below `next_id`, listed once, and components
    /// are attached only to live entities.
    pub open spec fn wf(self) -> bool {
        &&& forall|i: int| 0 <= i < self.alive.len() ==> #[trigger] self.alive[i] < self.next_id
        &&& forall|i: int, j: int| 0 <= i < j < self.alive.len() ==> self.alive[i] != self.alive[j]
        &&& forall|e: u64| #[trigger] self.transforms.dom().contains(e) ==> self.alive.contains(e)
        &&& forall|e: u64| #[trigger] self.kinematics.dom().contains(e) ==> self.alive.contains(e)
    }
}

/// Holds all simulated entities and their components. Entities are created
/// and destroyed only through this table, and mid-tick destruction goes
/// through the deferred command buffer.
pub struct World {
    pub next_id: u64,
    pub alive: Vec<u64>,
    pub transforms: HashMap<u64, Transform>,
    pub kinematics: HashMap<u64, Kinematics>,
}

impl View for World {
    type V = WorldModel;

    open spec fn view(&self) -> WorldModel {
        WorldModel {
            next_id: self.next_id,
            alive: self.alive@,
            transforms: self.transforms@,
            kinematics: self.kinematics@,
        }
    }
}

impl World {
    pub fn new() -> (r: World)
        ensures
            r@.next_id == 0,
            r@.alive.len() == 0,
            r@.transforms.len() == 0,
            r@.kinematics.len() == 0,
            r@.wf(),
    {
        World {
            next_id: 0,
            alive: Vec::new(),
            transforms: HashMap::new(),
            kinematics: HashMap::new(),
        }
    }

    /// Creates an entity with the given components attached, returning its
    /// identity.
    pub fn spawn(&mut self, t: Option<Transform>, k: Option<Kinematics>) -> (e: u64)
        requires
            old(self)@.wf(),
            old(self)@.next_id < u64::MAX,
        ensures
            e == old(self)@.next_id,
            final(self)@.next_id == old(self)@.next_id + 1,
            final(self)@.alive == old(self)@.alive.push(e),
            final(self)@.transforms == if t is Some {
                old(self)@.transforms.insert(e, t->Some_0)
            } else {
                old(self)@.transforms
            },
            final(self)@.kinematics == if k is Some {
                old(self)@.kinematics.insert(e, k->Some_0)
            } else {
                old(self)@.kinematics
            },
            final(self)@.wf(),
    {
        let e: u64 = self.next_id;
        self.next_id = self.next_id + 1;
        self.alive.push(e);
        match t {
            Option::Some(v) => {
                self.transforms.insert(e, v);
            },
            Option::None => {},
        }
        match k {
            Option::Some(v) => {
                self.kinematics.insert(e, v);
            },
            Option::None => {},
        }
        proof {
            assert(self@.alive.last() == e);
            assert forall|x: u64| #[trigger] self@.transforms.dom().contains(x)
                implies self@.alive.contains(x) by {
                if x == e {
                    assert(self@.alive[self@.alive.len() - 1] == e);
                } else {
                    assert(old(self)@.transforms.dom().contains(x));
                    let i = choose|i: int|
                        0 <= i < old(self)@.alive.len() && old(self)@.alive[i] == x;
                    assert(self@.alive[i] == x);
                }
            }
            assert forall|x: u64| #[trigger] self@.kinematics.dom().contains(x)
                implies self@.alive.contains(x) by {
                if x == e {
                    assert(self@.alive[self@.alive.len() - 1] == e);
                } else {
                    assert(old(self)@.kinematics.dom().contains(x));
                    let i = choose|i: int|
                        0 <= i < old(self)@.alive.len() && old(self)@.alive[i] == x;
                    assert(self@.alive[i] == x);
                }
            }
        }
        e
    }

    pub fn n_entities(&self) -> (r: usize)
        ensures
            r == self@.alive.len(),
    {
        self.alive.len()
    }

    /// The identity of the `i`-th live entity in creation order.
    pub fn entity_at(&self, i: usize) -> (e: u64)
        requires
            i < self@.alive.len(),
        ensures
            e == self@.alive[i as int],
    {
        self.alive[i]
    }

    pub fn is_alive(&self, e: u64) -> (r: bool)
        ensures
            r == self@.alive.contains(e),
    {
        let n: usize = self.alive.len();
        let mut i: usize = 0;
        while i < n
            invariant
                i <= n,
                n == self@.alive.len(),
                forall|m: int| 0 <= m < i ==> self@.alive[m] != e,
            decreases n - i,
        {
            if self.alive[i] == e {
                return true;
            }
            i = i + 1;
        }
        false
    }

    /// The position component of an entity, if attached.
    pub fn comp_transform(&self, e: u64) -> (r: Option<&Transform>)
        ensures
            match r {
                Option::Some(t) => self@.transforms.dom().contains(e) && *t == self@.transforms[e],
                Option::None => !self@.transforms.dom().contains(e),
            },
    {
        self.transforms.get(&e)
    }

    /// The kinematic component of an entity, if attached.
    pub fn comp_kinematics(&self, e: u64) -> (r: Option<&Kinematics>)
        ensures
            match r {
                Option::Some(k) => self@.kinematics.dom().contains(e) && *k == self@.kinematics[e],
                Option::None => !self@.kinematics.dom().contains(e),
            },
    {
        self.kinematics.get(&e)
    }

    /// The position of an entity, if it has one.
    pub fn pos(&self, e: u64) -> (r: Option<Vec2>)
        ensures
            self@.transforms.dom().contains(e) ==> r == Option::Some(
                self@.transforms[e].position,
            ),
            !self@.transforms.dom().contains(e) ==> r is None,
    {
        match self.comp_transform(e) {
            Option::Some(t) => Option::Some(t.position),
            Option::None => Option::None,
        }
    }

    /// All live entities carrying a position component, in creation order.
    pub fn entities_with_transform(&self) -> (r: Vec<u64>)
        ensures
            r@ == spec_with_transform(self@),
    {
        let n: usize = self.alive.len();
        let mut out: Vec<u64> = Vec::new();
        let mut i: usize = 0;
        while i < n
            invariant
                i <= n,
                n == self@.alive.len(),
                out@ =~= spec_with_transform(
                    WorldModel { alive: self@.alive.subrange(0, i as int), ..self@ },
                ),
            decreases n - i,
        {
            proof {
                reveal(Seq::filter);
                assert(self@.alive.subrange(0, i + 1).drop_last() =~= self@.alive.subrange(
                    0,
                    i as int,
                ));
                assert(self@.alive.subrange(0, i + 1).last() == self@.alive[i as int]);
            }
            let e: u64 = self.alive[i];
            if self.transforms.contains_key(&e) {
                out.push(e);
            }
            i = i + 1;
        }
        proof {
            assert(self@.alive.subrange(0, n as int) =~= self@.alive);
            assert((WorldModel { alive: self@.alive.subrange(0, n as int), ..self@ }) =~= self@);
        }
        out
    }

    /// Attaches or replaces the position component of a live entity.
    pub fn set_transform(&mut self, e: u64, t: Transform)
        requires
            old(self)@.alive.contains(e),
        ensures
            final(self)@.transforms == old(self)@.transforms.insert(e, t),
            final(self)@.kinematics == old(self)@.kinematics,
            final(self)@.alive == old(self)@.alive,
            final(self)@.next_id == old(self)@.next_id,
    {
        self.transforms.insert(e, t);
    }

    /// Attaches or replaces the kinematic component of a live entity.
    pub fn set_kinematics(&mut self, e: u64, k: Kinematics)
        requires
            old(self)@.alive.contains(e),
        ensures
            final(self)@.kinematics == old(self)@.kinematics.insert(e, k),
            final(self)@.transforms == old(self)@.transforms,
            final(self)@.alive == old(self)@.alive,
            final(self)@.next_id == old(self)@.next_id,
    {
        self.kinematics.insert(e, k);
    }
}

/// The live entities of `w` that carry a position component, in creation
/// order.
pub open spec fn spec_with_transform(w: WorldModel) -> Seq<u64> {
    w.alive.filter(|e: u64| w.transforms.dom().contains(e))
}

/// A sequence of identities with every occurrence of `e` removed.
pub open spec fn spec_remove_id(s: Seq<u64>, e: u64) -> Seq<u64> {
    s.filter(|x: u64| x != e)
}

/// What removal keeps: exactly the other identities, in order, without
/// duplicating anything.
pub proof fn lemma_remove_id(s: Seq<u64>, e: u64)
    ensures
        !spec_remove_id(s, e).contains(e),
        forall|x: u64| x != e ==> (spec_remove_id(s, e).contains(x) <==> s.contains(x)),
        forall|i: int|
            0 <= i < spec_remove_id(s, e).len() ==> s.contains(#[trigger] spec_remove_id(s, e)[i]),
        (forall|i: int, j: int| 0 <= i < j < s.len() ==> s[i] != s[j]) ==> (forall|i: int, j: int|
            0 <= i < j < spec_remove_id(s, e).len() ==> spec_remove_id(s, e)[i]
                != spec_remove_id(s, e)[j]),
    decreases s.len(),
{
    reveal(Seq::filter);
    let r = spec_remove_id(s, e);
    if s.len() == 0 {
        assert(r =~= Seq::<u64>::empty());
    } else {
        let s0 = s.drop_last();
        let a = s.last();
        lemma_remove_id(s0, e);
        let r0 = spec_remove_id(s0, e);
        assert(r == if a != e {
            r0.push(a)
        } else {
            r0
        });
        assert forall|x: u64| x != e && s.contains(x) implies r.contains(x) by {
            let i = choose|i: int| 0 <= i < s.len() && s[i] == x;
            if i < s.len() - 1 {
                assert(s0[i] == x);
                assert(s0.contains(x));
                let m = choose|m: int| 0 <= m < r0.len() && r0[m] == x;
                assert(r[m] == x);
            } else {
                assert(a == x);
                assert(r[r.len() - 1] == x);
            }
        }
        assert forall|x: u64| x != e && r.contains(x) implies s.contains(x) by {
            let i = choose|i: int| 0 <= i < r.len() && r[i] == x;
            if i < r0.len() {
                assert(r0.contains(x));
                let m = choose|m: int| 0 <= m < s0.len() && s0[m] == x;
                assert(s[m] == x);
            } else {
                assert(s[s.len() - 1] == x);
            }
        }
        if forall|i: int, j: int| 0 <= i < j < s.len() ==> s[i] != s[j] {
            assert forall|i: int, j: int| 0 <= i < j < s0.len() implies s0[i] != s0[j] by {
                assert(s[i] == s0[i] && s[j] == s0[j]);
            }
            if a != e {
                assert forall|i: int, j: int| 0 <= i < j < r.len() implies r[i] != r[j] by {
                    if j < r0.len() {
                    } else {
                        assert(r[j] == a);
                        assert(s0.contains(r0[i]) || r0[i] == e);
                        if s0.contains(r0[i]) {
                            let m = choose|m: int| 0 <= m < s0.len() && s0[m] == r0[i];
                            assert(s[m] == r0[i] && s[s.len() - 1] == a);
                        }
                    }
                }
            }
        }
    }
}

impl World {
    /// Destroys an entity at once, detaching its components. Mid-tick
    /// destruction must go through the deferred command buffer instead.
    pub fn despawn_now(&mut self, e: u64)
        requires
            old(self)@.wf(),
        ensures
            final(self)@.alive == spec_remove_id(old(self)@.alive, e),
            final(self)@.transforms == old(self)@.transforms.remove(e),
            final(self)@.kinematics == old(self)@.kinematics.remove(e),
            final(self)@.next_id == old(self)@.next_id,
            final(self)@.wf(),
    {
        proof {
            lemma_remove_id(self@.alive, e);
        }
        let n: usize = self.alive.len();
        let mut kept: Vec<u64> = Vec::new();
        let mut i: usize = 0;
        while i < n
            invariant
                i <= n,
                n == self@.alive.len(),
                kept@ =~= spec_remove_id(self@.alive.subrange(0, i as int), e),
            decreases n - i,
        {
            proof {
                reveal(Seq::filter);
                assert(self@.alive.subrange(0, i + 1).drop_last() =~= self@.alive.subrange(
                    0,
                    i as int,
                ));
                assert(self@.alive.subrange(0, i + 1).last() == self@.alive[i as int]);
            }
            let x: u64 = self.alive[i];
            if x != e {
                kept.push(x);
            }
            i = i + 1;
        }
        proof {
            assert(self@.alive.subrange(0, n as int) =~= self@.alive);
            assert(kept@ == spec_remove_id(self@.alive, e));
        }
        self.alive = kept;
        self.transforms.remove(&e);
        self.kinematics.remove(&e);
        proof {
            let m = *self;
            lemma_remove_id(old(self)@.alive, e);
            assert forall|x: u64| #[trigger] m@.transforms.dom().contains(x)
                implies m@.alive.contains(x) by {
                assert(old(self)@.transforms.dom().contains(x) && x != e);
            }
            assert forall|x: u64| #[trigger] m@.kinematics.dom().contains(x)
                implies m@.alive.contains(x) by {
                assert(old(self)@.kinematics.dom().contains(x) && x != e);
            }
            assert forall|i2: int| 0 <= i2 < m@.alive.len() implies #[trigger] m@.alive[i2]
                < m@.next_id by {
                assert(old(self)@.alive.contains(m@.alive[i2]));
                let p = choose|p: int|
                    0 <= p < old(self)@.alive.len() && old(self)@.alive[p] == m@.alive[i2];
            }
        }
    }
}

/// The deterministic random-number resource: a 64-bit shift-register
/// generator whose whole state is its seed.
#[derive(Debug, PartialEq, Eq, Copy, Clone, Structural)]
pub struct RandProvider {
    pub state: u64,
}

/// One step of the shift-register generator.
pub open spec fn spec_rand_step(x: u64) -> u64 {
    let a = (x ^ (x << 13)) as u64;
    let b = (a ^ (a >> 7)) as u64;
    (b ^ (b << 17)) as u64
}

impl RandProvider {
    pub fn new(seed: u64) -> (r: RandProvider)
        ensures
            r.state == seed,
    {
        RandProvider { state: seed }
    }

    /// Draws the next value; the state advances by exactly one generator
    /// step.
    pub fn next_u64(&mut self) -> (r: u64)
        ensures
            final(self).state == spec_rand_step(old(self).state),
            r == final(self).state,
    {
        let x: u64 = self.state;
        let a: u64 = x ^ (x << 13u64);
        let b: u64 = a ^ (a >> 7u64);
        let c: u64 = b ^ (b << 17u64);
        self.state = c;
        c
    }
}

/// The per-tick log resource, cleared at the start of every scheduler
/// pass.
#[derive(Debug, PartialEq, Eq)]
pub struct FrameLog {
    pub lines: Vec<String>,
}

/// The perf-stats resource: accumulated wall-clock duration of scheduler
/// passes.
#[derive(Debug, PartialEq, Eq, Copy, Clone, Structural)]
pub struct RenderStats {
    pub world_update_ms_total: u64,
    pub frames: u64,
}

impl RenderStats {
    /// Accumulates the duration of one pass, saturating at the top.
    pub fn add_value(&mut self, ms: u64)
        ensures
            final(self).world_update_ms_total == if old(self).world_update_ms_total + ms
                <= u64::MAX {
                old(self).world_update_ms_total + ms
            } else {
                u64::MAX as int
            },
            final(self).frames == if old(self).frames < u64::MAX {
                old(self).frames + 1
            } else {
                u64::MAX as int
            },
    {
        self.world_update_ms_total = self.world_update_ms_total.saturating_add(ms);
        self.frames = self.frames.saturating_add(1);
    }
}

/// The parking-manager resource: lane identities with a reserved spot.
#[derive(Debug, PartialEq, Eq)]
pub struct ParkingManagement {
    pub reserved: Vec<u64>,
}

/// A structural change queued during a tick and applied after all systems
/// for that tick have run.
#[derive(Debug, PartialEq, Eq, Copy, Clone, Structural)]
pub enum DeferredCommand {
    Kill(u64),
    Spawn(Option<Transform>, Option<Kinematics>),
}

/// The buffer of deferred structural changes.
#[derive(Debug, PartialEq, Eq)]
pub struct ParCommandBuffer {
    pub commands: Vec<DeferredCommand>,
}

/// The mathematical state of the resource store.
pub struct ResModel {
    pub time: Option<GameTime>,
    pub rand: Option<RandProvider>,
    pub frame_log: Option<Seq<String>>,
    pub render_stats: Option<RenderStats>,
    pub parking: Option<Seq<u64>>,
    pub commands: Seq<DeferredCommand>,
}

/// The singleton shared resources of one simulation instance, keyed by
/// type. Reading or writing a resource that was never inserted is a
/// programming error for the plain accessors and `None` for the fallible
/// ones.
pub struct Resources {
    pub time: Option<GameTime>,
    pub rand: Option<RandProvider>,
    pub frame_log: Option<FrameLog>,
    pub render_stats: Option<RenderStats>,
    pub parking: Option<ParkingManagement>,
    pub commands: ParCommandBuffer,
}

impl View for Resources {
    type V = ResModel;

    open spec fn view(&self) -> ResModel {
        ResModel {
            time: self.time,
            rand: self.rand,
            frame_log: match self.frame_log {
                Option::Some(l) => Option::Some(l.lines@),
                Option::None => Option::None,
            },
            render_stats: self.render_stats,
            parking: match self.parking {
                Option::Some(p) => Option::Some(p.reserved@),
                Option::None => Option::None,
            },
            commands: self.commands.commands@,
        }
    }
}

impl Resources {
    /// A store with nothing inserted and an empty command buffer.
    pub fn new() -> (r: Resources)
        ensures
            r@.time is None,
            r@.rand is None,
            r@.frame_log is None,
            r@.render_stats is None,
            r@.parking is None,
            r@.commands.len() == 0,
    {
        Resources {
            time: Option::None,
            rand: Option::None,
            frame_log: Option::None,
            render_stats: Option::None,
            parking: Option::None,
            commands: ParCommandBuffer { commands: Vec::new() },
        }
    }

    pub fn insert_time(&mut self, v: GameTime)
        ensures
            *final(self) == (Resources { time: Option::Some(v), ..*old(self) }),
    {
        self.time = Option::Some(v);
    }

    pub fn read_time(&self) -> (r: &GameTime)
        requires
            self@.time is Some,
        ensures
            *r == self@.time->Some_0,
    {
        match &self.time {
            Option::Some(t) => t,
            Option::None => unreached(),
        }
    }

    pub fn try_time(&self) -> (r: Option<&GameTime>)
        ensures
            self@.time is Some ==> r is Some && *r->Some_0 == self@.time->Some_0,
            self@.time is None ==> r is None,
    {
        self.time.as_ref()
    }

    pub fn insert_rand(&mut self, v: RandProvider)
        ensures
            *final(self) == (Resources { rand: Option::Some(v), ..*old(self) }),
    {
        self.rand = Option::Some(v);
    }

    pub fn write_rand(&mut self) -> (r: &mut RandProvider)
        requires
            old(self)@.rand is Some,
        ensures
            *r == old(self)@.rand->Some_0,
            *final(self) == (Resources { rand: Option::Some(*final(r)), ..*old(self) }),
    {
        match &mut self.rand {
            Option::Some(v) => v,
            Option::None => unreached(),
        }
    }

    pub fn insert_frame_log(&mut self, v: FrameLog)
        ensures
            final(self)@.frame_log == Option::Some(v.lines@),
            final(self)@.time == old(self)@.time,
            final(self)@.rand == old(self)@.rand,
            final(self)@.render_stats == old(self)@.render_stats,
            final(self)@.parking == old(self)@.parking,
            final(self)@.commands == old(self)@.commands,
    {
        self.frame_log = Option::Some(v);
    }

    /// Empties the frame log; the per-tick bookkeeping at the start of a
    /// scheduler pass.
    pub fn clear_frame_log(&mut self)
        requires
            old(self)@.frame_log is Some,
        ensures
            final(self)@.frame_log == Option::Some(Seq::<String>::empty()),
            final(self)@.time == old(self)@.time,
            final(self)@.rand == old(self)@.rand,
            final(self)@.render_stats == old(self)@.render_stats,
            final(self)@.parking == old(self)@.parking,
            final(self)@.commands == old(self)@.commands,
    {
        match &mut self.frame_log {
            Option::Some(l) => {
                l.lines = Vec::new();
                proof {
                    assert(self@.frame_log->Some_0 =~= Seq::<String>::empty());
                }
            },
            Option::None => unreached(),
        }
    }

    /// Appends one line to the frame log.
    pub fn log_line(&mut self, line: String)
        requires
            old(self)@.frame_log is Some,
        ensures
            final(self)@.frame_log == Option::Some(old(self)@.frame_log->Some_0.push(line)),
            final(self)@.time == old(self)@.time,
            final(self)@.rand == old(self)@.rand,
            final(self)@.render_stats == old(self)@.render_stats,
            final(self)@.parking == old(self)@.parking,
            final(self)@.commands == old(self)@.commands,
    {
        match &mut self.frame_log {
            Option::Some(l) => {
                l.lines.push(line);
            },
            Option::None => unreached(),
        }
    }

    pub fn insert_render_stats(&mut self, v: RenderStats)
        ensures
            *final(self) == (Resources { render_stats: Option::Some(v), ..*old(self) }),
    {
        self.render_stats = Option::Some(v);
    }

    pub fn write_render_stats(&mut self) -> (r: &mut RenderStats)
        requires
            old(self)@.render_stats is Some,
        ensures
            *r == old(self)@.render_stats->Some_0,
            *final(self) == (Resources { render_stats: Option::Some(*final(r)), ..*old(self) }),
    {
        match &mut self.render_stats {
            Option::Some(v) => v,
            Option::None => unreached(),
        }
    }

    pub fn insert_parking(&mut self, v: ParkingManagement)
        ensures
            final(self)@.parking == Option::Some(v.reserved@),
            final(self)@.time == old(self)@.time,
            final(self)@.rand == old(self)@.rand,
            final(self)@.frame_log == old(self)@.frame_log,
            final(self)@.render_stats == old(self)@.render_stats,
            final(self)@.commands == old(self)@.commands,
    {
        self.parking = Option::Some(v);
    }

    /// The parking resource for writing, inserting its documented default
    /// first when it was never inserted.
    pub fn write_parking_or_default(&mut self) -> (r: &mut ParkingManagement)
        ensures
            old(self)@.parking is Some ==> r.reserved@ == old(self)@.parking->Some_0,
            old(self)@.parking is None ==> r.reserved@.len() == 0,
            final(self)@.parking == Option::Some(final(r).reserved@),
            final(self)@.time == old(self)@.time,
            final(self)@.rand == old(self)@.rand,
            final(self)@.frame_log == old(self)@.frame_log,
            final(self)@.render_stats == old(self)@.render_stats,
            final(self)@.commands == old(self)@.commands,
    {
        if self.parking.is_none() {
            self.parking = Option::Some(ParkingManagement { reserved: Vec::new() });
        }
        match &mut self.parking {
            Option::Some(p) => p,
            Option::None => unreached(),
        }
    }

    pub fn try_parking(&self) -> (r: Option<&ParkingManagement>)
        ensures
            self@.parking is Some ==> r is Some && r->Some_0.reserved@ == self@.parking->Some_0,
            self@.parking is None ==> r is None,
    {
        self.parking.as_ref()
    }

    /// Queues a structural change for the deferred apply step.
    pub fn push_command(&mut self, c: DeferredCommand)
        ensures
            final(self)@.commands == old(self)@.commands.push(c),
            final(self)@.time == old(self)@.time,
            final(self)@.rand == old(self)@.rand,
            final(self)@.frame_log == old(self)@.frame_log,
            final(self)@.render_stats == old(self)@.render_stats,
            final(self)@.parking == old(self)@.parking,
    {
        self.commands.commands.push(c);
    }

    /// Takes the queued structural changes, leaving the buffer empty.
    pub fn take_commands(&mut self) -> (r: Vec<DeferredCommand>)
        ensures
            r@ == old(self)@.commands,
            final(self)@.commands == Seq::<DeferredCommand>::empty(),
            final(self)@.time == old(self)@.time,
            final(self)@.rand == old(self)@.rand,
            final(self)@.frame_log == old(self)@.frame_log,
            final(self)@.render_stats == old(self)@.render_stats,
            final(self)@.parking == old(self)@.parking,
    {
        let mut out: Vec<DeferredCommand> = Vec::new();
        std::mem::swap(&mut out, &mut self.commands.commands);
        out
    }
}

} // verus!
