use simkernel::geometry::Vec2;
use simkernel::kernel::{Egregoria, KinematicsApply};
use simkernel::time::GameTime;
use simkernel::world::Resources;
use simkernel::world::{DeferredCommand, Kinematics, RandProvider, Transform, World};

fn moving_instance() -> (Egregoria<KinematicsApply>, u64, u64) {
    let mut g: Egregoria<KinematicsApply> = Egregoria::init();
    g.schedule.add_system(KinematicsApply {});
    let e0 = g.world.spawn(
        Some(Transform { position: Vec2 { x: 0, y: 0 } }),
        Some(Kinematics { velocity: Vec2 { x: 3, y: -1 } }),
    );
    let e1 = g.world.spawn(Some(Transform { position: Vec2 { x: 10, y: 10 } }), None);
    (g, e0, e1)
}

#[test]
fn init_resources_have_documented_defaults() {
    let g: Egregoria<KinematicsApply> = Egregoria::init();
    assert_eq!(g.resources.read_time().seconds, 0);
    assert_eq!(g.world.n_entities(), 0);
    assert!(g.resources.try_parking().is_some());
    assert_eq!(g.resources.try_parking().unwrap().reserved.len(), 0);
}

#[test]
fn kinematics_system_moves_entities() {
    let (mut g, e0, e1) = moving_instance();
    g.run();
    assert_eq!(g.world.pos(e0), Some(Vec2 { x: 3, y: -1 }));
    // an entity without kinematics stays put
    assert_eq!(g.world.pos(e1), Some(Vec2 { x: 10, y: 10 }));
    g.run();
    assert_eq!(g.world.pos(e0), Some(Vec2 { x: 6, y: -2 }));
}

#[test]
fn scheduler_runs_are_deterministic() {
    let (mut g1, a0, a1) = moving_instance();
    let (mut g2, b0, b1) = moving_instance();
    g1.run();
    g1.run();
    g2.run();
    g2.run();
    assert_eq!(g1.world.pos(a0), g2.world.pos(b0));
    assert_eq!(g1.world.pos(a1), g2.world.pos(b1));
    assert_eq!(g1.world.n_entities(), g2.world.n_entities());
    // the random-number resource, seeded identically, stays identical
    let r1 = g1.resources.write_rand().next_u64();
    let r2 = g2.resources.write_rand().next_u64();
    assert_eq!(r1, r2);
}

#[test]
fn deferred_kill_applies_after_the_tick() {
    let (mut g, e0, e1) = moving_instance();
    g.resources.push_command(DeferredCommand::Kill(e0));
    g.run();
    // the killed entity is absent from all queries starting the next tick
    assert!(!g.world.is_alive(e0));
    assert_eq!(g.world.pos(e0), None);
    assert!(g.world.comp_transform(e0).is_none());
    assert!(g.world.comp_kinematics(e0).is_none());
    // the other entity is untouched
    assert!(g.world.is_alive(e1));
    assert_eq!(g.world.n_entities(), 1);
}

#[test]
fn deferred_spawn_applies_after_the_tick() {
    let (mut g, _e0, _e1) = moving_instance();
    g.resources.push_command(DeferredCommand::Spawn(
        Some(Transform { position: Vec2 { x: 7, y: 7 } }),
        None,
    ));
    assert_eq!(g.world.n_entities(), 2);
    g.run();
    assert_eq!(g.world.n_entities(), 3);
    let spawned = g.world.entity_at(2);
    assert_eq!(g.world.pos(spawned), Some(Vec2 { x: 7, y: 7 }));
}

#[test]
fn frame_log_cleared_each_run_and_stats_accumulate() {
    let (mut g, _e0, _e1) = moving_instance();
    g.resources.log_line(String::from("leftover"));
    g.run();
    assert_eq!(g.resources.frame_log.as_ref().unwrap().lines.len(), 0);
    let stats = g.resources.render_stats.unwrap();
    assert_eq!(stats.frames, 1);
}

#[test]
fn rand_provider_sequence_is_reproducible() {
    let mut a = RandProvider::new(123);
    let mut b = RandProvider::new(123);
    for _ in 0..10 {
        assert_eq!(a.next_u64(), b.next_u64());
    }
    let mut c = RandProvider::new(124);
    assert_ne!(a.next_u64(), c.next_u64());
}

#[test]
fn resources_absent_then_inserted() {
    let mut r = Resources::new();
    // the fallible accessor reports absence instead of failing
    assert!(r.try_time().is_none());
    r.insert_time(GameTime::new(0, 500));
    assert_eq!(r.try_time().unwrap().seconds, 10);
    assert_eq!(r.read_time().timestamp, 500);
}

#[test]
fn registry_names_and_hashes() {
    let reg = simkernel::registry();
    assert_eq!(reg.len(), 2);
    assert_eq!(reg[0].0, "Transform");
    assert_eq!(reg[1].0, "Kinematics");
    assert_eq!(reg[0].1, simkernel::my_hash("Transform"));
    assert_eq!(reg[1].1, simkernel::my_hash("Kinematics"));
    assert_ne!(reg[0].1, reg[1].1);
}

#[test]
fn parking_write_or_default() {
    let mut r = Resources::new();
    assert!(r.try_parking().is_none());
    r.write_parking_or_default().reserved.push(42);
    assert_eq!(r.try_parking().unwrap().reserved, vec![42]);
    r.write_parking_or_default().reserved.push(7);
    assert_eq!(r.try_parking().unwrap().reserved, vec![42, 7]);
}

#[test]
fn world_spawn_and_despawn() {
    let mut w = World::new();
    let e = w.spawn(Some(Transform { position: Vec2 { x: 1, y: 2 } }), None);
    assert!(w.is_alive(e));
    assert_eq!(w.pos(e), Some(Vec2 { x: 1, y: 2 }));
    w.despawn_now(e);
    assert!(!w.is_alive(e));
    assert_eq!(w.pos(e), None);
    assert_eq!(w.n_entities(), 0);
}

#[test]
fn query_entities_with_transform() {
    let mut w = World::new();
    let e0 = w.spawn(Some(Transform { position: Vec2 { x: 0, y: 0 } }), None);
    let _bare = w.spawn(None, None);
    let e2 = w.spawn(Some(Transform { position: Vec2 { x: 5, y: 5 } }), None);
    assert_eq!(w.entities_with_transform(), vec![e0, e2]);
}
