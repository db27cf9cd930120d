//! Deterministic simulation kernel: an in-game clock with recurring
//! intervals, a road/lane network model with generated lane geometry, and an
//! entity/resource world driven by an ordered scheduler.

use vstd::prelude::*;
use std::collections::hash_map::DefaultHasher;
use std::hash::Hasher;
use vstd::std_specs::hash::DefaultHasherAdditionalSpecFns;
use vstd::string::StringSliceAdditionalSpecFns;

pub mod geometry;
pub mod kernel;
pub mod lanes;
pub mod road;
pub mod tables;
pub mod time;
pub mod world;

verus! {

/// Identity of a simulated soul, the gameplay-level agent bound to an
/// entity.
#[derive(Debug, Copy, Clone, Eq, PartialEq, Structural)]
pub struct SoulID(pub usize);

/// Marker component: entities carrying it are left out of persisted world
/// snapshots.
pub struct NoSerialize;

/// The stable hash under which a component schema is registered in
/// persisted snapshots, so a mismatch between a save and the current
/// binary is detected instead of silently misread.
pub fn my_hash(obj: &str) -> (r: u64)
    ensures
        r == DefaultHasher::spec_finish(seq![obj.spec_bytes()]),
{
    let mut hasher: DefaultHasher = DefaultHasher::new();
    hasher.write(obj.as_bytes());
    hasher.finish()
}

/// The component schema registry for persisted world snapshots: each
/// persistable component's name with the stable hash it is registered
/// under.
pub fn registry() -> (r: Vec<(&'static str, u64)>)
    ensures
        r@.len() == 2,
        r@[0].0@ == "Transform"@,
        r@[1].0@ == "Kinematics"@,
        r@[0].1 == DefaultHasher::spec_finish(seq![r@[0].0.spec_bytes()]),
        r@[1].1 == DefaultHasher::spec_finish(seq![r@[1].0.spec_bytes()]),
{
    let mut out: Vec<(&'static str, u64)> = Vec::new();
    let transform_name: &'static str = "Transform";
    out.push((transform_name, my_hash(transform_name)));
    let kinematics_name: &'static str = "Kinematics";
    out.push((kinematics_name, my_hash(kinematics_name)));
    out
}

} // verus!
