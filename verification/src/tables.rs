//! The owning tables of the network: generational arenas from the
//! `slotmap` crate, one per kind of network element. Verus cannot read the
//! arena type itself, so each table is held opaquely and modeled as a map
//! from the key's stable 64-bit form to the stored value; every operation
//! the kernel uses goes through a contract stated over that map.

use vstd::prelude::*;
use slotmap::Key;
use crate::lanes::{Intersection, Lane};
use crate::road::Road;

verus! {

/// What the intersection arena holds, keyed by `KeyData::as_ffi`.
pub uninterp spec fn inter_contents(m: Intersections) -> Map<u64, Intersection>;

/// The table of all intersections of a network.
#[verifier::external_body]
pub struct Intersections {
    inner: slotmap::SlotMap<slotmap::DefaultKey, Intersection>,
}

impl View for Intersections {
    type V = Map<u64, Intersection>;

    open spec fn view(&self) -> Map<u64, Intersection> {
        inter_contents(*self)
    }
}

impl Intersections {
    /// Relies on `SlotMap::new`: the new arena is empty.
    #[verifier::external_body]
    pub fn new() -> (r: Intersections)
        ensures
            r@.len() == 0,
            inter_contents(r).dom().finite(),
    {
        Intersections { inner: slotmap::SlotMap::new() }
    }

    /// Relies on `SlotMap::insert`: the value lands under a key not in use,
    /// and every other slot is untouched. The requirement keeps the arena
    /// below its capacity, where `insert` cannot panic.
    #[verifier::external_body]
    pub fn insert(&mut self, v: Intersection) -> (k: u64)
        requires
            old(self)@.dom().finite(),
            old(self)@.len() < 0xfffffffe,
        ensures
            !old(self)@.dom().contains(k),
            inter_contents(*final(self)) == inter_contents(*old(self)).insert(k, v),
            final(self)@.dom().finite(),
    {
        self.inner.insert(v).data().as_ffi()
    }

    /// Relies on `SlotMap::get` and `KeyData::from_ffi`: a key handed out
    /// by `insert` round-trips through its 64-bit form and finds the value
    /// stored under it.
    #[verifier::external_body]
    pub fn get(&self, k: u64) -> (r: &Intersection)
        requires
            self@.dom().contains(k),
        ensures
            *r == inter_contents(*self)[k],
    {
        self.inner.get(slotmap::KeyData::from_ffi(k).into()).unwrap()
    }

    /// Relies on `SlotMap::get_mut` and `KeyData::from_ffi`: writing
    /// through a present key replaces exactly that slot's value.
    #[verifier::external_body]
    pub fn set(&mut self, k: u64, v: Intersection)
        requires
            old(self)@.dom().contains(k),
        ensures
            inter_contents(*final(self)) == inter_contents(*old(self)).insert(k, v),
    {
        *self.inner.get_mut(slotmap::KeyData::from_ffi(k).into()).unwrap() = v;
    }
}

/// What the lane arena holds, keyed by `KeyData::as_ffi`.
pub uninterp spec fn lane_contents(m: Lanes) -> Map<u64, Lane>;

/// The table of all lanes of a network, shared so lanes stay
/// independently indexable while roads are regenerated.
#[verifier::external_body]
pub struct Lanes {
    inner: slotmap::SlotMap<slotmap::DefaultKey, Lane>,
}

impl View for Lanes {
    type V = Map<u64, Lane>;

    open spec fn view(&self) -> Map<u64, Lane> {
        lane_contents(*self)
    }
}

impl Lanes {
    /// Relies on `SlotMap::new`: the new arena is empty.
    #[verifier::external_body]
    pub fn new() -> (r: Lanes)
        ensures
            r@.len() == 0,
            lane_contents(r).dom().finite(),
    {
        Lanes { inner: slotmap::SlotMap::new() }
    }

    /// Relies on `SlotMap::insert`: the value lands under a key not in use,
    /// and every other slot is untouched. The requirement keeps the arena
    /// below its capacity, where `insert` cannot panic.
    #[verifier::external_body]
    pub fn insert(&mut self, v: Lane) -> (k: u64)
        requires
            old(self)@.dom().finite(),
            old(self)@.len() < 0xfffffffe,
        ensures
            !old(self)@.dom().contains(k),
            lane_contents(*final(self)) == lane_contents(*old(self)).insert(k, v),
            final(self)@.dom().finite(),
    {
        self.inner.insert(v).data().as_ffi()
    }

    /// Relies on `SlotMap::get` and `KeyData::from_ffi`: a key handed out
    /// by `insert` round-trips through its 64-bit form and finds the value
    /// stored under it.
    #[verifier::external_body]
    pub fn get(&self, k: u64) -> (r: &Lane)
        requires
            self@.dom().contains(k),
        ensures
            *r == lane_contents(*self)[k],
    {
        self.inner.get(slotmap::KeyData::from_ffi(k).into()).unwrap()
    }

    /// Relies on `SlotMap::get_mut` and `KeyData::from_ffi`: writing
    /// through a present key replaces exactly that slot's value.
    #[verifier::external_body]
    pub fn set(&mut self, k: u64, v: Lane)
        requires
            old(self)@.dom().contains(k),
        ensures
            lane_contents(*final(self)) == lane_contents(*old(self)).insert(k, v),
    {
        *self.inner.get_mut(slotmap::KeyData::from_ffi(k).into()).unwrap() = v;
    }
}

/// What the road arena holds, keyed by `KeyData::as_ffi`.
pub uninterp spec fn road_contents(m: Roads) -> Map<u64, Road>;

/// The table of all roads of a network.
#[verifier::external_body]
pub struct Roads {
    inner: slotmap::SlotMap<slotmap::DefaultKey, Road>,
}

impl View for Roads {
    type V = Map<u64, Road>;

    open spec fn view(&self) -> Map<u64, Road> {
        road_contents(*self)
    }
}

impl Roads {
    /// Relies on `SlotMap::new`: the new arena is empty.
    #[verifier::external_body]
    pub fn new() -> (r: Roads)
        ensures
            r@.len() == 0,
            road_contents(r).dom().finite(),
    {
        Roads { inner: slotmap::SlotMap::new() }
    }

    /// Relies on `SlotMap::insert`: the value lands under a key not in use,
    /// and every other slot is untouched. The requirement keeps the arena
    /// below its capacity, where `insert` cannot panic.
    #[verifier::external_body]
    pub fn insert(&mut self, v: Road) -> (k: u64)
        requires
            old(self)@.dom().finite(),
            old(self)@.len() < 0xfffffffe,
        ensures
            !old(self)@.dom().contains(k),
            road_contents(*final(self)) == road_contents(*old(self)).insert(k, v),
            final(self)@.dom().finite(),
    {
        self.inner.insert(v).data().as_ffi()
    }

    /// Relies on `SlotMap::get` and `KeyData::from_ffi`: a key handed out
    /// by `insert` round-trips through its 64-bit form and finds the value
    /// stored under it.
    #[verifier::external_body]
    pub fn get(&self, k: u64) -> (r: &Road)
        requires
            self@.dom().contains(k),
        ensures
            *r == road_contents(*self)[k],
    {
        self.inner.get(slotmap::KeyData::from_ffi(k).into()).unwrap()
    }

    /// Relies on `SlotMap::get_mut` and `KeyData::from_ffi`: writing
    /// through a present key replaces exactly that slot's value.
    #[verifier::external_body]
    pub fn set(&mut self, k: u64, v: Road)
        requires
            old(self)@.dom().contains(k),
        ensures
            road_contents(*final(self)) == road_contents(*old(self)).insert(k, v),
    {
        *self.inner.get_mut(slotmap::KeyData::from_ffi(k).into()).unwrap() = v;
    }
}

} // verus!
