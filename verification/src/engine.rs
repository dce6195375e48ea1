//! Frame integration: the per-frame rebuild-then-resolve cycle.
//!
//! The subsystem has no states of its own; every frame is the same
//! two-phase cycle — a possible rebuild, triggered by the refresh clock, then
//! the mandatory collision pass.  A rebuild completes synchronously
//! before that same frame's queries run, so a query never sees a
//! partially built index, nor one older than the last completed rebuild.

use vstd::prelude::*;
use vstd::multiset::Multiset;
use crate::clock::RefreshClock;
use crate::collision::{
    hostiles_wf, projectiles_wf, resolve_collisions, snapshot, snapshot_of, total_hits, Hostile,
    Projectile,
};
use crate::geom::pos_in_bounds;
use crate::index::{Collidable, SpatialIndex};

verus! {

/// The collision subsystem's whole state: the current immutable index,
/// the refresh clock, and the configuration it was started with.
pub struct CollisionEngine {
    /// The index queries run against; replaced wholesale on each rebuild.
    pub index: SpatialIndex,
    /// Time elapsed since the index was last rebuilt.
    pub clock: RefreshClock,
    /// Wall time between rebuilds, in milliseconds.  Must be positive:
    /// a non-positive interval is a configuration error the caller must
    /// rule out before starting the subsystem.
    pub interval_ms: u64,
    /// Radius of each projectile's hit query, in distance units.
    pub radius: i64,
    /// Health subtracted from a hostile per registered hit.
    pub damage: i64,
}

impl CollisionEngine {
    /// A well-configured engine between frames.
    pub open spec fn wf(self) -> bool {
        &&& 0 < self.interval_ms
        &&& self.clock.wf(self.interval_ms)
        &&& 0 <= self.radius <= crate::MAX_COORD
        &&& 0 <= self.damage
        &&& self.index.wf()
    }

    /// The index contents this frame's queries will see: the fresh
    /// snapshot of `hs` if the clock fires on `delta`, else the current
    /// index, unchanged.
    pub open spec fn frame_contents(self, hs: Seq<Hostile>, delta: u64) -> Multiset<Collidable> {
        if self.clock.elapsed + delta >= self.interval_ms {
            snapshot_of(hs).to_multiset()
        } else {
            self.index.contents()
        }
    }

    /// Starts the subsystem with the given configuration, an empty
    /// index, and a fresh clock.
    pub fn new(interval_ms: u64, radius: i64, damage: i64) -> (e: CollisionEngine)
        requires
            0 < interval_ms,
            0 <= radius <= crate::MAX_COORD,
            0 <= damage,
        ensures
            e.wf(),
            e.index.contents() == Multiset::<Collidable>::empty(),
            e.clock.elapsed == 0,
            e.interval_ms == interval_ms,
            e.radius == radius,
            e.damage == damage,
    {
        CollisionEngine {
            index: SpatialIndex::default(),
            clock: RefreshClock::new(),
            interval_ms,
            radius,
            damage,
        }
    }

    /// Rebuilds the index from the live hostile set: snapshots every
    /// hostile's position and identity and atomically replaces the
    /// previous index with one built wholesale from the snapshot.
    pub fn rebuild(&mut self, hostiles: &Vec<Hostile>)
        requires
            old(self).wf(),
            hostiles_wf(hostiles@),
        ensures
            final(self).wf(),
            final(self).index.contents() == snapshot_of(hostiles@).to_multiset(),
            final(self).clock == old(self).clock,
            final(self).interval_ms == old(self).interval_ms,
            final(self).radius == old(self).radius,
            final(self).damage == old(self).damage,
    {
        let snap = snapshot(hostiles);
        proof {
            assert forall|i: int| 0 <= i < snap@.len() implies pos_in_bounds(
                #[trigger] snap@[i].pos,
            ) by {
                assert(snap@[i] == snapshot_of(hostiles@)[i]);
                assert(snap@[i].pos == hostiles@[i].pos);
            }
        }
        self.index = SpatialIndex::build(snap);
    }

    /// Runs one simulation frame.
    ///
    /// First the clock advances by `delta`; if it fires, the index is
    /// rebuilt from the live hostile set before anything else happens.
    /// Then the collision pass runs against whichever index is current,
    /// applying cumulative damage to the live hostiles.  Returns whether
    /// a rebuild fired this frame.
    pub fn frame(
        &mut self,
        delta: u64,
        hostiles: &mut Vec<Hostile>,
        projectiles: &Vec<Projectile>,
    ) -> (fired: bool)
        requires
            old(self).wf(),
            hostiles_wf(old(hostiles)@),
            projectiles_wf(projectiles@),
            old(self).clock.elapsed + delta <= u64::MAX,
            forall|i: int|
                0 <= i < old(hostiles)@.len() ==> i64::MIN <= (#[trigger] old(
                    hostiles,
                )@[i]).health - old(self).damage * total_hits(
                    old(self).frame_contents(old(hostiles)@, delta),
                    projectiles@,
                    old(hostiles)@[i].id,
                    old(self).radius as int,
                ),
        ensures
            final(self).wf(),
            fired == (old(self).clock.elapsed + delta >= old(self).interval_ms),
            final(self).interval_ms == old(self).interval_ms,
            final(self).radius == old(self).radius,
            final(self).damage == old(self).damage,
            final(self).clock.elapsed == if fired {
                0
            } else {
                old(self).clock.elapsed + delta
            },
            final(self).index.contents() == old(self).frame_contents(old(hostiles)@, delta),
            !fired ==> final(self).index == old(self).index,
            final(hostiles)@.len() == old(hostiles)@.len(),
            forall|i: int|
                0 <= i < old(hostiles)@.len() ==> {
                    &&& (#[trigger] final(hostiles)@[i]).id == old(hostiles)@[i].id
                    &&& final(hostiles)@[i].pos == old(hostiles)@[i].pos
                    &&& final(hostiles)@[i].health == old(hostiles)@[i].health - old(self).damage
                        * total_hits(
                        old(self).frame_contents(old(hostiles)@, delta),
                        projectiles@,
                        old(hostiles)@[i].id,
                        old(self).radius as int,
                    )
                },
    {
        let interval = self.interval_ms;
        let fired = self.clock.tick(delta, interval);
        if fired {
            self.rebuild(hostiles);
        }
        resolve_collisions(&self.index, projectiles, hostiles, self.radius, self.damage);
        fired
    }
}

impl Default for CollisionEngine {
    /// An engine with the default configuration: rebuilds every
    /// [`crate::REBUILD_INTERVAL_MS`] milliseconds, queries with radius
    /// [`crate::QUERY_RADIUS`], and applies [`crate::BULLET_DAMAGE`] per
    /// hit.
    fn default() -> (e: Self)
        ensures
            e.wf(),
            e.index.contents() == Multiset::<Collidable>::empty(),
            e.clock.elapsed == 0,
            e.interval_ms == crate::REBUILD_INTERVAL_MS,
            e.radius == crate::QUERY_RADIUS,
            e.damage == crate::BULLET_DAMAGE,
    {
        CollisionEngine::new(crate::REBUILD_INTERVAL_MS, crate::QUERY_RADIUS, crate::BULLET_DAMAGE)
    }
}

} // verus!
