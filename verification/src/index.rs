//! The spatial index: an immutable k-d tree over a snapshot of hostile
//! positions, answering fixed-radius queries.
//!
//! The tree itself comes from the `kd_tree` crate and is opaque to the
//! verifier; the multiset of records it holds is named by
//! [`kd_tree_points`], and the build and query wrappers state over that
//! name exactly what the crate's source shows: `build` keeps the given
//! items, `within_radius` returns the items strictly within the radius.

use vstd::prelude::*;
use vstd::multiset::Multiset;
use crate::geom::{Pos, pos_in_bounds, within_radius};

verus! {

/// An immutable snapshot record: a hostile's position at rebuild time,
/// paired with the identity of the live entity it was sampled from.
#[derive(Clone, Copy, PartialEq, Eq, Structural, Debug)]
pub struct Collidable {
    pub pos: Pos,
    pub entity: u64,
}

/// The predicate a radius query answers: lying strictly within `radius`
/// of `center`.
pub open spec fn within_pred(center: Pos, radius: int) -> spec_fn(Collidable) -> bool {
    |c: Collidable| within_radius(c.pos, center, radius)
}

/// An immutable spatial index over one rebuild-time snapshot.
///
/// Built wholesale from a snapshot, never mutated afterwards: an update
/// is a fresh build that replaces the previous index.  The tree inside
/// comes from the `kd_tree` crate and is opaque to the verifier; it is
/// read only through the trusted wrappers below, whose contracts speak
/// of [`kd_tree_points`].
#[verifier::external_body]
pub struct SpatialIndex {
    tree: kd_tree::KdTree2<([i64; 2], u64)>,
}

/// The snapshot records held by an index, as an unordered multiset.
pub uninterp spec fn kd_tree_points(t: SpatialIndex) -> Multiset<Collidable>;

/// Relies on `kd_tree::KdTreeN::build`: it sorts the given items into
/// k-d order and stores exactly them, nothing else.
#[verifier::external_body]
fn kd_build(points: Vec<Collidable>) -> (t: SpatialIndex)
    ensures
        kd_tree_points(t) == points@.to_multiset(),
{
    SpatialIndex {
        tree: kd_tree::KdTree2::build(
            points.into_iter().map(|c| ([c.pos.x, c.pos.y], c.entity)).collect(),
        ),
    }
}

/// Relies on `kd_tree::KdTreeN::within_radius`: it returns exactly the
/// stored items whose squared Euclidean distance from the query point is
/// strictly less than the square of the radius.  The bounds keep the
/// crate's internal `i64` arithmetic from overflowing.
#[verifier::external_body]
fn kd_within_radius(t: &SpatialIndex, center: Pos, radius: i64) -> (r: Vec<Collidable>)
    requires
        pos_in_bounds(center),
        0 <= radius <= crate::MAX_COORD,
        forall|c: Collidable| kd_tree_points(*t).contains(c) ==> pos_in_bounds(c.pos),
    ensures
        r@.to_multiset() == kd_tree_points(*t).filter(within_pred(center, radius as int)),
{
    t.tree
        .within_radius(&[center.x, center.y], radius)
        .into_iter()
        .map(|&(p, e)| Collidable { pos: Pos { x: p[0], y: p[1] }, entity: e })
        .collect()
}

impl SpatialIndex {
    /// The multiset of snapshot records this index answers queries from.
    pub open spec fn contents(self) -> Multiset<Collidable> {
        kd_tree_points(self)
    }

    /// Every record's position is bounded, so queries cannot overflow.
    pub open spec fn wf(self) -> bool {
        forall|c: Collidable| self.contents().contains(c) ==> pos_in_bounds(c.pos)
    }

    /// Builds an index holding exactly the given snapshot records.
    ///
    /// An empty snapshot yields a valid, queryable empty index.
    pub fn build(points: Vec<Collidable>) -> (t: SpatialIndex)
        requires
            forall|i: int| 0 <= i < points@.len() ==> pos_in_bounds(#[trigger] points@[i].pos),
        ensures
            t.contents() == points@.to_multiset(),
            t.wf(),
    {
        let ghost points_view = points@;
        let t = kd_build(points);
        proof {
            broadcast use vstd::seq_lib::group_to_multiset_ensures;

            assert forall|c: Collidable| t.contents().contains(c) implies pos_in_bounds(c.pos) by {
                assert(points_view.contains(c));
            }
        }
        t
    }

    /// All records whose position lies strictly within `radius` of
    /// `center`, in no particular order.
    pub fn query(&self, center: Pos, radius: i64) -> (r: Vec<Collidable>)
        requires
            self.wf(),
            pos_in_bounds(center),
            0 <= radius <= crate::MAX_COORD,
        ensures
            r@.to_multiset() == self.contents().filter(within_pred(center, radius as int)),
    {
        kd_within_radius(self, center, radius)
    }
}

/// Reference implementation of the radius query: a linear scan that
/// keeps, in order, every record strictly within `radius` of `center`.
pub fn brute_force_query(points: &Vec<Collidable>, center: Pos, radius: i64) -> (r: Vec<
    Collidable,
>)
    requires
        forall|i: int| 0 <= i < points@.len() ==> pos_in_bounds(#[trigger] points@[i].pos),
        pos_in_bounds(center),
        0 <= radius <= crate::MAX_COORD,
    ensures
        r@ == points@.filter(within_pred(center, radius as int)),
{
    let ghost pred = within_pred(center, radius as int);
    let mut r: Vec<Collidable> = Vec::new();
    let mut i: usize = 0;
    proof {
        assert(points@.take(0).filter(pred) =~= Seq::<Collidable>::empty()) by {
            reveal(Seq::filter);
            assert(points@.take(0) =~= Seq::<Collidable>::empty());
        }
    }
    while i < points.len()
        invariant
            i <= points@.len(),
            forall|k: int| 0 <= k < points@.len() ==> pos_in_bounds(#[trigger] points@[k].pos),
            pos_in_bounds(center),
            0 <= radius <= crate::MAX_COORD,
            pred == within_pred(center, radius as int),
            r@ == points@.take(i as int).filter(pred),
        decreases points@.len() - i,
    {
        let c = points[i];
        let hit = crate::geom::is_within_radius(c.pos, center, radius);
        proof {
            points@.lemma_take_succ_push(i as int);
            points@.take(i as int).lemma_filter_push(c, pred);
            assert(pred(c) == within_radius(c.pos, center, radius as int));
        }
        if hit {
            r.push(c);
        }
        i += 1;
    }
    proof {
        assert(points@.take(points@.len() as int) =~= points@);
    }
    r
}

/// Filtering each element of a sequence and filtering its multiset of
/// elements keep exactly the same members, the same number of times.
pub(crate) proof fn lemma_to_multiset_filter_commute<A>(s: Seq<A>, pred: spec_fn(A) -> bool)
    ensures
        s.filter(pred).to_multiset() == s.to_multiset().filter(pred),
    decreases s.len(),
{
    broadcast use vstd::seq_lib::group_to_multiset_ensures;
    broadcast use vstd::multiset::group_multiset_axioms;

    if s.len() == 0 {
        assert(s.filter(pred) =~= s) by {
            reveal(Seq::filter);
        }
        assert(s.to_multiset().filter(pred) =~= s.to_multiset());
    } else {
        let prefix = s.drop_last();
        let last = s.last();
        lemma_to_multiset_filter_commute(prefix, pred);
        assert(s =~= prefix.push(last));
        prefix.lemma_filter_push(last, pred);
        assert(prefix.to_multiset().insert(last).filter(pred) =~= if pred(last) {
            prefix.to_multiset().filter(pred).insert(last)
        } else {
            prefix.to_multiset().filter(pred)
        });
    }
}

/// Law: the index agrees with the brute-force scan.  For an index whose
/// contents are a snapshot `points` — as [`SpatialIndex::build`] ensures
/// — a query returns, as an unordered multiset, exactly the records that
/// [`brute_force_query`] keeps from `points`.
pub proof fn lemma_query_matches_brute_force(
    t: SpatialIndex,
    points: Seq<Collidable>,
    center: Pos,
    radius: int,
)
    requires
        t.contents() == points.to_multiset(),
    ensures
        t.contents().filter(within_pred(center, radius)) == points.filter(
            within_pred(center, radius),
        ).to_multiset(),
{
    lemma_to_multiset_filter_commute(points, within_pred(center, radius));
}

/// Law: querying an empty index returns an empty result, whatever the
/// query point and radius.
pub proof fn lemma_empty_index_query(t: SpatialIndex, center: Pos, radius: int)
    requires
        t.contents() == Multiset::<Collidable>::empty(),
    ensures
        t.contents().filter(within_pred(center, radius)) == Multiset::<Collidable>::empty(),
{
    broadcast use vstd::multiset::group_multiset_axioms;

    assert(t.contents().filter(within_pred(center, radius)) =~= Multiset::<
        Collidable,
    >::empty());
}

impl Default for SpatialIndex {
    /// An empty index: valid, queryable, and holding no records.
    fn default() -> (t: Self)
        ensures
            t.contents() == Multiset::<Collidable>::empty(),
            t.wf(),
    {
        let t = SpatialIndex::build(Vec::new());
        proof {
            broadcast use vstd::seq_lib::group_to_multiset_ensures;
            broadcast use vstd::multiset::group_multiset_axioms;

            assert(t.contents() =~= Multiset::<Collidable>::empty());
        }
        t
    }
}

} // verus!
