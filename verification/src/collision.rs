//! Collision query and damage resolution.
//!
//! Once per frame, after the scheduler has possibly rebuilt the index,
//! every live projectile queries the current [`SpatialIndex`] at its own
//! position with a fixed radius.  Each record a query returns is resolved
//! against the *live* hostile set — not the snapshot — and, on success, a
//! fixed damage amount is subtracted from that hostile's health.  An
//! identity that despawned since the last rebuild resolves to nothing and
//! the hit is silently dropped.

use vstd::prelude::*;
use vstd::multiset::Multiset;
use vstd::arithmetic::mul::{lemma_mul_inequality, lemma_mul_is_commutative, lemma_mul_is_distributive_add};
use crate::geom::{Pos, pos_in_bounds, within_radius};
use crate::index::{Collidable, SpatialIndex, within_pred};

verus! {

/// A live hostile entity: a stable identity, a current position and a
/// mutable health pool.
#[derive(Clone, Copy, PartialEq, Eq, Structural, Debug)]
pub struct Hostile {
    pub id: u64,
    pub pos: Pos,
    pub health: i64,
}

/// A live projectile: queried against the index at its current position
/// every frame, never itself indexed.
#[derive(Clone, Copy, PartialEq, Eq, Structural, Debug)]
pub struct Projectile {
    pub pos: Pos,
}

/// A well-formed live hostile set: bounded positions and pairwise
/// distinct identities.
pub open spec fn hostiles_wf(hs: Seq<Hostile>) -> bool {
    &&& forall|i: int| 0 <= i < hs.len() ==> pos_in_bounds(#[trigger] hs[i].pos)
    &&& forall|i: int, j: int| 0 <= i < j < hs.len() ==> hs[i].id != hs[j].id
}

/// A well-formed live projectile set: bounded positions.
pub open spec fn projectiles_wf(ps: Seq<Projectile>) -> bool {
    forall|i: int| 0 <= i < ps.len() ==> pos_in_bounds(#[trigger] ps[i].pos)
}

/// What a snapshot of a live hostile set holds: one record per hostile,
/// pairing its position and identity at sampling time.
pub open spec fn snapshot_of(hs: Seq<Hostile>) -> Seq<Collidable> {
    hs.map_values(|h: Hostile| Collidable { pos: h.pos, entity: h.id })
}

/// Snapshot builder: samples every currently live hostile — its position
/// and identity — into a fresh sequence of records.  No filtering; the
/// live set is read, not mutated.
pub fn snapshot(hostiles: &Vec<Hostile>) -> (r: Vec<Collidable>)
    ensures
        r@ == snapshot_of(hostiles@),
{
    let mut r: Vec<Collidable> = Vec::new();
    let mut i: usize = 0;
    while i < hostiles.len()
        invariant
            i <= hostiles@.len(),
            r@.len() == i,
            forall|k: int| 0 <= k < i ==> #[trigger] r@[k] == (Collidable {
                pos: hostiles@[k].pos,
                entity: hostiles@[k].id,
            }),
        decreases hostiles@.len() - i,
    {
        let h = hostiles[i];
        r.push(Collidable { pos: h.pos, entity: h.id });
        i += 1;
    }
    proof {
        assert(r@ =~= snapshot_of(hostiles@));
    }
    r
}

/// Resolves an identity against the live hostile set: the position in
/// the set of the hostile that still carries `id`, if any.
pub fn find_hostile(hostiles: &Vec<Hostile>, id: u64) -> (r: Option<usize>)
    ensures
        match r {
            Some(m) => m < hostiles@.len() && hostiles@[m as int].id == id,
            None => forall|j: int| 0 <= j < hostiles@.len() ==> hostiles@[j].id != id,
        },
{
    let mut i: usize = 0;
    while i < hostiles.len()
        invariant
            i <= hostiles@.len(),
            forall|j: int| 0 <= j < i ==> hostiles@[j].id != id,
        decreases hostiles@.len() - i,
    {
        if hostiles[i].id == id {
            return Some(i);
        }
        i += 1;
    }
    None
}

/// The number of records in `s` carrying identity `id`.
pub open spec fn count_id(s: Seq<Collidable>, id: u64) -> nat
    decreases s.len(),
{
    if s.len() == 0 {
        0
    } else {
        count_id(s.drop_last(), id) + if s.last().entity == id {
            1nat
        } else {
            0nat
        }
    }
}

/// The predicate a single query's hits on `id` satisfy: carrying
/// identity `id` and lying strictly within `radius` of `p`.
pub open spec fn hit_pred(p: Pos, id: u64, radius: int) -> spec_fn(Collidable) -> bool {
    |c: Collidable| c.entity == id && within_radius(c.pos, p, radius)
}

/// Hits registered on identity `id` by a single query at `p`: the
/// records in `contents` carrying `id` strictly within `radius` of `p`.
pub open spec fn hits_at(contents: Multiset<Collidable>, p: Pos, id: u64, radius: int) -> nat {
    contents.filter(hit_pred(p, id, radius)).len()
}

/// Total hits registered on identity `id` in one frame, when each
/// projectile in `ps` queries `contents` at its own position.
pub open spec fn total_hits(
    contents: Multiset<Collidable>,
    ps: Seq<Projectile>,
    id: u64,
    radius: int,
) -> nat
    decreases ps.len(),
{
    if ps.len() == 0 {
        0
    } else {
        total_hits(contents, ps.drop_last(), id, radius) + hits_at(
            contents,
            ps.last().pos,
            id,
            radius,
        )
    }
}

/// One more record extends the identity count by one or leaves it.
proof fn lemma_count_id_take_succ(s: Seq<Collidable>, j: int, id: u64)
    requires
        0 <= j < s.len(),
    ensures
        count_id(s.take(j + 1), id) == count_id(s.take(j), id) + if s[j].entity == id {
            1nat
        } else {
            0nat
        },
{
    assert(s.take(j + 1).drop_last() =~= s.take(j));
    assert(s.take(j + 1).last() == s[j]);
}

/// A prefix carries no more records of an identity than the whole.
proof fn lemma_count_id_take_le(s: Seq<Collidable>, j: int, id: u64)
    requires
        0 <= j <= s.len(),
    ensures
        count_id(s.take(j), id) <= count_id(s, id),
    decreases s.len() - j,
{
    if j == s.len() {
        assert(s.take(j) =~= s);
    } else {
        lemma_count_id_take_succ(s, j, id);
        lemma_count_id_take_le(s, j + 1, id);
    }
}

/// Inserting one element into a multiset grows a filtered length by one
/// exactly when the element satisfies the predicate.
proof fn lemma_filter_insert_len<A>(m: Multiset<A>, c: A, pred: spec_fn(A) -> bool)
    ensures
        m.insert(c).filter(pred).len() == m.filter(pred).len() + if pred(c) {
            1nat
        } else {
            0nat
        },
{
    broadcast use vstd::multiset::group_multiset_axioms;

    if pred(c) {
        assert(m.insert(c).filter(pred) =~= m.filter(pred).insert(c));
    } else {
        assert(m.insert(c).filter(pred) =~= m.filter(pred));
    }
}

/// Counting an identity in a sequence of records equals counting it in
/// the records' multiset, restricted by any predicate the identity's
/// records all satisfy pointwise.
proof fn lemma_count_id_multiset(s: Seq<Collidable>, p: Pos, id: u64, radius: int)
    requires
        forall|j: int| 0 <= j < s.len() && (#[trigger] s[j]).entity == id ==> within_radius(
            s[j].pos,
            p,
            radius,
        ),
    ensures
        count_id(s, id) == s.to_multiset().filter(hit_pred(p, id, radius)).len(),
    decreases s.len(),
{
    broadcast use vstd::seq_lib::group_to_multiset_ensures;

    if s.len() == 0 {
        assert(s.to_multiset().filter(hit_pred(p, id, radius)).len() == 0) by {
            broadcast use vstd::multiset::group_multiset_axioms;

            assert(s.to_multiset().filter(hit_pred(p, id, radius)) =~= Multiset::<
                Collidable,
            >::empty());
        }
    } else {
        let prefix = s.drop_last();
        let last = s.last();
        assert(forall|j: int| 0 <= j < prefix.len() ==> prefix[j] == s[j]);
        lemma_count_id_multiset(prefix, p, id, radius);
        assert(s =~= prefix.push(last));
        assert(s.to_multiset() == prefix.to_multiset().insert(last));
        lemma_filter_insert_len(prefix.to_multiset(), last, hit_pred(p, id, radius));
        assert(hit_pred(p, id, radius)(last) == (last.entity == id && within_radius(
            last.pos,
            p,
            radius,
        )));
        assert(last == s[s.len() - 1]);
    }
}

/// The records one query returns carrying identity `id` are exactly the
/// hits that query registers on `id`: their count in the returned
/// sequence equals [`hits_at`].
proof fn lemma_query_hits(
    results: Seq<Collidable>,
    contents: Multiset<Collidable>,
    center: Pos,
    id: u64,
    radius: int,
)
    requires
        results.to_multiset() == contents.filter(within_pred(center, radius)),
    ensures
        count_id(results, id) == hits_at(contents, center, id, radius),
{
    broadcast use vstd::seq_lib::group_to_multiset_ensures;
    broadcast use vstd::multiset::group_multiset_axioms;

    // every returned record is strictly within the radius
    assert forall|j: int|
        0 <= j < results.len() && (#[trigger] results[j]).entity == id implies within_radius(
        results[j].pos,
        center,
        radius,
    ) by {
        assert(results.to_multiset().contains(results[j]));
        assert(within_pred(center, radius)(results[j]));
    }
    lemma_count_id_multiset(results, center, id, radius);
    // filtering the query's result by identity collects the same records
    // as filtering the contents by identity-and-radius at once
    assert forall|c: Collidable| true implies #[trigger] results.to_multiset().filter(
        hit_pred(center, id, radius),
    ).count(c) == contents.filter(hit_pred(center, id, radius)).count(c) by {
        assert(within_pred(center, radius)(c) == within_radius(c.pos, center, radius));
        assert(hit_pred(center, id, radius)(c) == (c.entity == id && within_radius(
            c.pos,
            center,
            radius,
        )));
    }
    assert(results.to_multiset().filter(hit_pred(center, id, radius)) =~= contents.filter(
        hit_pred(center, id, radius),
    ));
}

/// Applies one query's returned records to the live set: each record
/// whose identity still resolves to a live hostile subtracts `damage`
/// from that hostile's health; a stale identity is silently skipped.
#[verifier::loop_isolation(false)]
fn apply_hits(hostiles: &mut Vec<Hostile>, results: &Vec<Collidable>, damage: i64)
    requires
        forall|i: int, j: int|
            0 <= i < j < old(hostiles)@.len() ==> old(hostiles)@[i].id != old(hostiles)@[j].id,
        0 <= damage,
        forall|i: int|
            0 <= i < old(hostiles)@.len() ==> i64::MIN <= (#[trigger] old(hostiles)@[i]).health
                - damage * count_id(results@, old(hostiles)@[i].id),
    ensures
        final(hostiles)@.len() == old(hostiles)@.len(),
        forall|i: int|
            0 <= i < old(hostiles)@.len() ==> {
                &&& (#[trigger] final(hostiles)@[i]).id == old(hostiles)@[i].id
                &&& final(hostiles)@[i].pos == old(hostiles)@[i].pos
                &&& final(hostiles)@[i].health == old(hostiles)@[i].health - damage * count_id(
                    results@,
                    old(hostiles)@[i].id,
                )
            },
{
    let ghost orig = old(hostiles)@;
    let mut j: usize = 0;
    proof {
        assert(results@.take(0).len() == 0);
        assert forall|id: u64| #[trigger] count_id(results@.take(0), id) == 0nat by {}
    }
    while j < results.len()
        invariant
            j <= results@.len(),
            hostiles@.len() == orig.len(),
            forall|i: int|
                0 <= i < orig.len() ==> {
                    &&& (#[trigger] hostiles@[i]).id == orig[i].id
                    &&& hostiles@[i].pos == orig[i].pos
                    &&& hostiles@[i].health == orig[i].health - damage * count_id(
                        results@.take(j as int),
                        orig[i].id,
                    )
                },
        decreases results@.len() - j,
    {
        let c = results[j];
        let m_opt = find_hostile(hostiles, c.entity);
        if let Some(m) = m_opt {
            proof {
                let id = orig[m as int].id;
                assert(results@[j as int] == c && c.entity == id);
                assert(i64::MIN <= orig[m as int].health - damage * count_id(results@, id));
                lemma_count_id_take_succ(results@, j as int, id);
                lemma_count_id_take_le(results@, j as int + 1, id);
                let cj = count_id(results@.take(j as int), id) as int;
                lemma_mul_is_distributive_add(damage as int, cj, 1);
                lemma_mul_inequality(cj + 1, count_id(results@, id) as int, damage as int);
                lemma_mul_is_commutative(cj + 1, damage as int);
                lemma_mul_is_commutative(count_id(results@, id) as int, damage as int);
                assert(damage * (cj + 1) <= damage * count_id(results@, id));
                assert(i64::MIN <= orig[m as int].health - damage * (cj + 1));
                assert forall|i: int|
                    0 <= i < orig.len() && i != m implies count_id(
                    results@.take(j as int + 1),
                    orig[i].id,
                ) == count_id(results@.take(j as int), orig[i].id) by {
                    if i < m {
                        assert(orig[i].id != orig[m as int].id);
                    } else {
                        assert(orig[m as int].id != orig[i].id);
                    }
                    lemma_count_id_take_succ(results@, j as int, orig[i].id);
                }
            }
            let h = hostiles[m];
            hostiles[m] = Hostile { id: h.id, pos: h.pos, health: h.health - damage };
        } else {
            proof {
                assert forall|i: int| 0 <= i < orig.len() implies count_id(
                    results@.take(j as int + 1),
                    orig[i].id,
                ) == count_id(results@.take(j as int), orig[i].id) by {
                    assert(hostiles@[i].id == orig[i].id);
                    assert(hostiles@[i].id != c.entity);
                    lemma_count_id_take_succ(results@, j as int, orig[i].id);
                }
            }
        }
        j += 1;
    }
    proof {
        assert(results@.take(results@.len() as int) =~= results@);
    }
}

/// Runs one frame's collision pass.
///
/// Every projectile queries `index` at its current position with
/// `radius`; each record a query returns is resolved against the live
/// set and, on success, `damage` is subtracted from that hostile's
/// health.  A stale identity — one with no live hostile — is silently
/// skipped.  Damage is cumulative: a hostile hit K times in the same
/// frame loses K times `damage`, and one projectile damages every
/// hostile it hits.  Nothing is despawned and death is not decided here.
#[verifier::loop_isolation(false)]
pub fn resolve_collisions(
    index: &SpatialIndex,
    projectiles: &Vec<Projectile>,
    hostiles: &mut Vec<Hostile>,
    radius: i64,
    damage: i64,
)
    requires
        index.wf(),
        projectiles_wf(projectiles@),
        hostiles_wf(old(hostiles)@),
        0 <= radius <= crate::MAX_COORD,
        0 <= damage,
        forall|i: int|
            0 <= i < old(hostiles)@.len() ==> i64::MIN <= (#[trigger] old(hostiles)@[i]).health
                - damage * total_hits(
                index.contents(),
                projectiles@,
                old(hostiles)@[i].id,
                radius as int,
            ),
    ensures
        final(hostiles)@.len() == old(hostiles)@.len(),
        forall|i: int|
            0 <= i < old(hostiles)@.len() ==> {
                &&& (#[trigger] final(hostiles)@[i]).id == old(hostiles)@[i].id
                &&& final(hostiles)@[i].pos == old(hostiles)@[i].pos
                &&& final(hostiles)@[i].health == old(hostiles)@[i].health - damage * total_hits(
                    index.contents(),
                    projectiles@,
                    old(hostiles)@[i].id,
                    radius as int,
                )
            },
{
    let ghost orig = old(hostiles)@;
    let ghost contents = index.contents();
    let ghost r_int = radius as int;
    let mut k: usize = 0;
    proof {
        assert(projectiles@.take(0).len() == 0);
        assert forall|id: u64| #[trigger] total_hits(contents, projectiles@.take(0), id, r_int)
            == 0nat by {}
    }
    while k < projectiles.len()
        invariant
            k <= projectiles@.len(),
            hostiles@.len() == orig.len(),
            forall|i: int|
                0 <= i < orig.len() ==> {
                    &&& (#[trigger] hostiles@[i]).id == orig[i].id
                    &&& hostiles@[i].pos == orig[i].pos
                    &&& hostiles@[i].health == orig[i].health - damage * total_hits(
                        contents,
                        projectiles@.take(k as int),
                        orig[i].id,
                        r_int,
                    )
                },
        decreases projectiles@.len() - k,
    {
        let p = projectiles[k];
        let results = index.query(p.pos, radius);
        proof {
            // this query's hits keep every hostile inside the damage
            // budget that the caller granted for the whole frame
            assert forall|i: int|
                0 <= i < orig.len() implies i64::MIN <= (#[trigger] hostiles@[i]).health - damage
                * count_id(results@, hostiles@[i].id) by {
                let id = orig[i].id;
                assert(hostiles@[i].id == id);
                assert(i64::MIN <= orig[i].health - damage * total_hits(
                    contents,
                    projectiles@,
                    id,
                    r_int,
                ));
                lemma_query_hits(results@, contents, p.pos, id, r_int);
                lemma_total_hits_take_succ(contents, projectiles@, k as int, id, r_int);
                lemma_total_hits_take_le(contents, projectiles@, k as int + 1, id, r_int);
                let tk = total_hits(contents, projectiles@.take(k as int), id, r_int) as int;
                let ha = hits_at(contents, p.pos, id, r_int) as int;
                lemma_mul_is_distributive_add(damage as int, tk, ha);
                lemma_mul_inequality(
                    tk + ha,
                    total_hits(contents, projectiles@, id, r_int) as int,
                    damage as int,
                );
                lemma_mul_is_commutative(tk + ha, damage as int);
                lemma_mul_is_commutative(total_hits(contents, projectiles@, id, r_int) as int, damage as int);
                assert(hostiles@[i].health == orig[i].health - damage * tk);
            }
        }
        apply_hits(hostiles, &results, damage);
        proof {
            assert forall|i: int| 0 <= i < orig.len() implies hostiles@[i].health == orig[i].health
                - damage * total_hits(
                contents,
                projectiles@.take(k as int + 1),
                orig[i].id,
                r_int,
            ) by {
                let id = orig[i].id;
                lemma_query_hits(results@, contents, p.pos, id, r_int);
                lemma_total_hits_take_succ(contents, projectiles@, k as int, id, r_int);
                let tk = total_hits(contents, projectiles@.take(k as int), id, r_int) as int;
                let ha = hits_at(contents, p.pos, id, r_int) as int;
                lemma_mul_is_distributive_add(damage as int, tk, ha);
            }
        }
        k += 1;
    }
    proof {
        assert(projectiles@.take(projectiles@.len() as int) =~= projectiles@);
    }
}

/// A filtered multiset is no larger than the multiset itself.
proof fn lemma_filter_len_le<A>(m: Multiset<A>, pred: spec_fn(A) -> bool)
    ensures
        m.filter(pred).len() <= m.len(),
{
    broadcast use vstd::multiset::group_multiset_axioms;

    assert(m.filter(pred).subset_of(m));
    assert(m.sub(m.filter(pred)).len() == m.len() - m.filter(pred).len());
}

/// Law (damage budget): one frame registers at most one hit per
/// projectile per indexed record on any identity, so the damage any
/// frame applies to a hostile is bounded by the projectile count times
/// the index size times the damage per hit.  A caller can use this to
/// rule out health underflow before running a frame.
pub proof fn lemma_total_hits_bound(
    contents: Multiset<Collidable>,
    ps: Seq<Projectile>,
    id: u64,
    radius: int,
)
    ensures
        total_hits(contents, ps, id, radius) <= ps.len() * contents.len(),
    decreases ps.len(),
{
    if ps.len() == 0 {
    } else {
        lemma_total_hits_bound(contents, ps.drop_last(), id, radius);
        lemma_filter_len_le(contents, hit_pred(ps.last().pos, id, radius));
        vstd::arithmetic::mul::lemma_mul_is_distributive_add_other_way(
            contents.len() as int,
            ps.len() - 1,
            1,
        );
    }
}

/// Law (bounded staleness): an identity that the last rebuild did not
/// sample — one spawned strictly after it, or one despawned strictly
/// before it — registers no hits against the index built from that
/// snapshot, whatever the projectiles; by the resolver's contract its
/// health stays untouched until the next rebuild.
pub proof fn lemma_stale_identity_never_hit(
    hs: Seq<Hostile>,
    ps: Seq<Projectile>,
    id: u64,
    radius: int,
)
    requires
        forall|i: int| 0 <= i < hs.len() ==> (#[trigger] hs[i]).id != id,
    ensures
        total_hits(snapshot_of(hs).to_multiset(), ps, id, radius) == 0,
    decreases ps.len(),
{
    broadcast use vstd::seq_lib::group_to_multiset_ensures;
    broadcast use vstd::multiset::group_multiset_axioms;

    if ps.len() > 0 {
        lemma_stale_identity_never_hit(hs, ps.drop_last(), id, radius);
        let m = snapshot_of(hs).to_multiset();
        let pr = hit_pred(ps.last().pos, id, radius);
        assert(m.filter(pr) =~= Multiset::<Collidable>::empty()) by {
            assert forall|c: Collidable| true implies m.filter(pr).count(c) == 0 by {
                if m.count(c) > 0 {
                    assert(snapshot_of(hs).contains(c));
                    let w = choose|w: int|
                        0 <= w < snapshot_of(hs).len() && snapshot_of(hs)[w] == c;
                    assert(c.entity == hs[w].id);
                    assert(!pr(c));
                }
            }
        }
    }
}

/// Law (cumulative damage): when the index holds exactly one record for
/// an identity and every one of the frame's projectiles lies strictly
/// within the query radius of that record's position, the identity
/// registers exactly one hit per projectile; by the resolver's contract
/// that hostile loses the projectile count times the damage in a single
/// frame.
pub proof fn lemma_cumulative_damage(
    contents: Multiset<Collidable>,
    ps: Seq<Projectile>,
    rec: Collidable,
    radius: int,
)
    requires
        contents.count(rec) == 1,
        forall|c: Collidable| contents.contains(c) && c.entity == rec.entity ==> c == rec,
        forall|i: int| 0 <= i < ps.len() ==> within_radius(rec.pos, (#[trigger] ps[i]).pos, radius),
    ensures
        total_hits(contents, ps, rec.entity, radius) == ps.len(),
    decreases ps.len(),
{
    broadcast use vstd::multiset::group_multiset_axioms;

    if ps.len() > 0 {
        lemma_cumulative_damage(contents, ps.drop_last(), rec, radius);
        let pr = hit_pred(ps.last().pos, rec.entity, radius);
        assert(within_radius(rec.pos, ps.last().pos, radius)) by {
            assert(ps[ps.len() - 1] == ps.last());
        }
        assert(contents.filter(pr) =~= Multiset::<Collidable>::singleton(rec)) by {
            assert forall|c: Collidable| true implies contents.filter(pr).count(c) == Multiset::<
                Collidable,
            >::singleton(rec).count(c) by {
                if c == rec {
                    assert(pr(rec));
                } else if contents.count(c) > 0 && c.entity == rec.entity {
                    assert(contents.contains(c));
                    assert(c == rec);
                } else {
                    assert(!pr(c) || contents.count(c) == 0);
                }
            }
        }
        assert(contents.filter(pr).len() == 1);
    }
}

/// Extending the projectile sequence by one adds that projectile's hits.
proof fn lemma_total_hits_take_succ(
    contents: Multiset<Collidable>,
    ps: Seq<Projectile>,
    k: int,
    id: u64,
    radius: int,
)
    requires
        0 <= k < ps.len(),
    ensures
        total_hits(contents, ps.take(k + 1), id, radius) == total_hits(
            contents,
            ps.take(k),
            id,
            radius,
        ) + hits_at(contents, ps[k].pos, id, radius),
{
    assert(ps.take(k + 1).drop_last() =~= ps.take(k));
    assert(ps.take(k + 1).last() == ps[k]);
}

/// A prefix of the projectile sequence registers no more hits than the
/// whole sequence.
proof fn lemma_total_hits_take_le(
    contents: Multiset<Collidable>,
    ps: Seq<Projectile>,
    k: int,
    id: u64,
    radius: int,
)
    requires
        0 <= k <= ps.len(),
    ensures
        total_hits(contents, ps.take(k), id, radius) <= total_hits(contents, ps, id, radius),
    decreases ps.len() - k,
{
    if k == ps.len() {
        assert(ps.take(k) =~= ps);
    } else {
        lemma_total_hits_take_succ(contents, ps, k, id, radius);
        lemma_total_hits_take_le(contents, ps, k + 1, id, radius);
    }
}

} // verus!
