use bullethell::collision::{find_hostile, resolve_collisions, snapshot, Hostile, Projectile};
use bullethell::geom::{is_within_radius, Pos};
use bullethell::index::{brute_force_query, Collidable, SpatialIndex};

fn p(x: i64, y: i64) -> Pos {
    Pos { x, y }
}

fn record(id: u64, x: i64, y: i64) -> Collidable {
    Collidable { pos: p(x, y), entity: id }
}

/// A deterministic scatter of points around the origin.
fn scatter(n: u64) -> Vec<Collidable> {
    let mut points = Vec::new();
    for i in 0..n {
        let x = (i * 37 % 211) as i64 - 105;
        let y = (i * 53 % 199) as i64 - 99;
        points.push(record(i, x * 7, y * 7));
    }
    points
}

#[test]
fn query_agrees_with_brute_force_scan() {
    let points = scatter(200);
    let index = SpatialIndex::build(points.clone());
    let cases = [
        (p(0, 0), 50),
        (p(0, 0), 300),
        (p(-400, 350), 250),
        (p(700, -693), 100),
        (p(123, 456), 0),
        (p(-105, -99), 701),
    ];
    for (center, radius) in cases {
        let mut from_index: Vec<u64> =
            index.query(center, radius).iter().map(|c| c.entity).collect();
        let mut from_scan: Vec<u64> =
            brute_force_query(&points, center, radius).iter().map(|c| c.entity).collect();
        from_index.sort();
        from_scan.sort();
        assert_eq!(from_index, from_scan);
    }
}

#[test]
fn empty_index_is_queryable() {
    let built = SpatialIndex::build(Vec::new());
    assert!(built.query(p(0, 0), 50).is_empty());
    let defaulted = SpatialIndex::default();
    assert!(defaulted.query(p(12, -7), 1000).is_empty());
    assert!(brute_force_query(&Vec::new(), p(0, 0), 50).is_empty());
}

#[test]
fn radius_boundary_is_exclusive() {
    let index = SpatialIndex::build(vec![record(1, 150, 100)]);
    // at distance exactly 50 the record is outside the radius
    assert!(index.query(p(100, 100), 50).is_empty());
    assert_eq!(index.query(p(100, 100), 51).len(), 1);
}

#[test]
fn query_returns_all_records_within_radius() {
    let index = SpatialIndex::build(vec![
        record(1, 0, 0),
        record(2, 10, 10),
        record(3, 49, 0),
        record(4, 0, -49),
        record(5, 60, 0),
        record(6, -200, 300),
    ]);
    let mut ids: Vec<u64> = index.query(p(0, 0), 50).iter().map(|c| c.entity).collect();
    ids.sort();
    assert_eq!(ids, vec![1, 2, 3, 4]);
}

#[test]
fn records_at_equal_positions_are_all_returned() {
    let index = SpatialIndex::build(vec![record(7, 5, 5), record(8, 5, 5)]);
    let mut ids: Vec<u64> = index.query(p(5, 5), 1).iter().map(|c| c.entity).collect();
    ids.sort();
    assert_eq!(ids, vec![7, 8]);
}

#[test]
fn is_within_radius_exact_values() {
    assert!(is_within_radius(p(100, 100), p(100, 100), 50));
    assert!(is_within_radius(p(149, 100), p(100, 100), 50));
    assert!(!is_within_radius(p(150, 100), p(100, 100), 50));
    assert!(!is_within_radius(p(200, 200), p(100, 100), 50));
    assert!(!is_within_radius(p(0, 0), p(0, 0), 0));
}

#[test]
fn snapshot_samples_position_and_identity() {
    let hostiles = vec![
        Hostile { id: 4, pos: p(1, 2), health: 100 },
        Hostile { id: 9, pos: p(-3, 8), health: 55 },
    ];
    let records = snapshot(&hostiles);
    assert_eq!(records.len(), 2);
    assert_eq!(records[0].entity, 4);
    assert_eq!(records[0].pos, p(1, 2));
    assert_eq!(records[1].entity, 9);
    assert_eq!(records[1].pos, p(-3, 8));
}

#[test]
fn find_hostile_resolves_live_identities_only() {
    let hostiles = vec![
        Hostile { id: 4, pos: p(0, 0), health: 1 },
        Hostile { id: 9, pos: p(5, 5), health: 2 },
    ];
    assert_eq!(find_hostile(&hostiles, 4), Some(0));
    assert_eq!(find_hostile(&hostiles, 9), Some(1));
    assert_eq!(find_hostile(&hostiles, 7), None);
    assert_eq!(find_hostile(&Vec::new(), 4), None);
}

#[test]
fn resolver_applies_damage_through_prebuilt_index() {
    let mut hostiles = vec![
        Hostile { id: 1, pos: p(0, 0), health: 100 },
        Hostile { id: 2, pos: p(300, 0), health: 100 },
    ];
    let index = SpatialIndex::build(snapshot(&hostiles));
    let projectiles = vec![Projectile { pos: p(10, 0) }, Projectile { pos: p(300, 10) }];
    resolve_collisions(&index, &projectiles, &mut hostiles, 50, 25);
    assert_eq!(hostiles[0].health, 75);
    assert_eq!(hostiles[1].health, 75);
}

#[test]
fn resolver_with_no_projectiles_changes_nothing() {
    let mut hostiles = vec![Hostile { id: 1, pos: p(0, 0), health: 100 }];
    let index = SpatialIndex::build(snapshot(&hostiles));
    resolve_collisions(&index, &Vec::new(), &mut hostiles, 50, 100);
    assert_eq!(hostiles[0].health, 100);
}
