use bullethell::collision::{Hostile, Projectile};
use bullethell::engine::CollisionEngine;
use bullethell::geom::Pos;

fn p(x: i64, y: i64) -> Pos {
    Pos { x, y }
}

fn hostile(id: u64, x: i64, y: i64, health: i64) -> Hostile {
    Hostile { id, pos: p(x, y), health }
}

#[test]
fn scenario_hit_at_same_position() {
    let mut engine = CollisionEngine::new(200, 50, 100);
    let mut hostiles = vec![hostile(1, 100, 100, 100)];
    let projectiles = vec![Projectile { pos: p(100, 100) }];
    let fired = engine.frame(200, &mut hostiles, &projectiles);
    assert!(fired);
    assert_eq!(hostiles[0].health, 0);
}

#[test]
fn scenario_miss_outside_radius() {
    let mut engine = CollisionEngine::new(200, 50, 100);
    let mut hostiles = vec![hostile(1, 100, 100, 100)];
    // distance is about 141.4, well beyond the 50-unit radius
    let projectiles = vec![Projectile { pos: p(200, 200) }];
    let fired = engine.frame(200, &mut hostiles, &projectiles);
    assert!(fired);
    assert_eq!(hostiles[0].health, 100);
}

#[test]
fn scenario_two_projectiles_cumulative_damage() {
    let mut engine = CollisionEngine::new(200, 50, 100);
    let mut hostiles = vec![hostile(1, 100, 100, 100)];
    let projectiles = vec![
        Projectile { pos: p(100, 100) },
        Projectile { pos: p(120, 100) },
    ];
    let fired = engine.frame(200, &mut hostiles, &projectiles);
    assert!(fired);
    assert_eq!(hostiles[0].health, -100);
}

#[test]
fn scenario_despawn_then_rebuild_clears_record() {
    let mut engine = CollisionEngine::new(200, 50, 100);
    let mut hostiles = vec![hostile(1, 100, 100, 100)];
    engine.frame(200, &mut hostiles, &Vec::new());
    // the hostile despawns, and a rebuild fires before the next query
    hostiles.clear();
    let fired = engine.frame(200, &mut hostiles, &Vec::new());
    assert!(fired);
    // its last known position no longer returns a hit
    assert!(engine.index.query(p(100, 100), 50).is_empty());
}

#[test]
fn three_hits_on_one_hostile_in_one_frame() {
    let mut engine = CollisionEngine::new(200, 50, 100);
    let mut hostiles = vec![hostile(9, 0, 0, 500)];
    let projectiles = vec![
        Projectile { pos: p(0, 0) },
        Projectile { pos: p(30, 0) },
        Projectile { pos: p(0, -30) },
    ];
    engine.frame(200, &mut hostiles, &projectiles);
    assert_eq!(hostiles[0].health, 200);
}

#[test]
fn one_projectile_damages_every_hostile_in_range() {
    let mut engine = CollisionEngine::new(200, 50, 100);
    let mut hostiles = vec![
        hostile(1, 100, 100, 100),
        hostile(2, 110, 100, 100),
        hostile(3, 400, 400, 100),
    ];
    let projectiles = vec![Projectile { pos: p(105, 100) }];
    engine.frame(200, &mut hostiles, &projectiles);
    assert_eq!(hostiles[0].health, 0);
    assert_eq!(hostiles[1].health, 0);
    assert_eq!(hostiles[2].health, 100);
}

#[test]
fn spawned_after_rebuild_not_hit_until_next_rebuild() {
    let mut engine = CollisionEngine::new(200, 50, 100);
    let mut hostiles = vec![hostile(1, 0, 0, 100)];
    engine.frame(200, &mut hostiles, &Vec::new());
    // a newcomer spawns strictly after the rebuild
    hostiles.push(hostile(2, 500, 500, 100));
    let projectiles = vec![Projectile { pos: p(500, 500) }];
    let fired = engine.frame(10, &mut hostiles, &projectiles);
    assert!(!fired);
    // the index predates the newcomer: no hit despite a point-blank query
    assert_eq!(hostiles[1].health, 100);
    assert_eq!(hostiles[0].health, 100);
    // once the next rebuild fires, the newcomer is indexed and hit
    let fired = engine.frame(190, &mut hostiles, &projectiles);
    assert!(fired);
    assert_eq!(hostiles[1].health, 0);
}

#[test]
fn stale_identity_hit_silently_dropped() {
    let mut engine = CollisionEngine::new(200, 50, 100);
    let mut hostiles = vec![hostile(1, 100, 100, 100), hostile(2, 1000, 1000, 100)];
    engine.frame(200, &mut hostiles, &Vec::new());
    // id 1 despawns after the rebuild; its record is still indexed
    hostiles.remove(0);
    let projectiles = vec![Projectile { pos: p(100, 100) }];
    let fired = engine.frame(10, &mut hostiles, &projectiles);
    assert!(!fired);
    // the stale record resolves to nothing; the survivor is untouched
    assert_eq!(hostiles.len(), 1);
    assert_eq!(hostiles[0].id, 2);
    assert_eq!(hostiles[0].health, 100);
}

#[test]
fn no_rebuild_keeps_previous_index() {
    let mut engine = CollisionEngine::new(200, 50, 100);
    let mut hostiles = vec![hostile(1, 100, 100, 300)];
    let projectiles = vec![Projectile { pos: p(100, 100) }];
    // first frame fires (fresh clock plus a full interval) and hits
    assert!(engine.frame(200, &mut hostiles, &projectiles));
    assert_eq!(hostiles[0].health, 200);
    // later frames keep querying the same index without rebuilding
    assert!(!engine.frame(16, &mut hostiles, &projectiles));
    assert!(!engine.frame(16, &mut hostiles, &projectiles));
    assert_eq!(hostiles[0].health, 0);
}

#[test]
fn empty_sets_are_valid_degenerate_input() {
    let mut engine = CollisionEngine::new(200, 50, 100);
    let mut hostiles: Vec<Hostile> = Vec::new();
    let fired = engine.frame(200, &mut hostiles, &Vec::new());
    assert!(fired);
    assert!(hostiles.is_empty());
    let mut one = vec![hostile(1, 0, 0, 100)];
    engine.frame(200, &mut one, &Vec::new());
    assert_eq!(one[0].health, 100);
}

#[test]
fn default_engine_configuration() {
    let engine = CollisionEngine::default();
    assert_eq!(engine.interval_ms, bullethell::REBUILD_INTERVAL_MS);
    assert_eq!(engine.radius, bullethell::QUERY_RADIUS);
    assert_eq!(engine.damage, bullethell::BULLET_DAMAGE);
    assert_eq!(engine.clock.elapsed, 0);
    assert!(engine.index.query(p(0, 0), bullethell::QUERY_RADIUS).is_empty());
}
