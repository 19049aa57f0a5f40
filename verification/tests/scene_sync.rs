use common::asteroid::{Asteroid, AsteroidSeed};
use common::bullet::Bullet;
use common::game_world::GameWorld;
use common::scalar::Scalar;
use common::scene::{holds, on_snapshot_update, plan_sync, Place, PlayerLook, SyncStep};

fn step(id: u32, create: bool) -> SyncStep {
    SyncStep { id, create }
}

#[test]
fn what_the_snapshot_lacks_is_taken_away() {
    let plan = plan_sync(&vec![5, 1, 9, 3], &vec![3, 4, 5], true);
    assert_eq!(plan.remove, vec![1, 9]);
    assert_eq!(plan.steps, vec![step(3, false), step(4, true), step(5, false)]);
}

#[test]
fn without_pruning_nothing_is_taken_away() {
    let plan = plan_sync(&vec![5, 1, 9, 3], &vec![3, 4, 5], false);
    assert_eq!(plan.remove, vec![]);
    assert_eq!(plan.steps, vec![step(3, false), step(4, true), step(5, false)]);
}

#[test]
fn an_id_named_twice_is_created_once() {
    let plan = plan_sync(&vec![], &vec![7, 7, 8, 7], true);
    assert_eq!(plan.remove, vec![]);
    assert_eq!(plan.steps, vec![step(7, true), step(7, false), step(8, true), step(7, false)]);
}

#[test]
fn an_empty_snapshot_takes_everything_away() {
    let plan = plan_sync(&vec![2, 2, 6], &vec![], true);
    assert_eq!(plan.remove, vec![2, 2, 6]);
    assert_eq!(plan.steps, vec![]);
}

#[test]
fn holds_looks_at_a_prefix() {
    let list = vec![4, 5, 6];
    assert!(holds(&list, 3, 6));
    assert!(!holds(&list, 2, 6));
    assert!(holds(&list, 1, 4));
    assert!(!holds(&list, 0, 4));
    assert!(!holds(&list, 3, 7));
}

#[test]
fn a_snapshot_is_turned_into_three_plans() {
    let zero = Scalar::new_zero();
    let seed = AsteroidSeed { x: zero, y: zero, vx: zero, vy: zero };
    let at = |v: f32| Scalar::from_bits(v.to_bits());
    let seed = AsteroidSeed { x: at(-850.0), y: at(40.0), ..seed };
    let mut w = GameWorld::new();
    w.add_player(1);
    w.add_player(2);
    let mut one = w.players[&1];
    one.x = at(3.0);
    one.y = at(4.0);
    one.rotation = at(0.5);
    one.hp = 40;
    w.players.insert(1, one);
    let mut two = w.players[&2];
    two.x = at(-7.0);
    two.y = at(8.0);
    two.rotation = at(-1.5);
    two.hp = 80;
    w.players.insert(2, two);
    w.bullets.push(Bullet::new(10, 1, at(1.0), at(2.0), zero, zero));
    w.bullets.push(Bullet::new(11, 1, at(5.0), at(6.0), zero, zero));
    w.asteroids.push(Asteroid::new(20, &seed));
    let plan = on_snapshot_update(&vec![1, 99], &vec![9, 10], &vec![21], &w);
    assert_eq!(plan.players.remove, vec![]);
    assert_eq!(plan.player_looks.len(), 2);
    let mut players: Vec<(SyncStep, PlayerLook)> =
        plan.players.steps.iter().copied().zip(plan.player_looks.iter().copied()).collect();
    players.sort_by_key(|(s, _)| s.id);
    assert_eq!(
        players,
        vec![
            (step(1, false), PlayerLook { x: at(3.0), y: at(4.0), rotation: at(0.5), hp: 40 }),
            (step(2, true), PlayerLook { x: at(-7.0), y: at(8.0), rotation: at(-1.5), hp: 80 }),
        ]
    );
    assert_eq!(plan.bullets.remove, vec![9]);
    assert_eq!(plan.bullets.steps, vec![step(10, false), step(11, true)]);
    assert_eq!(
        plan.bullet_places,
        vec![Place { x: at(1.0), y: at(2.0) }, Place { x: at(5.0), y: at(6.0) }]
    );
    assert_eq!(plan.asteroids.remove, vec![21]);
    assert_eq!(plan.asteroids.steps, vec![step(20, true)]);
    assert_eq!(plan.asteroid_places, vec![Place { x: at(-850.0), y: at(40.0) }]);
    assert_eq!(PlayerLook::from_player(&two), players[1].1);
    let mut ids = w.player_ids();
    ids.sort();
    assert_eq!(ids, vec![1, 2]);
    assert_eq!(w.bullet_ids(), vec![10, 11]);
    assert_eq!(w.asteroid_ids(), vec![20]);
}
