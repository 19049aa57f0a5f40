use common::asteroid::{Asteroid, AsteroidSeed, Launch};
use common::bullet::Bullet;
use common::frame::{AsteroidStep, BulletStep, Frame, PlayerStep};
use common::game_world::GameWorld;
use common::player::Player;
use common::scalar::Scalar;

fn s(v: f32) -> Scalar {
    Scalar::from_bits(v.to_bits())
}

fn seed() -> AsteroidSeed {
    AsteroidSeed { x: s(850.0), y: s(10.0), vx: s(-1.0), vy: s(0.0) }
}

fn bullet(id: u32, owner_id: u32) -> Bullet {
    Bullet::new(id, owner_id, s(5.0), s(6.0), s(20.0), s(0.0))
}

fn asteroid(id: u32) -> Asteroid {
    Asteroid::new(id, &seed())
}

/// A frame in which nothing moves and nothing overlaps anything.
fn still_frame(w: &GameWorld, player_ids: &[u32]) -> Frame {
    let nb = w.bullets.len();
    let na = w.asteroids.len();
    Frame {
        bullets: w
            .bullets
            .iter()
            .map(|b| BulletStep {
                x: b.x,
                y: b.y,
                distance_traveled: b.distance_traveled,
                asteroids: vec![false; na],
            })
            .collect(),
        asteroids: w
            .asteroids
            .iter()
            .map(|a| AsteroidStep {
                x: a.x,
                y: a.y,
                distance_traveled: a.distance_traveled,
            })
            .collect(),
        players: player_ids
            .iter()
            .map(|id| {
                let p = w.players[id];
                PlayerStep {
                    id: *id,
                    x: p.x,
                    y: p.y,
                    vx: p.vx,
                    vy: p.vy,
                    bullets: vec![false; nb],
                    asteroids: vec![false; na],
                }
            })
            .collect(),
    }
}

fn world_with_players(ids: &[u32]) -> GameWorld {
    let mut w = GameWorld::new();
    for id in ids {
        w.add_player(*id);
    }
    w
}

#[test]
fn new_world_is_empty_and_1600_by_1200() {
    let w = GameWorld::new();
    assert!(w.players.is_empty());
    assert!(w.bullets.is_empty());
    assert!(w.asteroids.is_empty());
    assert_eq!(f32::from_bits(w.width.to_bits()), 1600.0);
    assert_eq!(f32::from_bits(w.height.to_bits()), 1200.0);
    assert_eq!(w.bullet_id_counter, 0);
    assert_eq!(w.asteroid_id_counter, 0);
    assert_eq!(w.last_spawn_asteroid, 0);
}

#[test]
fn new_player_has_default_stats() {
    let p = Player::new(9);
    assert_eq!(p.id, 9);
    assert_eq!(f32::from_bits(p.x.bits), 0.0);
    assert_eq!(f32::from_bits(p.y.bits), 0.0);
    assert_eq!(f32::from_bits(p.rotation.bits), 0.0);
    assert_eq!(f32::from_bits(p.vx.bits), 0.0);
    assert_eq!(f32::from_bits(p.vy.bits), 0.0);
    assert_eq!(p.hp, 100);
    assert_eq!(p.last_shot_ms, 0);
    assert_eq!(p.fire_rate_ms, 200);
    assert_eq!(p.last_processed_input_seq, 0);
}

#[test]
fn new_asteroid_has_radius_one_and_speed_one_and_a_half() {
    let a = asteroid(4);
    assert_eq!(a.id, 4);
    assert_eq!(f32::from_bits(a.x.bits), 850.0);
    assert_eq!(f32::from_bits(a.y.bits), 10.0);
    assert_eq!(f32::from_bits(a.vx.bits), -1.0);
    assert_eq!(f32::from_bits(a.vy.bits), 0.0);
    assert_eq!(f32::from_bits(a.radius.bits), 1.0);
    assert_eq!(f32::from_bits(a.asteroid_speed.bits), 1.5);
    assert_eq!(f32::from_bits(a.distance_traveled.bits), 0.0);
}

#[test]
fn adding_a_player_twice_resets_it() {
    let mut w = world_with_players(&[3]);
    let mut p = w.players[&3];
    p.hp = 40;
    p.last_processed_input_seq = 12;
    w.players.insert(3, p);
    w.add_player(3);
    assert_eq!(w.players.len(), 1);
    assert_eq!(w.players[&3], Player::new(3));
}

#[test]
fn two_bullets_in_one_tick_cost_forty_hit_points() {
    let mut w = world_with_players(&[1, 2]);
    w.bullets.push(bullet(0, 2));
    w.bullets.push(bullet(1, 2));
    w.bullet_id_counter = 2;
    let mut f = still_frame(&w, &[1, 2]);
    f.players[0].bullets = vec![true, true];
    w.update_at(500, &f, &seed());
    assert_eq!(w.players[&1].hp, 60);
    assert_eq!(w.players[&2].hp, 100);
    assert!(w.bullets.is_empty());
}

#[test]
fn a_bullet_does_not_hurt_the_player_that_fired_it() {
    let mut w = world_with_players(&[1]);
    w.bullets.push(bullet(0, 1));
    let mut f = still_frame(&w, &[1]);
    f.players[0].bullets = vec![true];
    w.update_at(500, &f, &seed());
    assert_eq!(w.players[&1].hp, 100);
    assert_eq!(w.bullets.len(), 1);
    assert_eq!(w.bullets[0].id, 0);
}

#[test]
fn a_bullet_that_meets_two_asteroids_and_a_player_leaves_once() {
    let mut w = world_with_players(&[1]);
    w.bullets.push(bullet(0, 7));
    w.bullets.push(bullet(1, 7));
    w.asteroids.push(asteroid(0));
    w.asteroids.push(asteroid(1));
    w.asteroids.push(asteroid(2));
    w.asteroid_id_counter = 3;
    let mut f = still_frame(&w, &[1]);
    f.bullets[0].asteroids = vec![true, true, false];
    f.players[0].bullets = vec![true, false];
    w.update_at(500, &f, &seed());
    assert_eq!(w.bullets.len(), 1);
    assert_eq!(w.bullets[0].id, 1);
    assert_eq!(w.asteroids.len(), 1);
    assert_eq!(w.asteroids[0].id, 2);
    assert_eq!(w.players[&1].hp, 80);
}

#[test]
fn an_asteroid_hurts_a_player_and_is_gone() {
    let mut w = world_with_players(&[1, 2]);
    w.asteroids.push(asteroid(0));
    w.asteroids.push(asteroid(1));
    w.asteroid_id_counter = 2;
    let mut f = still_frame(&w, &[2, 1]);
    f.players[1].asteroids = vec![false, true];
    w.update_at(500, &f, &seed());
    assert_eq!(w.players[&1].hp, 80);
    assert_eq!(w.players[&2].hp, 100);
    assert_eq!(w.asteroids.len(), 1);
    assert_eq!(w.asteroids[0].id, 0);
}

#[test]
fn one_asteroid_over_two_players_hurts_both_and_leaves_once() {
    let mut w = world_with_players(&[1, 2]);
    w.asteroids.push(asteroid(0));
    w.asteroid_id_counter = 1;
    let mut f = still_frame(&w, &[1, 2]);
    f.players[0].asteroids = vec![true];
    f.players[1].asteroids = vec![true];
    w.update_at(500, &f, &seed());
    assert_eq!(w.players[&1].hp, 80);
    assert_eq!(w.players[&2].hp, 80);
    assert!(w.asteroids.is_empty());
}

#[test]
fn what_is_out_of_range_is_dropped_and_hits_nothing() {
    let mut w = world_with_players(&[1]);
    w.bullets.push(bullet(0, 7));
    w.bullets.push(bullet(1, 7));
    w.asteroids.push(asteroid(0));
    w.asteroids.push(asteroid(1));
    w.asteroid_id_counter = 2;
    let mut f = still_frame(&w, &[1]);
    f.bullets[0].distance_traveled = s(1000.0001);
    f.bullets[0].asteroids = vec![false, true];
    f.bullets[1].distance_traveled = s(1000.0);
    f.asteroids[0].distance_traveled = s(1001.5);
    f.asteroids[1].distance_traveled = s(980.0);
    f.players[0].bullets = vec![true, false];
    f.players[0].asteroids = vec![true, false];
    w.update_at(500, &f, &seed());
    assert_eq!(w.bullets.len(), 1);
    assert_eq!(w.bullets[0].id, 1);
    assert_eq!(w.bullets[0].distance_traveled, s(1000.0));
    assert_eq!(w.asteroids.len(), 1);
    assert_eq!(w.asteroids[0].id, 1);
    assert_eq!(w.players[&1].hp, 100);
}

#[test]
fn a_distance_that_is_no_number_ends_the_flight() {
    let mut w = GameWorld::new();
    w.bullets.push(bullet(0, 7));
    w.bullets.push(bullet(1, 7));
    w.bullets.push(bullet(2, 7));
    let mut f = still_frame(&w, &[]);
    f.bullets[0].distance_traveled = s(f32::NAN);
    f.bullets[1].distance_traveled = s(f32::INFINITY);
    f.bullets[2].distance_traveled = s(0.0);
    w.update_at(500, &f, &seed());
    assert_eq!(w.bullets.len(), 1);
    assert_eq!(w.bullets[0].id, 2);
}

#[test]
fn a_player_is_held_within_the_field() {
    let mut w = world_with_players(&[1, 2, 3]);
    let mut f = still_frame(&w, &[1, 2, 3]);
    f.players[0].x = s(800.5);
    f.players[0].y = s(-600.25);
    f.players[1].x = s(-1.0e9);
    f.players[1].y = s(1.0e9);
    f.players[2].x = s(-800.0);
    f.players[2].y = s(599.99);
    w.update_at(500, &f, &seed());
    assert_eq!(w.players[&1].x, s(800.0));
    assert_eq!(w.players[&1].y, s(-600.0));
    assert_eq!(w.players[&2].x, s(-800.0));
    assert_eq!(w.players[&2].y, s(600.0));
    assert_eq!(w.players[&3].x, s(-800.0));
    assert_eq!(w.players[&3].y, s(599.99));
}

#[test]
fn a_player_without_hit_points_is_back_at_once() {
    let mut w = world_with_players(&[1]);
    let mut p = w.players[&1];
    p.hp = 20;
    p.x = s(30.0);
    p.y = s(-4.0);
    p.vx = s(2.0);
    p.vy = s(3.0);
    p.rotation = s(1.25);
    p.last_processed_input_seq = 9;
    w.players.insert(1, p);
    w.asteroids.push(asteroid(0));
    w.asteroid_id_counter = 1;
    let mut f = still_frame(&w, &[1]);
    f.players[0].asteroids = vec![true];
    w.update_at(500, &f, &seed());
    let q = w.players[&1];
    assert_eq!(q.hp, 100);
    assert_eq!(q.x, s(0.0));
    assert_eq!(q.y, s(0.0));
    assert_eq!(q.vx, s(0.0));
    assert_eq!(q.vy, s(0.0));
    assert_eq!(q.rotation, s(1.25));
    assert_eq!(q.last_processed_input_seq, 9);
}

#[test]
fn hit_points_stop_at_zero() {
    let mut w = world_with_players(&[1]);
    let mut p = w.players[&1];
    p.hp = 30;
    w.players.insert(1, p);
    w.bullets.push(bullet(0, 7));
    w.bullets.push(bullet(1, 7));
    w.bullets.push(bullet(2, 7));
    let mut f = still_frame(&w, &[1]);
    f.players[0].bullets = vec![true, true, true];
    w.update_at(500, &f, &seed());
    assert_eq!(w.players[&1].hp, 100);
    assert!(w.bullets.is_empty());
}

#[test]
fn a_tick_takes_over_the_measured_motion() {
    let mut w = world_with_players(&[1]);
    w.bullets.push(bullet(0, 1));
    w.asteroids.push(asteroid(0));
    w.asteroid_id_counter = 1;
    let mut f = still_frame(&w, &[1]);
    f.bullets[0].x = s(25.0);
    f.bullets[0].y = s(6.5);
    f.bullets[0].distance_traveled = s(20.0);
    f.asteroids[0].x = s(848.5);
    f.asteroids[0].distance_traveled = s(1.0);
    f.players[0].x = s(800.0);
    f.players[0].y = s(-600.0);
    f.players[0].vx = s(0.9);
    f.players[0].vy = s(-1.8);
    w.update_at(500, &f, &seed());
    assert_eq!(w.bullets[0].x, s(25.0));
    assert_eq!(w.bullets[0].y, s(6.5));
    assert_eq!(w.bullets[0].vx, s(20.0));
    assert_eq!(w.bullets[0].distance_traveled, s(20.0));
    assert_eq!(w.bullets[0].owner_id, 1);
    assert_eq!(w.asteroids[0].x, s(848.5));
    assert_eq!(w.asteroids[0].vx, s(-1.0));
    assert_eq!(w.asteroids[0].distance_traveled, s(1.0));
    let p = w.players[&1];
    assert_eq!(p.x, s(800.0));
    assert_eq!(p.y, s(-600.0));
    assert_eq!(p.vx, s(0.9));
    assert_eq!(p.vy, s(-1.8));
    assert_eq!(p.hp, 100);
}

#[test]
fn an_asteroid_is_spawned_once_a_second_has_passed() {
    let mut w = world_with_players(&[1]);
    w.last_spawn_asteroid = 5_000;
    w.asteroid_id_counter = 7;
    let f = still_frame(&w, &[1]);
    w.update_at(6_000, &f, &seed());
    assert!(w.asteroids.is_empty());
    assert_eq!(w.last_spawn_asteroid, 5_000);
    assert_eq!(w.asteroid_id_counter, 7);
    let f = still_frame(&w, &[1]);
    w.update_at(6_001, &f, &seed());
    assert_eq!(w.asteroids.len(), 1);
    assert_eq!(w.asteroids[0], Asteroid::new(7, &seed()));
    assert_eq!(w.last_spawn_asteroid, 6_001);
    assert_eq!(w.asteroid_id_counter, 8);
    let f = still_frame(&w, &[1]);
    w.update_at(6_500, &f, &seed());
    assert_eq!(w.asteroids.len(), 1);
    assert_eq!(w.last_spawn_asteroid, 6_001);
}

#[test]
fn a_clock_that_reads_before_the_last_spawn_spawns_nothing() {
    let mut w = GameWorld::new();
    w.last_spawn_asteroid = 5_000;
    let f = still_frame(&w, &[]);
    w.update_at(10, &f, &seed());
    assert!(w.asteroids.is_empty());
    assert_eq!(w.last_spawn_asteroid, 5_000);
}

#[test]
fn the_asteroid_counter_wraps() {
    let mut w = GameWorld::new();
    w.asteroid_id_counter = u32::MAX;
    let f = still_frame(&w, &[]);
    w.update_at(2_000, &f, &seed());
    assert_eq!(w.asteroids[0].id, u32::MAX);
    assert_eq!(w.asteroid_id_counter, 0);
}

#[test]
fn update_reads_the_clock_and_spawns_in_a_new_world() {
    let mut w = world_with_players(&[1]);
    let launch = Launch { along: s(12.0), vx: s(0.6), vy: s(-0.8) };
    assert!(w.update(|w| still_frame(w, &[1]), |_| launch));
    assert_eq!(w.asteroids.len(), 1);
    let a = w.asteroids[0];
    assert_eq!(a.id, 0);
    assert_eq!((a.vx, a.vy), (s(0.6), s(-0.8)));
    let (x, y) = (f32::from_bits(a.x.bits), f32::from_bits(a.y.bits));
    assert!(
        (x == 12.0 && y.abs() == 650.0) || (y == 12.0 && x.abs() == 850.0),
        "appeared at ({x}, {y})"
    );
    assert_eq!(w.asteroid_id_counter, 1);
    assert!(w.last_spawn_asteroid > 1_600_000_000_000);
    assert!(w.update(|w| still_frame(w, &[1]), |_| unreachable!()));
    assert_eq!(w.asteroids.len(), 1);
}

#[test]
fn update_turns_down_a_frame_of_another_world() {
    let mut w = world_with_players(&[1, 2]);
    w.bullets.push(bullet(0, 1));
    let before = w.clone();
    let good = still_frame(&w, &[1, 2]);
    assert!(w.is_measured_by(&good));

    let mut f = good.clone();
    f.bullets.pop();
    assert!(!w.is_measured_by(&f));
    let launch = Launch { along: s(0.0), vx: s(0.0), vy: s(0.0) };
    assert!(!w.update(|_| f.clone(), |_| launch));
    assert_eq!(w, before);

    let mut f = good.clone();
    f.players.pop();
    assert!(!w.is_measured_by(&f));

    let mut f = good.clone();
    f.players[1].id = 1;
    assert!(!w.is_measured_by(&f));

    let mut f = good.clone();
    f.players[1].id = 5;
    assert!(!w.is_measured_by(&f));

    let mut f = good.clone();
    f.players[0].bullets = vec![];
    assert!(!w.is_measured_by(&f));

    let mut f = good.clone();
    f.players[0].asteroids = vec![false];
    assert!(!w.is_measured_by(&f));

    let mut f = good.clone();
    f.bullets[0].asteroids = vec![true];
    assert!(!w.is_measured_by(&f));

    let mut f = good.clone();
    f.asteroids.push(AsteroidStep { x: s(0.0), y: s(0.0), distance_traveled: s(0.0) });
    assert!(!w.is_measured_by(&f));
}

#[test]
fn spawn_is_due_only_after_more_than_the_interval() {
    let mut w = GameWorld::new();
    w.last_spawn_asteroid = 100;
    assert!(!w.is_spawn_due(0));
    assert!(!w.is_spawn_due(100));
    assert!(!w.is_spawn_due(1_100));
    assert!(w.is_spawn_due(1_101));
    assert!(w.is_spawn_due(u64::MAX));
}
