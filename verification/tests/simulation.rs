use common::asteroid::{AsteroidSeed, Edge, Launch, SpawnPlan};
use common::frame::{
    AsteroidStep, BulletStep, Frame, PlayerStep, Steering, ASTEROID_PLAYER_REACH_BITS,
    BULLET_ASTEROID_REACH_BITS, BULLET_PLAYER_REACH_BITS, BULLET_SPEED_BITS, FRICTION_BITS,
    THRUST_BITS, TURN_STEP_BITS,
};
use common::game_world::{Bounds, GameWorld};
use common::packet::{InputAction, PlayerInput};
use common::player::Player;
use common::scalar::Scalar;

fn num(s: Scalar) -> f32 {
    f32::from_bits(s.to_bits())
}

fn scalar(v: f32) -> Scalar {
    Scalar::from_bits(v.to_bits())
}

fn fixed(bits: u32) -> f32 {
    f32::from_bits(bits)
}

fn steering_for(p: &Player) -> Steering {
    let heading = num(p.rotation);
    Steering {
        left: scalar(heading - fixed(TURN_STEP_BITS)),
        right: scalar(heading + fixed(TURN_STEP_BITS)),
        thrust_vx: scalar(num(p.vx) + fixed(THRUST_BITS) * heading.cos()),
        thrust_vy: scalar(num(p.vy) + fixed(THRUST_BITS) * heading.sin()),
        muzzle_vx: scalar(fixed(BULLET_SPEED_BITS) * heading.cos()),
        muzzle_vy: scalar(fixed(BULLET_SPEED_BITS) * heading.sin()),
    }
}

fn overlap(ax: f32, ay: f32, bx: f32, by: f32, reach: f32) -> bool {
    let (dx, dy) = (ax - bx, ay - by);
    dx * dx + dy * dy < reach * reach
}

fn measure(world: &GameWorld) -> Frame {
    let asteroid_at: Vec<(f32, f32, f32)> = world
        .asteroids
        .iter()
        .map(|a| {
            let speed = num(a.asteroid_speed);
            let (dx, dy) = (num(a.vx) * speed, num(a.vy) * speed);
            (num(a.x) + dx, num(a.y) + dy, num(a.distance_traveled) + dx.hypot(dy))
        })
        .collect();
    let bullet_at: Vec<(f32, f32, f32)> = world
        .bullets
        .iter()
        .map(|b| {
            let (dx, dy) = (num(b.vx), num(b.vy));
            (num(b.x) + dx, num(b.y) + dy, num(b.distance_traveled) + dx.hypot(dy))
        })
        .collect();
    let field = Bounds::playing_field();
    Frame {
        bullets: bullet_at
            .iter()
            .map(|&(x, y, covered)| BulletStep {
                x: scalar(x),
                y: scalar(y),
                distance_traveled: scalar(covered),
                asteroids: asteroid_at
                    .iter()
                    .map(|&(ax, ay, _)| overlap(x, y, ax, ay, fixed(BULLET_ASTEROID_REACH_BITS)))
                    .collect(),
            })
            .collect(),
        asteroids: asteroid_at
            .iter()
            .map(|&(x, y, covered)| AsteroidStep {
                x: scalar(x),
                y: scalar(y),
                distance_traveled: scalar(covered),
            })
            .collect(),
        players: world
            .player_ids()
            .into_iter()
            .map(|id| {
                let p = &world.players[&id];
                let x = scalar(num(p.x) + num(p.vx));
                let y = scalar(num(p.y) + num(p.vy));
                let (px, py) = (num(field.hold_x(x)), num(field.hold_y(y)));
                PlayerStep {
                    id,
                    x,
                    y,
                    vx: scalar(num(p.vx) * fixed(FRICTION_BITS)),
                    vy: scalar(num(p.vy) * fixed(FRICTION_BITS)),
                    bullets: bullet_at
                        .iter()
                        .map(|&(bx, by, _)| overlap(bx, by, px, py, fixed(BULLET_PLAYER_REACH_BITS)))
                        .collect(),
                    asteroids: asteroid_at
                        .iter()
                        .map(|&(ax, ay, _)| overlap(ax, ay, px, py, fixed(ASTEROID_PLAYER_REACH_BITS)))
                        .collect(),
                }
            })
            .collect(),
    }
}

fn seed_for(plan: SpawnPlan, along: f32) -> AsteroidSeed {
    let (x, y) = plan.place(scalar(along));
    let (tx, ty) = plan.aim();
    let (dx, dy) = (num(tx) - num(x), num(ty) - num(y));
    let distance = (dx * dx + dy * dy).sqrt();
    plan.seed(scalar(along), scalar(dx / distance), scalar(dy / distance))
}

fn launch_for(plan: SpawnPlan) -> Launch {
    let along = 0.25 * num(plan.edge_half_length());
    let seed = seed_for(plan, along);
    Launch { along: scalar(along), vx: seed.vx, vy: seed.vy }
}

fn far_seed() -> AsteroidSeed {
    seed_for(SpawnPlan { edge: Edge::Top, target: 0 }, 0.0)
}

fn send(w: &mut GameWorld, id: u32, seq: u32, action: InputAction, now: u64) {
    let steer = steering_for(&w.players[&id]);
    w.apply_input_at(id, &PlayerInput { id, seq, action }, now, &steer);
}

fn tick(w: &mut GameWorld, now: u64) {
    let frame = measure(w);
    assert!(w.is_measured_by(&frame));
    w.update_at(now, &frame, &far_seed());
}

/// A world whose spawn timer never fires in the tests that use it.
fn quiet_world(ids: &[u32]) -> GameWorld {
    let mut w = GameWorld::new();
    w.last_spawn_asteroid = u64::MAX;
    for id in ids {
        w.add_player(*id);
    }
    w
}

#[test]
fn a_bullet_flies_a_thousand_and_is_gone_beyond() {
    let mut w = quiet_world(&[1]);
    send(&mut w, 1, 1, InputAction::Shoot, 1_000);
    assert_eq!(w.bullets.len(), 1);
    assert_eq!(num(w.bullets[0].vx), 20.0);
    assert_eq!(num(w.bullets[0].vy), 0.0);
    for step in 1..=50 {
        tick(&mut w, 1_000 + step);
        assert_eq!(w.bullets.len(), 1, "after {step} ticks");
        assert_eq!(num(w.bullets[0].x), 20.0 * step as f32);
        assert_eq!(num(w.bullets[0].distance_traveled), 20.0 * step as f32);
    }
    assert_eq!(num(w.bullets[0].distance_traveled), 1000.0);
    assert_eq!(w.players[&1].hp, 100);
    tick(&mut w, 1_051);
    assert!(w.bullets.is_empty());
}

#[test]
fn a_bullet_hits_the_player_in_its_way() {
    let mut w = quiet_world(&[1, 2]);
    let mut target = w.players[&2];
    target.x = scalar(100.0);
    target.y = scalar(5.0);
    w.players.insert(2, target);
    send(&mut w, 1, 1, InputAction::Shoot, 1_000);
    for step in 1..=4 {
        tick(&mut w, 1_000 + step);
        assert_eq!(w.bullets.len(), 1);
        assert_eq!(w.players[&2].hp, 100);
    }
    tick(&mut w, 1_005);
    assert!(w.bullets.is_empty());
    assert_eq!(w.players[&2].hp, 80);
    assert_eq!(w.players[&1].hp, 100);
}

#[test]
fn five_hits_bring_a_player_back_to_the_origin() {
    let mut w = quiet_world(&[1, 2]);
    let mut target = w.players[&2];
    target.x = scalar(30.0);
    w.players.insert(2, target);
    for round in 0..5u32 {
        assert_eq!(w.players[&2].hp, 100 - 20 * round as u16);
        send(&mut w, 1, round + 1, InputAction::Shoot, 1_000 + 200 * round as u64);
        tick(&mut w, 1_000 + 200 * round as u64);
        assert!(w.bullets.is_empty());
    }
    let p = w.players[&2];
    assert_eq!(p.hp, 100);
    assert_eq!((num(p.x), num(p.y), num(p.vx), num(p.vy)), (0.0, 0.0, 0.0, 0.0));
}

#[test]
fn a_player_speeds_up_slows_down_and_stops_at_the_border() {
    let mut w = quiet_world(&[1]);
    send(&mut w, 1, 1, InputAction::Thrust, 0);
    assert_eq!(num(w.players[&1].vx), 1.0);
    tick(&mut w, 1);
    assert_eq!(num(w.players[&1].x), 1.0);
    assert_eq!(num(w.players[&1].vx), 0.9);
    tick(&mut w, 2);
    assert_eq!(num(w.players[&1].x), 1.9);
    assert_eq!(num(w.players[&1].vx), 0.9f32 * 0.9f32);
    let mut p = w.players[&1];
    p.x = scalar(795.0);
    p.vx = scalar(50.0);
    p.y = scalar(-599.0);
    p.vy = scalar(-3.0);
    w.players.insert(1, p);
    tick(&mut w, 3);
    assert_eq!(num(w.players[&1].x), 800.0);
    assert_eq!(num(w.players[&1].y), -600.0);
    assert_eq!(num(w.players[&1].vx), 45.0);
}

#[test]
fn turning_changes_where_the_bullet_goes() {
    let mut w = quiet_world(&[1]);
    send(&mut w, 1, 1, InputAction::RotateLeft, 0);
    send(&mut w, 1, 2, InputAction::RotateLeft, 0);
    send(&mut w, 1, 3, InputAction::RotateRight, 0);
    assert_eq!(num(w.players[&1].rotation), 0.0f32 - 0.05 - 0.05 + 0.05);
    send(&mut w, 1, 4, InputAction::Shoot, 1_000);
    let heading = num(w.players[&1].rotation);
    assert_eq!(num(w.bullets[0].vx), 20.0 * heading.cos());
    assert_eq!(num(w.bullets[0].vy), 20.0 * heading.sin());
    assert!(num(w.bullets[0].vy) < 0.0);
}

#[test]
fn an_asteroid_drifts_towards_its_target_and_is_shot() {
    let mut w = quiet_world(&[1]);
    w.last_spawn_asteroid = 0;
    let plan = SpawnPlan { edge: Edge::Right, target: 0 };
    let seed = seed_for(plan, 0.0);
    assert_eq!((num(seed.x), num(seed.y), num(seed.vx), num(seed.vy)), (850.0, 0.0, -1.0, 0.0));
    let frame = measure(&w);
    w.update_at(5_000, &frame, &seed);
    assert_eq!(w.asteroids.len(), 1);
    assert_eq!(w.last_spawn_asteroid, 5_000);
    w.last_spawn_asteroid = u64::MAX;
    tick(&mut w, 5_001);
    assert_eq!(num(w.asteroids[0].x), 848.5);
    assert_eq!(num(w.asteroids[0].distance_traveled), 1.5);
    send(&mut w, 1, 1, InputAction::Shoot, 5_002);
    let mut ticks = 0;
    while !w.bullets.is_empty() {
        tick(&mut w, 5_003 + ticks);
        ticks += 1;
        assert!(ticks <= 50);
    }
    assert!(w.asteroids.is_empty());
    assert_eq!(ticks, 39);
    assert_eq!(w.players[&1].hp, 100);
}

#[test]
fn an_asteroid_wears_out_after_a_thousand() {
    let mut w = quiet_world(&[]);
    w.last_spawn_asteroid = 0;
    let seed = seed_for(SpawnPlan { edge: Edge::Left, target: 0 }, 0.0);
    let frame = measure(&w);
    w.update_at(5_000, &frame, &seed);
    w.last_spawn_asteroid = u64::MAX;
    for step in 1..=666 {
        tick(&mut w, 5_000 + step);
        assert_eq!(w.asteroids.len(), 1, "after {step} ticks");
    }
    tick(&mut w, 5_667);
    assert!(w.asteroids.is_empty());
}

#[test]
fn an_asteroid_hurts_the_player_it_reaches() {
    let mut w = quiet_world(&[1]);
    w.last_spawn_asteroid = 0;
    let seed = seed_for(SpawnPlan { edge: Edge::Top, target: 0 }, 0.0);
    let frame = measure(&w);
    w.update_at(5_000, &frame, &seed);
    w.last_spawn_asteroid = u64::MAX;
    let mut ticks = 0;
    while !w.asteroids.is_empty() {
        tick(&mut w, 5_001 + ticks);
        ticks += 1;
        assert!(ticks <= 667);
    }
    assert_eq!(ticks, 414);
    assert_eq!(w.players[&1].hp, 80);
}

#[test]
fn inputs_are_applied_in_the_order_of_their_arrival() {
    let mut w = quiet_world(&[1, 2]);
    let inputs = vec![
        PlayerInput { id: 1, seq: 1, action: InputAction::RotateRight },
        PlayerInput { id: 2, seq: 1, action: InputAction::Thrust },
        PlayerInput { id: 1, seq: 2, action: InputAction::Thrust },
        PlayerInput { id: 9, seq: 1, action: InputAction::Thrust },
        PlayerInput { id: 1, seq: 2, action: InputAction::RotateRight },
        PlayerInput { id: 1, seq: 3, action: InputAction::Shoot },
    ];
    w.apply_inputs(&inputs, |p| steering_for(&p));
    let one = w.players[&1];
    assert_eq!(num(one.rotation), 0.05);
    assert_eq!(num(one.vx), 0.05f32.cos());
    assert_eq!(num(one.vy), 0.05f32.sin());
    assert_eq!(one.last_processed_input_seq, 3);
    let two = w.players[&2];
    assert_eq!((num(two.vx), num(two.vy)), (1.0, 0.0));
    assert_eq!(two.last_processed_input_seq, 1);
    assert_eq!(w.players.len(), 2);
    assert_eq!(w.bullets.len(), 1);
    assert_eq!(num(w.bullets[0].vx), 20.0 * 0.05f32.cos());
    assert!(one.last_shot_ms > 1_600_000_000_000);
}

#[test]
fn a_tick_joins_applies_shows_and_advances() {
    let mut w = GameWorld::new();
    w.last_spawn_asteroid = u64::MAX;
    let inputs = vec![
        PlayerInput { id: 1, seq: 1, action: InputAction::Thrust },
        PlayerInput { id: 2, seq: 1, action: InputAction::Shoot },
        PlayerInput { id: 3, seq: 1, action: InputAction::Thrust },
    ];
    let t = w.tick(&vec![1, 2], &inputs, |p| steering_for(&p), measure, launch_for);
    assert!(t.advanced);
    let shown = GameWorld::decode(&t.snapshot).unwrap();
    assert_eq!(shown.players.len(), 2);
    assert_eq!((num(shown.players[&1].x), num(shown.players[&1].vx)), (0.0, 1.0));
    assert_eq!(shown.players[&1].last_processed_input_seq, 1);
    assert_eq!(shown.bullets.len(), 1);
    assert_eq!(num(shown.bullets[0].x), 0.0);
    assert!(shown.asteroids.is_empty());
    assert_eq!(shown.players[&1].hp, 100);
    assert_eq!((num(w.players[&1].x), num(w.players[&1].vx)), (1.0, 0.9));
    assert!(w.bullets.is_empty());
    assert_eq!(w.players[&1].hp, 80);
    assert_eq!(w.players[&2].hp, 100);

    let t = w.tick(&vec![], &vec![], |p| steering_for(&p), measure, launch_for);
    assert!(t.advanced);
    let shown = GameWorld::decode(&t.snapshot).unwrap();
    assert!(shown.bullets.is_empty());
    assert_eq!(shown.players[&1].hp, 80);
    assert_eq!(num(shown.players[&1].x), 1.0);
    assert_eq!(num(w.players[&1].x), 1.9);
}

#[test]
fn a_tick_spawns_an_asteroid_outside_the_field_when_one_is_due() {
    let mut w = GameWorld::new();
    let field = Bounds::playing_field();
    for round in 1..=20u32 {
        w.last_spawn_asteroid = 0;
        let t = w.tick(&vec![], &vec![], |p| steering_for(&p), measure, launch_for);
        assert!(t.advanced);
        assert_eq!(GameWorld::decode(&t.snapshot).unwrap().asteroids.len() as u32, round - 1);
        assert_eq!(w.asteroids.len() as u32, round);
        let a = w.asteroids[round as usize - 1];
        assert_eq!(a.id, round - 1);
        assert!(!field.contains(a.x, a.y));
        let length = num(a.vx).hypot(num(a.vy));
        assert!((length - 1.0).abs() < 1.0e-6);
    }
    assert!(w.last_spawn_asteroid > 1_600_000_000_000);
    let t = w.tick(&vec![], &vec![], |p| steering_for(&p), measure, |_| unreachable!());
    assert!(t.advanced);
    assert_eq!(w.asteroids.len(), 20);
}

#[test]
fn a_tick_with_a_frame_of_another_world_shows_but_does_not_advance() {
    let mut w = quiet_world(&[1]);
    let inputs = vec![PlayerInput { id: 1, seq: 4, action: InputAction::Hello }];
    let empty = |_: &GameWorld| Frame { bullets: vec![], asteroids: vec![], players: vec![] };
    let t = w.tick(&vec![5], &inputs, |p| steering_for(&p), empty, launch_for);
    assert!(!t.advanced);
    assert_eq!(GameWorld::decode(&t.snapshot).unwrap(), w);
    assert_eq!(w.players.len(), 2);
    assert_eq!(w.players[&1].last_processed_input_seq, 4);
}
