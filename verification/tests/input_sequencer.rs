use common::bullet::Bullet;
use common::frame::Steering;
use common::game_world::GameWorld;
use common::packet::{InputAction, PlayerInput};
use common::scalar::Scalar;

fn s(v: f32) -> Scalar {
    Scalar::from_bits(v.to_bits())
}

fn steer() -> Steering {
    Steering {
        left: s(-0.05),
        right: s(0.05),
        thrust_vx: s(1.0),
        thrust_vy: s(0.5),
        muzzle_vx: s(20.0),
        muzzle_vy: s(0.25),
    }
}

fn input(id: u32, seq: u32, action: InputAction) -> PlayerInput {
    PlayerInput { id, seq, action }
}

fn world() -> GameWorld {
    let mut w = GameWorld::new();
    w.add_player(1);
    w.add_player(2);
    w
}

#[test]
fn an_input_for_an_unknown_player_is_ignored() {
    let mut w = world();
    let before = w.clone();
    w.apply_input_at(9, &input(9, 1, InputAction::Shoot), 10_000, &steer());
    assert_eq!(w, before);
}

#[test]
fn a_stale_input_is_ignored() {
    let mut w = world();
    w.apply_input_at(1, &input(1, 7, InputAction::RotateLeft), 10_000, &steer());
    assert_eq!(w.players[&1].last_processed_input_seq, 7);
    let before = w.clone();
    w.apply_input_at(1, &input(1, 3, InputAction::Thrust), 10_000, &steer());
    assert_eq!(w, before);
    assert_eq!(w.players[&1].last_processed_input_seq, 7);
}

#[test]
fn a_repeated_input_is_ignored() {
    let mut w = world();
    w.apply_input_at(1, &input(1, 4, InputAction::Shoot), 10_000, &steer());
    let once = w.clone();
    w.apply_input_at(1, &input(1, 4, InputAction::Shoot), 20_000, &steer());
    assert_eq!(w, once);
    assert_eq!(w.bullets.len(), 1);
}

#[test]
fn sequence_number_zero_is_never_taken() {
    let mut w = world();
    let before = w.clone();
    w.apply_input_at(1, &input(1, 0, InputAction::Hello), 10_000, &steer());
    assert_eq!(w, before);
}

#[test]
fn turns_take_the_heading_from_the_steering() {
    let mut w = world();
    w.apply_input_at(1, &input(1, 1, InputAction::RotateLeft), 10_000, &steer());
    assert_eq!(w.players[&1].rotation, s(-0.05));
    assert_eq!(w.players[&1].last_processed_input_seq, 1);
    w.apply_input_at(1, &input(1, 2, InputAction::RotateRight), 10_000, &steer());
    assert_eq!(w.players[&1].rotation, s(0.05));
    assert_eq!(w.players[&1].last_processed_input_seq, 2);
    assert_eq!(w.players[&1].vx, s(0.0));
    assert_eq!(w.players[&2].last_processed_input_seq, 0);
    assert!(w.bullets.is_empty());
}

#[test]
fn a_thrust_takes_the_velocity_from_the_steering() {
    let mut w = world();
    w.apply_input_at(2, &input(2, 1, InputAction::Thrust), 10_000, &steer());
    let p = w.players[&2];
    assert_eq!(p.vx, s(1.0));
    assert_eq!(p.vy, s(0.5));
    assert_eq!(p.rotation, s(0.0));
    assert_eq!(p.last_processed_input_seq, 1);
}

#[test]
fn a_keepalive_only_counts_as_processed() {
    let mut w = world();
    let mut expected = w.clone();
    w.apply_input_at(1, &input(1, 5, InputAction::Hello), 10_000, &steer());
    let mut p = expected.players[&1];
    p.last_processed_input_seq = 5;
    expected.players.insert(1, p);
    assert_eq!(w, expected);
}

#[test]
fn a_shot_puts_a_bullet_where_the_player_stands() {
    let mut w = world();
    let mut p = w.players[&2];
    p.x = s(12.0);
    p.y = s(-7.0);
    w.players.insert(2, p);
    w.bullet_id_counter = 41;
    w.apply_input_at(2, &input(2, 1, InputAction::Shoot), 10_000, &steer());
    assert_eq!(w.bullets.len(), 1);
    assert_eq!(w.bullets[0], Bullet::new(41, 2, s(12.0), s(-7.0), s(20.0), s(0.25)));
    assert_eq!(f32::from_bits(w.bullets[0].distance_traveled.bits), 0.0);
    assert_eq!(w.bullet_id_counter, 42);
    assert_eq!(w.players[&2].last_shot_ms, 10_000);
    assert_eq!(w.players[&2].last_processed_input_seq, 1);
}

#[test]
fn a_second_shot_within_the_cooldown_adds_no_bullet() {
    let mut w = world();
    w.apply_input_at(1, &input(1, 5, InputAction::Shoot), 10_000, &steer());
    w.apply_input_at(1, &input(1, 6, InputAction::Shoot), 10_100, &steer());
    assert_eq!(w.bullets.len(), 1);
    assert_eq!(w.bullet_id_counter, 1);
    assert_eq!(w.players[&1].last_shot_ms, 10_000);
    assert_eq!(w.players[&1].last_processed_input_seq, 6);
}

#[test]
fn the_cooldown_ends_exactly_at_the_fire_rate() {
    let mut w = world();
    w.apply_input_at(1, &input(1, 1, InputAction::Shoot), 10_000, &steer());
    w.apply_input_at(1, &input(1, 2, InputAction::Shoot), 10_199, &steer());
    assert_eq!(w.bullets.len(), 1);
    w.apply_input_at(1, &input(1, 3, InputAction::Shoot), 10_200, &steer());
    assert_eq!(w.bullets.len(), 2);
    assert_eq!(w.bullets[1].id, 1);
    assert_eq!(w.players[&1].last_shot_ms, 10_200);
}

#[test]
fn a_fresh_player_cannot_shoot_before_its_fire_rate_has_passed_on_the_clock() {
    let mut w = world();
    w.apply_input_at(1, &input(1, 1, InputAction::Shoot), 199, &steer());
    assert!(w.bullets.is_empty());
    assert_eq!(w.players[&1].last_processed_input_seq, 1);
    w.apply_input_at(1, &input(1, 2, InputAction::Shoot), 200, &steer());
    assert_eq!(w.bullets.len(), 1);
}

#[test]
fn a_cooldown_beyond_the_end_of_time_never_ends() {
    let mut w = world();
    let mut p = w.players[&1];
    p.last_shot_ms = u64::MAX - 10;
    w.players.insert(1, p);
    w.apply_input_at(1, &input(1, 1, InputAction::Shoot), u64::MAX, &steer());
    assert!(w.bullets.is_empty());
    assert_eq!(w.players[&1].last_processed_input_seq, 1);
}

#[test]
fn the_bullet_counter_wraps() {
    let mut w = world();
    w.bullet_id_counter = u32::MAX;
    w.apply_input_at(1, &input(1, 1, InputAction::Shoot), 10_000, &steer());
    assert_eq!(w.bullets[0].id, u32::MAX);
    assert_eq!(w.bullet_id_counter, 0);
}

#[test]
fn the_processed_sequence_number_never_falls() {
    let mut w = world();
    let seqs = [3u32, 1, 3, 8, 2, 8, 9, 0, 20, 19];
    let mut last = 0;
    for seq in seqs {
        w.apply_input_at(1, &input(1, seq, InputAction::Hello), 10_000, &steer());
        let now = w.players[&1].last_processed_input_seq;
        assert!(now >= last);
        assert_eq!(now, if seq > last { seq } else { last });
        last = now;
    }
    assert_eq!(last, 20);
    assert_eq!(w.players[&2].last_processed_input_seq, 0);
}

#[test]
fn apply_input_reads_the_clock_for_a_shot() {
    let mut w = world();
    w.apply_input(1, &input(1, 1, InputAction::Shoot), &steer());
    assert_eq!(w.bullets.len(), 1);
    assert!(w.players[&1].last_shot_ms > 1_600_000_000_000);
    w.apply_input(1, &input(1, 2, InputAction::RotateLeft), &steer());
    assert_eq!(w.players[&1].rotation, s(-0.05));
    assert_eq!(w.players[&1].last_processed_input_seq, 2);
}

#[test]
fn every_code_names_its_action() {
    assert_eq!(InputAction::get_action_from_code(1), InputAction::RotateLeft);
    assert_eq!(InputAction::get_action_from_code(2), InputAction::RotateRight);
    assert_eq!(InputAction::get_action_from_code(3), InputAction::Thrust);
    assert_eq!(InputAction::get_action_from_code(4), InputAction::Shoot);
    assert_eq!(InputAction::get_action_from_code(5), InputAction::Hello);
    assert_eq!(InputAction::get_action_from_code(0), InputAction::Hello);
    assert_eq!(InputAction::get_action_from_code(6), InputAction::Hello);
    assert_eq!(InputAction::get_action_from_code(u32::MAX), InputAction::Hello);
}
