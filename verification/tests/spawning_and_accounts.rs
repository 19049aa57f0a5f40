use common::asteroid::{Edge, SpawnPlan, SPAWN_TARGETS};
use common::auth::{
    has_unique, login, login_outcome, register, registration_outcome, AppError, AuthResponse,
    GetServerListResponse, LoginRequest, RegisterReqeust, User, HASH_COST,
};
use common::game_world::Bounds;
use common::frame::{
    ASTEROID_PLAYER_REACH_BITS, BULLET_ASTEROID_REACH_BITS, BULLET_PLAYER_REACH_BITS,
    BULLET_SPEED_BITS, FRICTION_BITS, MAX_RANGE_BITS, THRUST_BITS, TURN_STEP_BITS,
};
use common::scalar::{
    Scalar, EIGHT_HUNDRED_FIFTY_BITS, FIFTY_BITS, HUNDRED_BITS, ONE_AND_HALF_BITS, ONE_BITS,
    SIXTEEN_HUNDRED_BITS, SIX_HUNDRED_FIFTY_BITS, THIRTY_BITS, TWELVE_HUNDRED_BITS, TWENTY_BITS,
    TWO_HUNDRED_BITS,
};

fn s(v: f32) -> Scalar {
    Scalar::from_bits(v.to_bits())
}

#[test]
fn the_named_bit_patterns_are_those_of_the_numbers() {
    assert_eq!(f32::from_bits(ONE_BITS), 1.0);
    assert_eq!(f32::from_bits(ONE_AND_HALF_BITS), 1.5);
    assert_eq!(f32::from_bits(TWELVE_HUNDRED_BITS), 1200.0);
    assert_eq!(f32::from_bits(SIXTEEN_HUNDRED_BITS), 1600.0);
    assert_eq!(f32::from_bits(TWENTY_BITS), 20.0);
    assert_eq!(f32::from_bits(THIRTY_BITS), 30.0);
    assert_eq!(f32::from_bits(FIFTY_BITS), 50.0);
    assert_eq!(f32::from_bits(HUNDRED_BITS), 100.0);
    assert_eq!(f32::from_bits(TWO_HUNDRED_BITS), 200.0);
    assert_eq!(f32::from_bits(SIX_HUNDRED_FIFTY_BITS), 650.0);
    assert_eq!(f32::from_bits(EIGHT_HUNDRED_FIFTY_BITS), 850.0);
    assert_eq!(Scalar::new_zero().to_bits(), 0.0f32.to_bits());
    assert_eq!(Scalar::from_bits(7).to_bits(), 7);
}

#[test]
fn bounds_hold_four_borders() {
    let b = Bounds {
        west: Scalar::from_bits((-800.0f32).to_bits()),
        east: Scalar::from_bits(800.0f32.to_bits()),
        north: Scalar::from_bits(600.0f32.to_bits()),
        south: Scalar::from_bits((-600.0f32).to_bits()),
    };
    assert_eq!(f32::from_bits(b.west.bits), -800.0);
    assert_eq!(f32::from_bits(b.south.bits), -600.0);
}

#[test]
fn the_quantities_of_the_rules() {
    assert_eq!(f32::from_bits(MAX_RANGE_BITS), 1000.0);
    assert_eq!(f32::from_bits(TURN_STEP_BITS), 0.05);
    assert_eq!(f32::from_bits(THRUST_BITS), 1.0);
    assert_eq!(f32::from_bits(BULLET_SPEED_BITS), 20.0);
    assert_eq!(f32::from_bits(FRICTION_BITS), 0.9);
    assert_eq!(f32::from_bits(BULLET_ASTEROID_REACH_BITS), 30.0);
    assert_eq!(f32::from_bits(BULLET_PLAYER_REACH_BITS), 20.0);
    assert_eq!(f32::from_bits(ASTEROID_PLAYER_REACH_BITS), 30.0);
}

#[test]
fn an_asteroid_appears_fifty_beyond_its_edge() {
    let plan = |edge, target| SpawnPlan { edge, target };
    assert_eq!(plan(Edge::Top, 0).place(s(-12.5)), (s(-12.5), s(650.0)));
    assert_eq!(plan(Edge::Bottom, 0).place(s(799.0)), (s(799.0), s(-650.0)));
    assert_eq!(plan(Edge::Left, 0).place(s(-600.0)), (s(-850.0), s(-600.0)));
    assert_eq!(plan(Edge::Right, 0).place(s(3.0)), (s(850.0), s(3.0)));
    assert_eq!(plan(Edge::Top, 0).edge_half_length(), s(800.0));
    assert_eq!(plan(Edge::Bottom, 0).edge_half_length(), s(800.0));
    assert_eq!(plan(Edge::Left, 0).edge_half_length(), s(600.0));
    assert_eq!(plan(Edge::Right, 0).edge_half_length(), s(600.0));
    let field = Bounds::playing_field();
    for edge in [Edge::Top, Edge::Bottom, Edge::Left, Edge::Right] {
        for along in [-800.0f32, -1.0, 0.0, 599.0, 799.9, f32::NAN] {
            let (x, y) = plan(edge, 1).place(s(along));
            assert!(!field.contains(x, y));
        }
    }
    assert!(field.contains(s(0.0), s(0.0)));
    assert!(field.contains(s(800.0), s(-600.0)));
    assert!(field.contains(s(-800.0), s(600.0)));
    assert!(!field.contains(s(800.1), s(0.0)));
    assert!(!field.contains(s(0.0), s(-600.1)));
    assert!(!field.contains(s(f32::NAN), s(0.0)));
}

#[test]
fn an_asteroid_is_aimed_at_one_of_three_points() {
    let plan = |target| SpawnPlan { edge: Edge::Left, target };
    assert_eq!(plan(0).aim(), (s(0.0), s(0.0)));
    assert_eq!(plan(1).aim(), (s(100.0), s(50.0)));
    assert_eq!(plan(2).aim(), (s(-200.0), s(-100.0)));
    let seed = plan(2).seed(s(40.0), s(0.6), s(-0.8));
    assert_eq!((seed.x, seed.y, seed.vx, seed.vy), (s(-850.0), s(40.0), s(0.6), s(-0.8)));
}

#[test]
fn a_plan_is_made_of_two_drawn_numbers() {
    assert_eq!(SpawnPlan::from_draws(0, 2), SpawnPlan { edge: Edge::Top, target: 2 });
    assert_eq!(SpawnPlan::from_draws(1, 0), SpawnPlan { edge: Edge::Bottom, target: 0 });
    assert_eq!(SpawnPlan::from_draws(2, 1), SpawnPlan { edge: Edge::Left, target: 1 });
    assert_eq!(SpawnPlan::from_draws(3, 1), SpawnPlan { edge: Edge::Right, target: 1 });
}

#[test]
fn edges_are_numbered() {
    assert_eq!(Edge::from_side(0), Edge::Top);
    assert_eq!(Edge::from_side(1), Edge::Bottom);
    assert_eq!(Edge::from_side(2), Edge::Left);
    assert_eq!(Edge::from_side(3), Edge::Right);
}

#[test]
fn a_drawn_plan_names_a_target_and_every_edge_comes_up() {
    let mut edges = [false; 4];
    let mut targets = [false; 3];
    for _ in 0..2_000 {
        let plan = SpawnPlan::draw();
        assert!(plan.target < SPAWN_TARGETS);
        targets[plan.target as usize] = true;
        let side = match plan.edge {
            Edge::Top => 0,
            Edge::Bottom => 1,
            Edge::Left => 2,
            Edge::Right => 3,
        };
        edges[side] = true;
    }
    assert_eq!(edges, [true; 4]);
    assert_eq!(targets, [true; 3]);
}

#[test]
fn every_error_has_its_status() {
    assert_eq!(AppError::BadRequest("a".to_string()).status_code(), 400);
    assert_eq!(AppError::Unauthorized("b".to_string()).status_code(), 401);
    assert_eq!(AppError::NotFound("c".to_string()).status_code(), 404);
    assert_eq!(AppError::Conflict("d".to_string()).status_code(), 409);
    assert_eq!(AppError::Internal("e".to_string()).status_code(), 500);
    assert_eq!(AppError::Conflict("d".to_string()).message(), "d");
    assert_eq!(AppError::BadRequest("a".to_string()).message(), "a");
    assert_eq!(AppError::Unauthorized("b".to_string()).message(), "b");
    assert_eq!(AppError::NotFound("c".to_string()).message(), "c");
    assert_eq!(AppError::Internal("e".to_string()).message(), "e");
}

#[test]
fn short_names_and_passwords_are_turned_down() {
    let req = |u: &str, p: &str| RegisterReqeust { username: u.to_string(), password: p.to_string() };
    assert_eq!(req("abc", "xyz").validate(), Ok(()));
    assert_eq!(req("abcdef", "a long password").validate(), Ok(()));
    let refusal = Err(AppError::BadRequest(
        "Username must be at least 3 characters and password at least 3".to_string(),
    ));
    assert_eq!(req("ab", "xyz").validate(), refusal);
    assert_eq!(req("abc", "xy").validate(), refusal);
    assert_eq!(req("", "").validate(), refusal);
    assert_eq!(req("\u{e9}a", "xyz").validate(), Ok(()));
}

#[test]
fn a_failed_insert_is_a_conflict_when_it_speaks_of_uniqueness() {
    assert!(has_unique(b"unique"));
    assert!(has_unique(b"duplicate key value violates unique constraint"));
    assert!(has_unique(b"xxunique"));
    assert!(!has_unique(b"uniqu"));
    assert!(!has_unique(b"Unique"));
    assert!(!has_unique(b"uniqu e"));
    assert!(!has_unique(b""));
    assert_eq!(
        AppError::from_insert_failure("violates unique constraint".to_string()),
        AppError::Conflict("Username already exists".to_string())
    );
    assert_eq!(
        AppError::from_insert_failure("connection lost".to_string()),
        AppError::Internal("connection lost".to_string())
    );
}

#[test]
fn a_login_comes_to_what_the_check_says() {
    assert_eq!(login_outcome(7, Some(true)), Ok(AuthResponse { id: 7 }));
    assert_eq!(login_outcome(7, Some(false)), Err(AppError::Unauthorized("Invalid credentials".to_string())));
    assert_eq!(login_outcome(7, None), Err(AppError::Internal("Failed to verify password".to_string())));
}

#[test]
fn a_login_checks_the_password_against_the_stored_hash() {
    let hash = bcrypt::hash("correct horse", 4).unwrap();
    let user = User { id: 12, username: "ann".to_string(), password_hash: hash };
    let req = |p: &str| LoginRequest { username: "ann".to_string(), password: p.to_string() };
    assert_eq!(login(&req("correct horse"), Some(&user)), Ok(AuthResponse { id: 12 }));
    assert_eq!(
        login(&req("wrong horse"), Some(&user)),
        Err(AppError::Unauthorized("Invalid credentials".to_string()))
    );
    assert_eq!(
        login(&req("correct horse"), None),
        Err(AppError::Unauthorized("Invalid credentials".to_string()))
    );
    let broken = User { id: 12, username: "ann".to_string(), password_hash: "correct horse".to_string() };
    assert_eq!(
        login(&req("correct horse"), Some(&broken)),
        Err(AppError::Internal("Failed to verify password".to_string()))
    );
}

#[test]
fn a_registration_hashes_the_password_for_a_later_login() {
    assert_eq!(HASH_COST, bcrypt::DEFAULT_COST);
    let req = RegisterReqeust { username: "ann".to_string(), password: "correct horse".to_string() };
    let hash = register(&req).unwrap();
    assert_ne!(hash, "correct horse");
    assert!(hash.starts_with("$2b$12$"));
    assert_ne!(register(&req).unwrap(), hash);
    let user = User { id: 5, username: "ann".to_string(), password_hash: hash };
    let ask = |p: &str| LoginRequest { username: "ann".to_string(), password: p.to_string() };
    assert_eq!(login(&ask("correct horse"), Some(&user)), Ok(AuthResponse { id: 5 }));
    assert_eq!(
        login(&ask("correct horsf"), Some(&user)),
        Err(AppError::Unauthorized("Invalid credentials".to_string()))
    );
}

#[test]
fn a_registration_with_short_credentials_is_turned_down() {
    let refusal = Err(AppError::BadRequest(
        "Username must be at least 3 characters and password at least 3".to_string(),
    ));
    let req = |u: &str, p: &str| RegisterReqeust { username: u.to_string(), password: p.to_string() };
    assert_eq!(register(&req("an", "correct horse")), refusal);
    assert_eq!(register(&req("ann", "co")), refusal);
}

#[test]
fn a_registration_comes_to_what_the_hashing_gave() {
    assert_eq!(registration_outcome(Some("$2b$12$abc".to_string())), Ok("$2b$12$abc".to_string()));
    assert_eq!(
        registration_outcome(None),
        Err(AppError::Internal("Failed to hash password".to_string()))
    );
}

#[test]
fn the_server_list_is_empty() {
    assert_eq!(GetServerListResponse {}, GetServerListResponse {});
}
