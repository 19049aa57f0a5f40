use common::driver::{rest_for, TICK_DURATION, TICK_NANOS};
use common::game_state::GameState;
use common::game_world::GameWorld;
use common::player::Player;
use common::registry::{
    decode_player_id, encode_player_id, greeting, handshake_request, is_greeting, presented_id,
    ConnectionRegistry, Endpoint, Welcome, OPENING_TOKEN,
};
use common::utils::current_time_ms;

fn v4(last: u32, port: u16) -> Endpoint {
    Endpoint::V4 { host: 0x7F00_0000 + last, port }
}

#[test]
fn ids_are_handed_out_in_rising_order() {
    let mut r = ConnectionRegistry::new();
    assert_eq!(r.handshake(&greeting()), Welcome { player_id: 0, joined: true });
    assert_eq!(r.handshake(&greeting()), Welcome { player_id: 1, joined: true });
    assert_eq!(r.handshake(b""), Welcome { player_id: 2, joined: true });
    assert_eq!(r.next_player_id, 3);
}

#[test]
fn a_client_that_presents_its_id_keeps_it() {
    let mut r = ConnectionRegistry::new();
    r.handshake(&greeting());
    r.handshake(&greeting());
    assert_eq!(r.handshake(&[0, 0, 0, 1]), Welcome { player_id: 1, joined: false });
    assert_eq!(r.handshake(&[0, 0, 0, 0]), Welcome { player_id: 0, joined: false });
    assert_eq!(r.next_player_id, 2);
    assert_eq!(r.handshake(&[0, 0, 0, 2]), Welcome { player_id: 2, joined: true });
    assert_eq!(r.handshake(&[1, 0, 0, 0]), Welcome { player_id: 3, joined: true });
    assert_eq!(r.handshake(&[0, 0, 0, 1, 0]), Welcome { player_id: 4, joined: true });
    assert_eq!(r.handshake(&[0, 0, 1]), Welcome { player_id: 5, joined: true });
}

#[test]
fn a_client_greets_or_presents_its_id() {
    assert_eq!(OPENING_TOKEN, u32::MAX);
    assert_eq!(greeting(), vec![255, 255, 255, 255]);
    assert_eq!(greeting(), OPENING_TOKEN.to_be_bytes().to_vec());
    assert_eq!(handshake_request(None), vec![255, 255, 255, 255]);
    assert_eq!(handshake_request(Some(0x0A0B_0C0D)), vec![0x0A, 0x0B, 0x0C, 0x0D]);
    assert_eq!(handshake_request(Some(258)), 258u32.to_be_bytes().to_vec());
    assert!(is_greeting(&[255, 255, 255, 255]));
    assert!(!is_greeting(&[255, 255, 255, 254]));
    assert!(!is_greeting(&[255, 255, 255]));
    assert!(!is_greeting(&[255, 255, 255, 255, 255]));
    assert!(!is_greeting(b"HELLO_UWU"));
    assert!(!is_greeting(b""));
    assert_eq!(presented_id(&[0, 0, 1, 2]), Some(258));
    assert_eq!(presented_id(&[255, 255, 255, 255]), None);
    assert_eq!(presented_id(&[255, 255, 255, 254]), Some(u32::MAX - 1));
    assert_eq!(presented_id(&[0, 0, 1]), None);
    assert_eq!(presented_id(&[0, 0, 1, 2, 3]), None);
    let mut r = ConnectionRegistry::new();
    let first = r.handshake(&handshake_request(None));
    assert_eq!(first, Welcome { player_id: 0, joined: true });
    let again = r.handshake(&handshake_request(Some(first.player_id)));
    assert_eq!(again, Welcome { player_id: 0, joined: false });
}

#[test]
fn the_id_counter_wraps() {
    let mut r = ConnectionRegistry::new();
    r.next_player_id = u32::MAX;
    assert_eq!(r.handshake(&greeting()), Welcome { player_id: u32::MAX, joined: true });
    assert_eq!(r.next_player_id, 0);
}

#[test]
fn the_opening_token_is_never_taken_for_an_id() {
    let mut r = ConnectionRegistry::new();
    r.next_player_id = u32::MAX;
    assert_eq!(r.handshake(&[255, 255, 255, 254]), Welcome { player_id: u32::MAX - 1, joined: false });
    assert_eq!(r.handshake(&[255, 255, 255, 255]), Welcome { player_id: u32::MAX, joined: true });
    assert_eq!(r.handshake(&[255, 255, 255, 255]), Welcome { player_id: 0, joined: true });
    assert_eq!(r.next_player_id, 1);
}

#[test]
fn a_player_id_travels_in_four_bytes_high_byte_first() {
    assert_eq!(encode_player_id(0x0102_0304), [1, 2, 3, 4]);
    assert_eq!(encode_player_id(0), [0, 0, 0, 0]);
    assert_eq!(encode_player_id(u32::MAX), [255, 255, 255, 255]);
    assert_eq!(decode_player_id(&[1, 2, 3, 4]), 0x0102_0304);
    for id in [0u32, 1, 255, 256, 65_535, 65_536, 0xDEAD_BEEF, u32::MAX] {
        assert_eq!(encode_player_id(id), id.to_be_bytes());
        assert_eq!(decode_player_id(&id.to_be_bytes()), id);
        assert_eq!(decode_player_id(&encode_player_id(id)), id);
    }
}

#[test]
fn an_address_is_registered_by_its_first_datagram() {
    let mut r = ConnectionRegistry::new();
    assert!(r.recipients().is_empty());
    assert!(r.note_sender(v4(1, 4000)));
    assert!(r.note_sender(v4(1, 4001)));
    assert!(!r.note_sender(v4(1, 4000)));
    let six = Endpoint::V6 { host6: 1, port: 4000, flowinfo: 0, scope_id: 0 };
    assert!(r.note_sender(six));
    assert!(!r.note_sender(six));
    assert!(r.note_sender(Endpoint::V6 { host6: 1, port: 4000, flowinfo: 0, scope_id: 3 }));
    assert_eq!(r.recipients().len(), 4);
    assert_eq!(r.recipients()[0], v4(1, 4000));
    assert_eq!(r.recipients()[1], v4(1, 4001));
    assert_eq!(r.recipients()[2], six);
    assert!(r.knows(&v4(1, 4001)));
    assert!(!r.knows(&v4(2, 4001)));
    assert_eq!(r.next_player_id, 0);
}

#[test]
fn the_loop_rests_for_what_is_left_of_the_tick() {
    assert_eq!(TICK_DURATION, 16);
    assert_eq!(TICK_NANOS, 16_000_000);
    assert_eq!(rest_for(0), Some(16_000_000));
    assert_eq!(rest_for(5_000_000), Some(11_000_000));
    assert_eq!(rest_for(15_999_999), Some(1));
    assert_eq!(rest_for(16_000_000), None);
    assert_eq!(rest_for(16_000_001), None);
    assert_eq!(rest_for(u128::MAX), None);
}

#[test]
fn waiting_connections_become_players_in_order() {
    let mut w = GameWorld::new();
    w.add_players(&vec![4, 2, 4]);
    assert_eq!(w.players.len(), 2);
    assert_eq!(w.players[&4], Player::new(4));
    assert_eq!(w.players[&2], Player::new(2));
    w.add_players(&vec![]);
    assert_eq!(w.players.len(), 2);
}

#[test]
fn the_server_state_holds_its_world() {
    let mut w = GameWorld::new();
    w.add_player(1);
    let state = GameState::new(w.clone());
    assert_eq!(state.world_state, w);
}

#[test]
fn the_clock_reads_a_time_of_this_century() {
    let a = current_time_ms().expect("the clock reads a time after the epoch");
    let b = current_time_ms().expect("the clock reads a time after the epoch");
    assert!(a > 1_600_000_000_000);
    assert!(a < 4_102_444_800_000);
    assert!(b >= a);
}
