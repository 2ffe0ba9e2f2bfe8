use crabnet::config::{NUM_SNACKS, TIME};
use crabnet::event::{NetError, NetworkEvent, Vector2};
use crabnet::network::Connection;
use crabnet::num::Num;
use crabnet::player::Player;
use crabnet::snacks::spawn_snacks;
use crabnet::state::State;

fn num(text: &str) -> Num {
    Num::from_text(text.as_bytes().to_vec()).expect("token should match the numeric grammar")
}

#[test]
fn poll_without_datagram_returns_idle() {
    let mut conn = Connection::new();
    assert!(matches!(conn.update(None), NetworkEvent::Idle));
    let mut state = State::new();
    assert!(matches!(state.update(None, 0), NetworkEvent::Idle));
    assert_eq!(state.connection.current_remote(), "127.0.0.1");
}

#[test]
fn malformed_datagram_collapses_to_idle() {
    let mut conn = Connection::new();
    let e = conn.update(Some((b"JUNK 1 2\n".to_vec(), String::from("10.0.0.5"))));
    assert!(matches!(e, NetworkEvent::Idle));
    let e = conn.update(Some((b"PLAY 1 2\n".to_vec(), String::from("10.0.0.5"))));
    assert!(matches!(e, NetworkEvent::Idle));
}

#[test]
fn anchor_snapshot_retargets_the_session() {
    let mut state = State::new();
    assert_eq!(state.connection.current_remote(), "127.0.0.1");
    let now = 100;
    let e = state.update(Some((b"GAME 1 2 3 4\n".to_vec(), String::from("10.0.0.7"))), now);
    match e {
        NetworkEvent::GameUpdate(origin, _position, _velocity) => {
            assert_eq!(origin, "10.0.0.7");
        },
        _ => panic!("expected the anchor event"),
    }
    assert_eq!(state.connection.current_remote(), "10.0.0.7");
    assert_eq!(state.connection.current_port(), "4664");
    assert_eq!(state.menu.remote, "10.0.0.7");
    assert!(!state.menu.active);
    assert!(state.active);
    assert_eq!(state.time, now + TIME);
    assert_eq!(state.player1, Player { id: 1, score: 0 });
    assert_eq!(state.player2, Player { id: 2, score: 0 });
    // The next send of any event goes toward the new remote.
    let event = NetworkEvent::PlayerUpdate(1, 0, Vector2 { x: num("-30"), y: num("-20") });
    let out = state.connection.send(&event).expect("typed events always encode");
    assert_eq!(out.remote, "10.0.0.7");
    assert_eq!(out.port, "4664");
    assert_eq!(out.frame, b"PLAY 1 0 -30 -20\n".to_vec());
}

#[test]
fn sending_idle_reports_the_defect() {
    let conn = Connection::new();
    assert!(matches!(conn.send(&NetworkEvent::Idle), Err(NetError::Unsendable)));
}

#[test]
fn connect_changes_the_target() {
    let mut conn = Connection::new();
    conn.connect("192.168.1.20", "4664");
    assert_eq!(conn.current_remote(), "192.168.1.20");
    let event = NetworkEvent::SnackUpdate(3, crabnet::event::Point2 { x: num("5"), y: num("6") },
        Vector2 { x: num("0"), y: num("1") });
    let out = conn.send(&event).expect("typed events always encode");
    assert_eq!(out.remote, "192.168.1.20");
    assert_eq!(out.frame, b"FOOD 3 5 6 0 1\n".to_vec());
}

#[test]
fn snack_snapshot_reactivates_the_addressed_snack() {
    let mut state = State::new();
    state.snacks[4].active = false;
    let e = state.update(Some((b"FOOD 4 7 8 0 1.5\n".to_vec(), String::from("10.0.0.7"))), 0);
    assert!(matches!(e, NetworkEvent::SnackUpdate(4, _, _)));
    assert!(state.snacks[4].active);
    assert_eq!(state.snacks[4].id, 4);
    // The other snacks are untouched.
    for i in 0..state.snacks.len() {
        if i != 4 {
            assert!(state.snacks[i].active);
            assert_eq!(state.snacks[i].id, i);
        }
    }
}

#[test]
fn snack_snapshot_with_foreign_id_is_ignored() {
    let mut state = State::new();
    let before_len = state.snacks.len();
    let e = state.update(Some((b"FOOD 99 7 8 0 1.5\n".to_vec(), String::from("10.0.0.7"))), 0);
    assert!(matches!(e, NetworkEvent::SnackUpdate(99, _, _)));
    assert_eq!(state.snacks.len(), before_len);
    assert_eq!(state.player1.score, 0);
}

#[test]
fn player_snapshot_updates_the_addressed_participant() {
    let mut state = State::new();
    let e = state.update(Some((b"PLAY 1 5 -30 -20\n".to_vec(), String::from("10.0.0.7"))), 0);
    assert!(matches!(e, NetworkEvent::PlayerUpdate(1, 5, _)));
    assert_eq!(state.player1.score, 5);
    assert_eq!(state.player2.score, 0);
    state.update(Some((b"PLAY 2 9 170 -20\n".to_vec(), String::from("10.0.0.7"))), 0);
    assert_eq!(state.player2.score, 9);
    // Ids other than 1 and 2 change nothing.
    state.update(Some((b"PLAY 7 44 0 0\n".to_vec(), String::from("10.0.0.7"))), 0);
    assert_eq!(state.player1.score, 5);
    assert_eq!(state.player2.score, 9);
}

#[test]
fn reset_starts_a_fresh_round_toward_the_configured_remote() {
    let mut state = State::new();
    state.menu.remote = String::from("172.16.0.2");
    state.player1.score = 7;
    state.snacks[0].active = false;
    let now = 500;
    state.reset(now);
    assert!(!state.menu.active);
    assert_eq!(state.player1, Player { id: 1, score: 0 });
    assert_eq!(state.player2, Player { id: 2, score: 0 });
    assert_eq!(state.snacks.len(), NUM_SNACKS);
    assert!(state.snacks.iter().all(|s| s.active));
    assert_eq!(state.time, now + TIME);
    assert_eq!(state.connection.current_remote(), "172.16.0.2");
    assert_eq!(state.connection.current_port(), "4664");
}

#[test]
fn round_timer_expiry_returns_to_the_menu() {
    let mut state = State::new();
    state.update(Some((b"GAME 1 2 3 4\n".to_vec(), String::from("10.0.0.7"))), 100);
    assert!(!state.menu.active);
    state.tick_timer(100 + TIME - 1);
    assert!(!state.menu.active);
    state.tick_timer(100 + TIME);
    assert!(state.menu.active);
}

#[test]
fn fresh_state_defaults() {
    let state = State::new();
    assert_eq!(state.player1, Player { id: 1, score: 0 });
    assert_eq!(state.player2, Player { id: 2, score: 0 });
    assert_eq!(state.snacks.len(), NUM_SNACKS);
    assert!(state.menu.active);
    assert!(state.active);
    assert_eq!(state.time, 0);
    assert_eq!(state.menu.remote, "127.0.0.1");
    assert_eq!(state.connection.current_remote(), "127.0.0.1");
    assert_eq!(state.connection.current_port(), "4664");
}

#[test]
fn two_peers_exchange_snapshots() {
    // The logic of the two-instance scenario, with the transport played
    // by hand: A starts a match, B receives the anchor snapshot with A's
    // address as sender, and B's replies flow back toward A.
    let mut a = State::new();
    let mut b = State::new();
    a.menu.remote = String::from("10.0.0.2");
    a.reset(50);
    assert_eq!(a.connection.current_remote(), "10.0.0.2");
    let anchor = NetworkEvent::GameUpdate(
        String::from("10.0.0.2"),
        crabnet::event::Point2 { x: num("40"), y: num("60") },
        Vector2 { x: num("1.5"), y: num("0") },
    );
    let out = a.connection.send(&anchor).expect("typed events always encode");
    assert_eq!(out.remote, "10.0.0.2");
    // The datagram arrives at B; the transport reports A's address.
    let e = b.update(Some((out.frame, String::from("10.0.0.1"))), 60);
    match e {
        NetworkEvent::GameUpdate(origin, position, _velocity) => {
            assert_eq!(origin, "10.0.0.1");
            assert_eq!(position.x.as_text(), b"40");
        },
        _ => panic!("expected the anchor event"),
    }
    assert_eq!(b.connection.current_remote(), "10.0.0.1");
    // B scores and replies; the reply is addressed back at A.
    b.player2.increase_score();
    let reply = NetworkEvent::PlayerUpdate(2, b.player2.score, Vector2 {
        x: num("170"),
        y: num("-20"),
    });
    let out = b.connection.send(&reply).expect("typed events always encode");
    assert_eq!(out.remote, "10.0.0.1");
    let e = a.update(Some((out.frame, String::from("10.0.0.2"))), 61);
    assert!(matches!(e, NetworkEvent::PlayerUpdate(2, 1, _)));
    assert_eq!(a.player2.score, 1);
}

#[test]
fn scores_grow_one_snack_at_a_time() {
    let mut p = Player::new(1);
    p.increase_score();
    p.increase_score();
    assert_eq!(p, Player { id: 1, score: 2 });
}

#[test]
fn spawned_snacks_carry_their_indices() {
    let v = spawn_snacks(5);
    assert_eq!(v.len(), 5);
    for (i, s) in v.iter().enumerate() {
        assert_eq!(s.id, i);
        assert!(s.active);
    }
}
