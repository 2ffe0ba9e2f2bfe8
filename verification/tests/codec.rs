use crabnet::codec::{decode, encode};
use crabnet::event::{NetError, NetworkEvent, Point2, Vector2};
use crabnet::num::{format_usize, parse_usize, Num};

fn num(text: &str) -> Num {
    Num::from_text(text.as_bytes().to_vec()).expect("token should match the numeric grammar")
}

fn point(x: &str, y: &str) -> Point2 {
    Point2 { x: num(x), y: num(y) }
}

fn vector(x: &str, y: &str) -> Vector2 {
    Vector2 { x: num(x), y: num(y) }
}

#[test]
fn player_frame_exact_bytes() {
    let event = NetworkEvent::PlayerUpdate(2, 3, vector("170", "-20"));
    let frame = encode(&event).expect("typed events always encode");
    assert_eq!(frame, b"PLAY 2 3 170 -20\n".to_vec());
    match decode(&frame, "192.168.0.9").expect("the frame decodes") {
        NetworkEvent::PlayerUpdate(id, score, anchor) => {
            assert_eq!(id, 2);
            assert_eq!(score, 3);
            assert_eq!(anchor.x.as_text(), b"170");
            assert_eq!(anchor.y.as_text(), b"-20");
        },
        _ => panic!("wrong event kind"),
    }
}

#[test]
fn food_frame_round_trips() {
    let event = NetworkEvent::SnackUpdate(0, point("12.5", "400"), vector("0", "1.2"));
    let frame = encode(&event).expect("typed events always encode");
    assert_eq!(frame, b"FOOD 0 12.5 400 0 1.2\n".to_vec());
    match decode(&frame, "127.0.0.1").expect("the frame decodes") {
        NetworkEvent::SnackUpdate(id, position, velocity) => {
            assert_eq!(id, 0);
            assert_eq!(position.x.as_text(), b"12.5");
            assert_eq!(position.y.as_text(), b"400");
            assert_eq!(velocity.x.as_text(), b"0");
            assert_eq!(velocity.y.as_text(), b"1.2");
        },
        _ => panic!("wrong event kind"),
    }
}

#[test]
fn game_frame_takes_origin_from_sender() {
    let event = NetworkEvent::GameUpdate(
        String::from("ignored.by.encode"),
        point("512", "-3.25"),
        vector("1.5", "0"),
    );
    let frame = encode(&event).expect("typed events always encode");
    assert_eq!(frame, b"GAME 512 -3.25 1.5 0\n".to_vec());
    match decode(&frame, "10.1.2.3").expect("the frame decodes") {
        NetworkEvent::GameUpdate(origin, position, velocity) => {
            assert_eq!(origin, "10.1.2.3");
            assert_eq!(position.x.as_text(), b"512");
            assert_eq!(position.y.as_text(), b"-3.25");
            assert_eq!(velocity.x.as_text(), b"1.5");
            assert_eq!(velocity.y.as_text(), b"0");
        },
        _ => panic!("wrong event kind"),
    }
}

#[test]
fn encoding_the_idle_sentinel_is_unsendable() {
    assert_eq!(encode(&NetworkEvent::Idle), Err(NetError::Unsendable));
}

#[test]
fn unknown_tag_is_malformed() {
    assert!(matches!(decode(&b"HELO 1 2 3 4\n".to_vec(), "127.0.0.1"), Err(NetError::Malformed)));
    assert!(matches!(decode(&b"foo".to_vec(), "127.0.0.1"), Err(NetError::Malformed)));
    assert!(matches!(decode(&b"".to_vec(), "127.0.0.1"), Err(NetError::Malformed)));
}

#[test]
fn truncated_payload_is_malformed() {
    assert!(matches!(decode(&b"PLAY 1 2\n".to_vec(), "127.0.0.1"), Err(NetError::Malformed)));
}

#[test]
fn excess_tokens_are_malformed() {
    assert!(matches!(decode(&b"PLAY 1 2 3 4 5\n".to_vec(), "127.0.0.1"), Err(NetError::Malformed)));
}

#[test]
fn non_numeric_token_is_malformed() {
    assert!(matches!(decode(&b"PLAY 1 2 nan 5\n".to_vec(), "127.0.0.1"), Err(NetError::Malformed)));
    assert!(matches!(decode(&b"FOOD 1 2 3 4 5e3\n".to_vec(), "127.0.0.1"), Err(NetError::Malformed)));
}

#[test]
fn missing_terminator_is_malformed() {
    assert!(matches!(decode(&b"PLAY 1 2 3 4".to_vec(), "127.0.0.1"), Err(NetError::Malformed)));
}

#[test]
fn doubled_separator_is_malformed() {
    assert!(matches!(decode(&b"PLAY 1  2 3 4\n".to_vec(), "127.0.0.1"), Err(NetError::Malformed)));
}

#[test]
fn oversized_id_is_malformed() {
    let mut frame = b"PLAY ".to_vec();
    frame.extend_from_slice(b"99999999999999999999999999999999999999");
    frame.extend_from_slice(b" 1 2 3\n");
    assert!(matches!(decode(&frame, "127.0.0.1"), Err(NetError::Malformed)));
}

#[test]
fn numeric_grammar_accepts_wire_spellings() {
    for ok in ["0", "170", "-20", "12.5", "-0.5", "400", "1.2", "007"] {
        assert!(Num::from_text(ok.as_bytes().to_vec()).is_some(), "{ok} should parse");
    }
}

#[test]
fn numeric_grammar_rejects_non_finite_and_junk() {
    for bad in ["", "NaN", "inf", "-inf", "1e5", "-", ".", "1.", ".5", "1.2.3", "--2", "1 2", "+3"]
    {
        assert!(Num::from_text(bad.as_bytes().to_vec()).is_none(), "{bad} should be rejected");
    }
}

#[test]
fn usize_text_round_trips() {
    assert_eq!(format_usize(0), b"0".to_vec());
    assert_eq!(format_usize(4664), b"4664".to_vec());
    assert_eq!(parse_usize(&b"4664".to_vec()), Some(4664));
    assert_eq!(parse_usize(&b"0".to_vec()), Some(0));
    assert_eq!(parse_usize(&b"".to_vec()), None);
    assert_eq!(parse_usize(&b"12a".to_vec()), None);
    let huge = b"99999999999999999999999999999999999999".to_vec();
    assert_eq!(parse_usize(&huge), None);
}
