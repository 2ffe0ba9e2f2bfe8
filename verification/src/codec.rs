//! The wire codec: frames to events and back.
//!
//! A frame is ASCII text: a four-byte tag (`FOOD`, `PLAY` or `GAME`), then
//! one space-separated numeric token per payload field, then a newline.
//! `spec_encode` and `spec_decode` are the mathematical reference;
//! `encode` and `decode` are proved against them, and `lemma_round_trip`
//! shows that decoding an encoded frame returns the encoded event.

use vstd::prelude::*;

use crate::event::{is_usize_text, wf_model, EventModel, NetError, NetworkEvent, Point2, Vector2};
use crate::num::{
    format_usize, is_num_text, is_uint_text, lemma_first_dot, lemma_uint_text_val,
    lemma_uint_text_wf, parse_usize, uint_text, uint_val, Num, DOT, MINUS,
};
use crate::tokens::{
    is_sep, lemma_split_payload_of, payload_of, split_payload, token_ok, tokenize, NL, SP,
};

verus! {

pub open spec fn tag_food() -> Seq<u8> {
    seq![70u8, 79u8, 79u8, 68u8]
}

pub open spec fn tag_play() -> Seq<u8> {
    seq![80u8, 76u8, 65u8, 89u8]
}

pub open spec fn tag_game() -> Seq<u8> {
    seq![71u8, 65u8, 77u8, 69u8]
}

pub open spec fn tag_of(m: EventModel) -> Seq<u8> {
    match m {
        EventModel::Snack { .. } => tag_food(),
        EventModel::Player { .. } => tag_play(),
        EventModel::Anchor { .. } => tag_game(),
        EventModel::Idle => Seq::<u8>::empty(),
    }
}

/// The payload tokens of a message, in wire order.
pub open spec fn tokens_of(m: EventModel) -> Seq<Seq<u8>> {
    match m {
        EventModel::Snack { id, px, py, vx, vy } => seq![uint_text(id), px, py, vx, vy],
        EventModel::Player { id, score, ax, ay } => seq![uint_text(id), uint_text(score), ax, ay],
        EventModel::Anchor { origin, px, py, vx, vy } => seq![px, py, vx, vy],
        EventModel::Idle => Seq::<Seq<u8>>::empty(),
    }
}

/// The frame that carries `m`; meaningful for the three message kinds.
pub open spec fn spec_encode(m: EventModel) -> Seq<u8> {
    tag_of(m) + payload_of(tokens_of(m))
}

/// The reference decoder: tag dispatch, token split, token checks.  The
/// anchor message takes its origin from the transport's sender address,
/// never from the payload.
pub open spec fn spec_decode(s: Seq<u8>, sender: Seq<char>) -> Option<EventModel> {
    if s.len() < 4 {
        None
    } else if s.take(4) == tag_food() {
        match split_payload(s.skip(4)) {
            Some(ts) => {
                if ts.len() == 5 && is_usize_text(ts[0]) && is_num_text(ts[1]) && is_num_text(
                    ts[2],
                ) && is_num_text(ts[3]) && is_num_text(ts[4]) {
                    Some(
                        EventModel::Snack {
                            id: uint_val(ts[0]),
                            px: ts[1],
                            py: ts[2],
                            vx: ts[3],
                            vy: ts[4],
                        },
                    )
                } else {
                    None
                }
            },
            None => None,
        }
    } else if s.take(4) == tag_play() {
        match split_payload(s.skip(4)) {
            Some(ts) => {
                if ts.len() == 4 && is_usize_text(ts[0]) && is_usize_text(ts[1]) && is_num_text(
                    ts[2],
                ) && is_num_text(ts[3]) {
                    Some(
                        EventModel::Player {
                            id: uint_val(ts[0]),
                            score: uint_val(ts[1]),
                            ax: ts[2],
                            ay: ts[3],
                        },
                    )
                } else {
                    None
                }
            },
            None => None,
        }
    } else if s.take(4) == tag_game() {
        match split_payload(s.skip(4)) {
            Some(ts) => {
                if ts.len() == 4 && is_num_text(ts[0]) && is_num_text(ts[1]) && is_num_text(ts[2])
                    && is_num_text(ts[3]) {
                    Some(
                        EventModel::Anchor {
                            origin: sender,
                            px: ts[0],
                            py: ts[1],
                            vx: ts[2],
                            vy: ts[3],
                        },
                    )
                } else {
                    None
                }
            },
            None => None,
        }
    } else {
        None
    }
}

/// A digit string never holds a separator byte.
pub proof fn lemma_uint_no_sep(t: Seq<u8>)
    requires
        is_uint_text(t),
    ensures
        token_ok(t),
{
    assert forall|i: int| 0 <= i < t.len() implies !is_sep(#[trigger] t[i]) by {
        assert(crate::num::is_digit_byte(t[i]));
    }
}

/// A numeric token never holds a separator byte: each of its bytes is a
/// digit, the dot, or the minus sign.
pub proof fn lemma_num_no_sep(t: Seq<u8>)
    requires
        is_num_text(t),
    ensures
        token_ok(t),
{
    let off: int = if t[0] == MINUS {
        1
    } else {
        0
    };
    let body = t.skip(off);
    if off == 0 {
        assert(body =~= t);
    }
    assert(crate::num::is_num_body(body));
    lemma_first_dot(body);
    let d = crate::num::first_dot(body);
    assert forall|i: int| 0 <= i < t.len() implies !is_sep(#[trigger] t[i]) by {
        if i < off {
            assert(t[i] == MINUS);
        } else {
            let j = i - off;
            assert(body[j] == t[i]);
            if d == body.len() {
                assert(crate::num::is_digit_byte(body[j]));
            } else if j < d {
                assert(body.take(d)[j] == body[j]);
                assert(crate::num::is_digit_byte(body[j]));
            } else if j == d {
                assert(body[j] == DOT);
            } else {
                assert(body.skip(d + 1)[j - d - 1] == body[j]);
                assert(crate::num::is_digit_byte(body[j]));
            }
        }
    }
}

/// Replaces an anchor message's origin; leaves the other kinds alone.
pub open spec fn with_origin(m: EventModel, sender: Seq<char>) -> EventModel {
    match m {
        EventModel::Anchor { origin, px, py, vx, vy } => EventModel::Anchor {
            origin: sender,
            px,
            py,
            vx,
            vy,
        },
        _ => m,
    }
}

/// Round trip: decoding an encoded frame returns the encoded message, with
/// the anchor kind's origin replaced by whatever address the transport
/// reports — exactly what the wire carries.
pub proof fn lemma_round_trip(m: EventModel, sender: Seq<char>)
    requires
        wf_model(m),
        !(m is Idle),
    ensures
        spec_decode(spec_encode(m), sender) == Some(with_origin(m, sender)),
{
    let ts = tokens_of(m);
    let s = spec_encode(m);
    assert forall|k: int| 0 <= k < ts.len() implies token_ok(#[trigger] ts[k]) by {
        match m {
            EventModel::Snack { id, px, py, vx, vy } => {
                if k == 0 {
                    lemma_uint_text_wf(id);
                    lemma_uint_no_sep(uint_text(id));
                } else if k == 1 {
                    lemma_num_no_sep(px);
                } else if k == 2 {
                    lemma_num_no_sep(py);
                } else if k == 3 {
                    lemma_num_no_sep(vx);
                } else {
                    lemma_num_no_sep(vy);
                }
            },
            EventModel::Player { id, score, ax, ay } => {
                if k == 0 {
                    lemma_uint_text_wf(id);
                    lemma_uint_no_sep(uint_text(id));
                } else if k == 1 {
                    lemma_uint_text_wf(score);
                    lemma_uint_no_sep(uint_text(score));
                } else if k == 2 {
                    lemma_num_no_sep(ax);
                } else {
                    lemma_num_no_sep(ay);
                }
            },
            EventModel::Anchor { origin, px, py, vx, vy } => {
                if k == 0 {
                    lemma_num_no_sep(px);
                } else if k == 1 {
                    lemma_num_no_sep(py);
                } else if k == 2 {
                    lemma_num_no_sep(vx);
                } else {
                    lemma_num_no_sep(vy);
                }
            },
            EventModel::Idle => {},
        }
    }
    lemma_split_payload_of(ts);
    crate::tokens::lemma_payload_of_starts_sep(ts);
    assert(s.len() >= 5);
    assert(s.take(4) =~= tag_of(m));
    assert(s.skip(4) =~= payload_of(ts));
    assert(tag_food()[0] == 70 && tag_play()[0] == 80 && tag_game()[0] == 71);
    match m {
        EventModel::Snack { id, px, py, vx, vy } => {
            assert(s.take(4) == tag_food());
            lemma_uint_text_wf(id);
            lemma_uint_text_val(id);
        },
        EventModel::Player { id, score, ax, ay } => {
            assert(s.take(4) != tag_food());
            assert(s.take(4) == tag_play());
            lemma_uint_text_wf(id);
            lemma_uint_text_val(id);
            lemma_uint_text_wf(score);
            lemma_uint_text_val(score);
        },
        EventModel::Anchor { origin, px, py, vx, vy } => {
            assert(s.take(4) != tag_food());
            assert(s.take(4) != tag_play());
            assert(s.take(4) == tag_game());
        },
        EventModel::Idle => {},
    }
}

/// A frame whose first four bytes are none of the known tags never
/// decodes: an unreliable transport may deliver foreign or truncated
/// datagrams, and they all collapse to "no event".
pub proof fn lemma_unknown_tag_rejected(s: Seq<u8>, sender: Seq<char>)
    requires
        s.len() < 4 || (s.take(4) != tag_food() && s.take(4) != tag_play() && s.take(4)
            != tag_game()),
    ensures
        spec_decode(s, sender) is None,
{
}

/// Appends ` token` to a frame under construction.
fn push_token(out: &mut Vec<u8>, tok: &Vec<u8>)
    ensures
        final(out)@ == old(out)@ + seq![SP] + tok@,
{
    out.push(SP);
    let mut i: usize = 0;
    while i < tok.len()
        invariant
            i <= tok@.len(),
            out@ == old(out)@.push(SP) + tok@.take(i as int),
        decreases tok@.len() - i,
    {
        proof {
            assert((old(out)@.push(SP) + tok@.take(i as int)).push(tok@[i as int]) =~= old(
                out,
            )@.push(SP) + tok@.take(i as int + 1));
        }
        out.push(tok[i]);
        i += 1;
    }
    proof {
        assert(tok@.take(tok@.len() as int) =~= tok@);
        assert(old(out)@.push(SP) + tok@ =~= old(out)@ + seq![SP] + tok@);
    }
}

/// Unfolds `payload_of` over a four-token list.
proof fn lemma_payload_of_4(t0: Seq<u8>, t1: Seq<u8>, t2: Seq<u8>, t3: Seq<u8>)
    ensures
        payload_of(seq![t0, t1, t2, t3]) == seq![SP] + t0 + (seq![SP] + t1 + (seq![SP] + t2 + (
        seq![SP] + t3 + seq![NL]))),
{
    let ts = seq![t0, t1, t2, t3];
    assert(ts.skip(1) =~= seq![t1, t2, t3]);
    assert(seq![t1, t2, t3].skip(1) =~= seq![t2, t3]);
    assert(seq![t2, t3].skip(1) =~= seq![t3]);
    assert(seq![t3].skip(1) =~= Seq::<Seq<u8>>::empty());
    assert(payload_of(Seq::<Seq<u8>>::empty()) == seq![NL]);
    assert(payload_of(seq![t3]) == seq![SP] + t3 + seq![NL]);
    assert(payload_of(seq![t2, t3]) == seq![SP] + t2 + (seq![SP] + t3 + seq![NL]));
    assert(payload_of(seq![t1, t2, t3]) == seq![SP] + t1 + (seq![SP] + t2 + (seq![SP] + t3
        + seq![NL])));
}

/// Unfolds `payload_of` over a five-token list.
proof fn lemma_payload_of_5(t0: Seq<u8>, t1: Seq<u8>, t2: Seq<u8>, t3: Seq<u8>, t4: Seq<u8>)
    ensures
        payload_of(seq![t0, t1, t2, t3, t4]) == seq![SP] + t0 + (seq![SP] + t1 + (seq![SP] + t2 + (
        seq![SP] + t3 + (seq![SP] + t4 + seq![NL])))),
{
    let ts = seq![t0, t1, t2, t3, t4];
    assert(ts.skip(1) =~= seq![t1, t2, t3, t4]);
    lemma_payload_of_4(t1, t2, t3, t4);
}

/// Encodes an event into its wire frame.  The three message kinds always
/// encode; encoding the idle sentinel is the caller's defect and is
/// reported as `Unsendable`.
pub fn encode(e: &NetworkEvent) -> (r: Result<Vec<u8>, NetError>)
    requires
        crate::event::wf_event(*e),
    ensures
        match r {
            Ok(frame) => !(e@ is Idle) && frame@ == spec_encode(e@),
            Err(err) => e@ is Idle && err == NetError::Unsendable,
        },
{
    match e {
        NetworkEvent::SnackUpdate(id, p, v) => {
            let mut out: Vec<u8> = Vec::new();
            out.push(70);
            out.push(79);
            out.push(79);
            out.push(68);
            let ghost tag_done = out@;
            proof {
                assert(tag_done =~= tag_food());
            }
            let id_text = format_usize(*id);
            push_token(&mut out, &id_text);
            push_token(&mut out, p.x.as_text());
            push_token(&mut out, p.y.as_text());
            push_token(&mut out, v.x.as_text());
            push_token(&mut out, v.y.as_text());
            out.push(NL);
            proof {
                lemma_payload_of_5(uint_text(*id as nat), p.x@, p.y@, v.x@, v.y@);
                assert(out@ =~= spec_encode(e@));
            }
            Ok(out)
        },
        NetworkEvent::PlayerUpdate(id, score, a) => {
            let mut out: Vec<u8> = Vec::new();
            out.push(80);
            out.push(76);
            out.push(65);
            out.push(89);
            let ghost tag_done = out@;
            proof {
                assert(tag_done =~= tag_play());
            }
            let id_text = format_usize(*id);
            push_token(&mut out, &id_text);
            let score_text = format_usize(*score);
            push_token(&mut out, &score_text);
            push_token(&mut out, a.x.as_text());
            push_token(&mut out, a.y.as_text());
            out.push(NL);
            proof {
                lemma_payload_of_4(uint_text(*id as nat), uint_text(*score as nat), a.x@, a.y@);
                assert(out@ =~= spec_encode(e@));
            }
            Ok(out)
        },
        NetworkEvent::GameUpdate(_origin, p, v) => {
            let mut out: Vec<u8> = Vec::new();
            out.push(71);
            out.push(65);
            out.push(77);
            out.push(69);
            let ghost tag_done = out@;
            proof {
                assert(tag_done =~= tag_game());
            }
            push_token(&mut out, p.x.as_text());
            push_token(&mut out, p.y.as_text());
            push_token(&mut out, v.x.as_text());
            push_token(&mut out, v.y.as_text());
            out.push(NL);
            proof {
                lemma_payload_of_4(p.x@, p.y@, v.x@, v.y@);
                assert(out@ =~= spec_encode(e@));
            }
            Ok(out)
        },
        NetworkEvent::Idle => Err(NetError::Unsendable),
    }
}

/// Decodes one frame.  `sender` is the transport-reported source address
/// of the datagram; only the anchor kind uses it.  Every failure — short
/// frame, unknown tag, wrong token count, a token outside the numeric
/// grammar, an id too large for the machine — is `Malformed`.
pub fn decode(frame: &Vec<u8>, sender: &str) -> (r: Result<NetworkEvent, NetError>)
    ensures
        match r {
            Ok(e) => spec_decode(frame@, sender@) == Some(e@) && crate::event::wf_event(e),
            Err(err) => spec_decode(frame@, sender@) is None && err == NetError::Malformed,
        },
{
    if frame.len() < 4 {
        return Err(NetError::Malformed);
    }
    let b0 = frame[0];
    let b1 = frame[1];
    let b2 = frame[2];
    let b3 = frame[3];
    proof {
        assert(frame@.take(4)[0] == b0);
        assert(frame@.take(4)[1] == b1);
        assert(frame@.take(4)[2] == b2);
        assert(frame@.take(4)[3] == b3);
    }
    if b0 == 70 && b1 == 79 && b2 == 79 && b3 == 68 {
        proof {
            assert(frame@.take(4) =~= tag_food());
        }
        let mut ts = match tokenize(frame, 4) {
            Some(ts) => ts,
            None => {
                return Err(NetError::Malformed);
            },
        };
        if ts.len() != 5 {
            return Err(NetError::Malformed);
        }
        let ghost tsv = ts.deep_view();
        let vy_t = ts.pop().unwrap();
        let vx_t = ts.pop().unwrap();
        let py_t = ts.pop().unwrap();
        let px_t = ts.pop().unwrap();
        let id_t = ts.pop().unwrap();
        proof {
            assert(id_t.deep_view() == tsv[0] && px_t.deep_view() == tsv[1] && py_t.deep_view()
                == tsv[2] && vx_t.deep_view() == tsv[3] && vy_t.deep_view() == tsv[4]);
            assert(id_t@ =~= id_t.deep_view());
            assert(px_t@ =~= px_t.deep_view());
            assert(py_t@ =~= py_t.deep_view());
            assert(vx_t@ =~= vx_t.deep_view());
            assert(vy_t@ =~= vy_t.deep_view());
        }
        let id = match parse_usize(&id_t) {
            Some(v) => v,
            None => {
                return Err(NetError::Malformed);
            },
        };
        let px = match Num::from_text(px_t) {
            Some(m) => m,
            None => {
                return Err(NetError::Malformed);
            },
        };
        let py = match Num::from_text(py_t) {
            Some(m) => m,
            None => {
                return Err(NetError::Malformed);
            },
        };
        let vx = match Num::from_text(vx_t) {
            Some(m) => m,
            None => {
                return Err(NetError::Malformed);
            },
        };
        let vy = match Num::from_text(vy_t) {
            Some(m) => m,
            None => {
                return Err(NetError::Malformed);
            },
        };
        Ok(NetworkEvent::SnackUpdate(id, Point2 { x: px, y: py }, Vector2 { x: vx, y: vy }))
    } else if b0 == 80 && b1 == 76 && b2 == 65 && b3 == 89 {
        proof {
            assert(frame@.take(4) =~= tag_play());
            assert(frame@.take(4) != tag_food());
        }
        let mut ts = match tokenize(frame, 4) {
            Some(ts) => ts,
            None => {
                return Err(NetError::Malformed);
            },
        };
        if ts.len() != 4 {
            return Err(NetError::Malformed);
        }
        let ghost tsv = ts.deep_view();
        let ay_t = ts.pop().unwrap();
        let ax_t = ts.pop().unwrap();
        let score_t = ts.pop().unwrap();
        let id_t = ts.pop().unwrap();
        proof {
            assert(id_t.deep_view() == tsv[0] && score_t.deep_view() == tsv[1] && ax_t.deep_view()
                == tsv[2] && ay_t.deep_view() == tsv[3]);
            assert(id_t@ =~= id_t.deep_view());
            assert(score_t@ =~= score_t.deep_view());
            assert(ax_t@ =~= ax_t.deep_view());
            assert(ay_t@ =~= ay_t.deep_view());
        }
        let id = match parse_usize(&id_t) {
            Some(v) => v,
            None => {
                return Err(NetError::Malformed);
            },
        };
        let score = match parse_usize(&score_t) {
            Some(v) => v,
            None => {
                return Err(NetError::Malformed);
            },
        };
        let ax = match Num::from_text(ax_t) {
            Some(m) => m,
            None => {
                return Err(NetError::Malformed);
            },
        };
        let ay = match Num::from_text(ay_t) {
            Some(m) => m,
            None => {
                return Err(NetError::Malformed);
            },
        };
        Ok(NetworkEvent::PlayerUpdate(id, score, Vector2 { x: ax, y: ay }))
    } else if b0 == 71 && b1 == 65 && b2 == 77 && b3 == 69 {
        proof {
            assert(frame@.take(4) =~= tag_game());
            assert(frame@.take(4) != tag_food());
            assert(frame@.take(4) != tag_play());
        }
        let mut ts = match tokenize(frame, 4) {
            Some(ts) => ts,
            None => {
                return Err(NetError::Malformed);
            },
        };
        if ts.len() != 4 {
            return Err(NetError::Malformed);
        }
        let ghost tsv = ts.deep_view();
        let vy_t = ts.pop().unwrap();
        let vx_t = ts.pop().unwrap();
        let py_t = ts.pop().unwrap();
        let px_t = ts.pop().unwrap();
        proof {
            assert(px_t.deep_view() == tsv[0] && py_t.deep_view() == tsv[1] && vx_t.deep_view()
                == tsv[2] && vy_t.deep_view() == tsv[3]);
            assert(px_t@ =~= px_t.deep_view());
            assert(py_t@ =~= py_t.deep_view());
            assert(vx_t@ =~= vx_t.deep_view());
            assert(vy_t@ =~= vy_t.deep_view());
        }
        let px = match Num::from_text(px_t) {
            Some(m) => m,
            None => {
                return Err(NetError::Malformed);
            },
        };
        let py = match Num::from_text(py_t) {
            Some(m) => m,
            None => {
                return Err(NetError::Malformed);
            },
        };
        let vx = match Num::from_text(vx_t) {
            Some(m) => m,
            None => {
                return Err(NetError::Malformed);
            },
        };
        let vy = match Num::from_text(vy_t) {
            Some(m) => m,
            None => {
                return Err(NetError::Malformed);
            },
        };
        let origin = String::from_str(sender);
        Ok(NetworkEvent::GameUpdate(origin, Point2 { x: px, y: py }, Vector2 { x: vx, y: vy }))
    } else {
        proof {
            if frame@.take(4) == tag_food() {
                assert(false);
            }
            if frame@.take(4) == tag_play() {
                assert(false);
            }
            if frame@.take(4) == tag_game() {
                assert(false);
            }
        }
        Err(NetError::Malformed)
    }
}

} // verus!
