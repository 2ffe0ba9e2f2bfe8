//! The three snapshot message kinds, plus the "nothing arrived" sentinel.
//!
//! `NetworkEvent` is the single channel through which the surrounding
//! simulation learns about remote changes.  Coordinates travel as numeric
//! tokens (`Num`), so an event carries exactly what its wire frame carries;
//! the unverified edge converts between tokens and machine floats.

use vstd::prelude::*;

use crate::num::{is_num_text, uint_val, Num};

verus! {

/// A 2D position, both coordinates as numeric tokens.
pub struct Point2 {
    pub x: Num,
    pub y: Num,
}

/// A 2D velocity or offset, both coordinates as numeric tokens.
pub struct Vector2 {
    pub x: Num,
    pub y: Num,
}

/// One decoded (or to-be-encoded) snapshot message.
///
/// - `SnackUpdate(id, position, velocity)`: authoritative respawn of one
///   collectible.
/// - `PlayerUpdate(id, score, anchor)`: a participant's score and
///   manipulator anchor offset.
/// - `GameUpdate(origin, position, velocity)`: the shared anchor entity's
///   authoritative motion; `origin` is the sender's address as seen by the
///   transport, never a payload field.
/// - `Idle`: nothing arrived, or what arrived did not decode.  It is never
///   transmitted.
pub enum NetworkEvent {
    SnackUpdate(usize, Point2, Vector2),
    PlayerUpdate(usize, usize, Vector2),
    GameUpdate(String, Point2, Vector2),
    Idle,
}

/// Mathematical shape of a `NetworkEvent`: ids as naturals, coordinates as
/// the byte text of their tokens, the origin as text.
pub enum EventModel {
    Snack { id: nat, px: Seq<u8>, py: Seq<u8>, vx: Seq<u8>, vy: Seq<u8> },
    Player { id: nat, score: nat, ax: Seq<u8>, ay: Seq<u8> },
    Anchor { origin: Seq<char>, px: Seq<u8>, py: Seq<u8>, vx: Seq<u8>, vy: Seq<u8> },
    Idle,
}

impl View for NetworkEvent {
    type V = EventModel;

    open spec fn view(&self) -> EventModel {
        match self {
            NetworkEvent::SnackUpdate(id, p, v) => EventModel::Snack {
                id: *id as nat,
                px: p.x@,
                py: p.y@,
                vx: v.x@,
                vy: v.y@,
            },
            NetworkEvent::PlayerUpdate(id, score, a) => EventModel::Player {
                id: *id as nat,
                score: *score as nat,
                ax: a.x@,
                ay: a.y@,
            },
            NetworkEvent::GameUpdate(origin, p, v) => EventModel::Anchor {
                origin: origin@,
                px: p.x@,
                py: p.y@,
                vx: v.x@,
                vy: v.y@,
            },
            NetworkEvent::Idle => EventModel::Idle,
        }
    }
}

/// Every numeric field holds a token of the wire grammar, and ids fit the
/// machine.  Events built by the codec or from `Num` values satisfy this.
pub open spec fn wf_model(m: EventModel) -> bool {
    match m {
        EventModel::Snack { id, px, py, vx, vy } => id <= usize::MAX && is_num_text(px)
            && is_num_text(py) && is_num_text(vx) && is_num_text(vy),
        EventModel::Player { id, score, ax, ay } => id <= usize::MAX && score <= usize::MAX
            && is_num_text(ax) && is_num_text(ay),
        EventModel::Anchor { origin, px, py, vx, vy } => is_num_text(px) && is_num_text(py)
            && is_num_text(vx) && is_num_text(vy),
        EventModel::Idle => true,
    }
}

pub open spec fn wf_event(e: NetworkEvent) -> bool {
    wf_model(e@)
}

/// An unsigned token whose value fits a `usize`.
pub open spec fn is_usize_text(t: Seq<u8>) -> bool {
    crate::num::is_uint_text(t) && uint_val(t) <= usize::MAX
}

/// The layer's error taxonomy.
///
/// - `BindFailure`: the local endpoint cannot be acquired (fatal, raised by
///   the transport edge).
/// - `SendFailure`: one transmission failed (transient; the next tick's
///   snapshot supersedes it).
/// - `Unsendable`: an attempt to encode the idle sentinel (a caller
///   defect, not a runtime condition).
/// - `Malformed`: inbound bytes that are not a well-formed frame; collapses
///   to the idle event at the session boundary.
#[derive(Clone, Copy, Debug, PartialEq, Eq, Structural)]
pub enum NetError {
    BindFailure,
    SendFailure,
    Unsendable,
    Malformed,
}

} // verus!
