//! The mirrored match state and the event-dispatch glue.
//!
//! `State` holds what the replication layer reads and writes of the local
//! match: the two participants, the collectible collection's activity, the
//! display mode, the round timer, and the session.  `State::update` is the
//! per-tick dispatch: it takes the one datagram the transport produced (or
//! none), decodes it, applies the resulting event, and — on a world-anchor
//! snapshot from a new remote — re-targets the session at the sender.  The
//! float-valued motion those events carry is applied by the simulation
//! outside this crate, using the coordinates in the returned event.

use vstd::prelude::*;

use crate::codec::spec_decode;
use crate::config::{NUM_SNACKS, TIME};
use crate::event::{wf_event, EventModel, NetworkEvent};
use crate::menu::Menu;
use crate::network::Connection;
use crate::player::Player;
use crate::snacks::{snacks_fresh, spawn_snacks, Snack};

verus! {

pub struct State {
    pub player1: Player,
    pub player2: Player,
    pub snacks: Vec<Snack>,
    pub time: u64,
    pub active: bool,
    pub menu: Menu,
    pub connection: Connection,
}

/// How one dispatched event relates the state after (`s1`) to the state
/// before (`s0`) — the rules of the event-dispatch glue:
///
/// - an idle event changes nothing;
/// - a collectible snapshot reactivates exactly the addressed snack, and a
///   snack id outside the fixed collection is ignored rather than trusted;
/// - a participant snapshot overwrites exactly the addressed participant's
///   score, and ids other than 1 and 2 are ignored;
/// - an anchor snapshot starts a fresh round: participants and snacks
///   reset, menu left, match activated, round timer armed, and the session
///   re-targeted at the snapshot's origin on the well-known port.
pub open spec fn dispatched(s0: State, s1: State, m: EventModel, now: u64) -> bool {
    match m {
        EventModel::Idle => s1 == s0,
        EventModel::Snack { id, .. } => {
            &&& s1.player1 == s0.player1
            &&& s1.player2 == s0.player2
            &&& s1.time == s0.time
            &&& s1.active == s0.active
            &&& s1.menu == s0.menu
            &&& s1.connection == s0.connection
            &&& s1.snacks@.len() == s0.snacks@.len()
            &&& (id < s0.snacks@.len() ==> {
                &&& s1.snacks@[id as int] == (Snack { id: s0.snacks@[id as int].id, active: true })
                &&& (forall|j: int|
                    0 <= j < s0.snacks@.len() && j != id ==> s1.snacks@[j] == s0.snacks@[j])
            })
            &&& (id >= s0.snacks@.len() ==> s1.snacks == s0.snacks)
        },
        EventModel::Player { id, score, .. } => {
            &&& s1.snacks == s0.snacks
            &&& s1.time == s0.time
            &&& s1.active == s0.active
            &&& s1.menu == s0.menu
            &&& s1.connection == s0.connection
            &&& (id == 1 ==> s1.player1 == (Player { id: s0.player1.id, score: score as usize })
                && s1.player2 == s0.player2)
            &&& (id == 2 ==> s1.player2 == (Player { id: s0.player2.id, score: score as usize })
                && s1.player1 == s0.player1)
            &&& (id != 1 && id != 2 ==> s1.player1 == s0.player1 && s1.player2 == s0.player2)
        },
        EventModel::Anchor { origin, .. } => {
            &&& s1.player1 == (Player { id: 1, score: 0 })
            &&& s1.player2 == (Player { id: 2, score: 0 })
            &&& s1.snacks@.len() == s0.snacks@.len()
            &&& snacks_fresh(s1.snacks@)
            &&& s1.active == true
            &&& s1.menu.active == false
            &&& s1.menu.remote@ == origin
            &&& s1.time == now + TIME
            &&& s1.connection.remote_view() == origin
            &&& s1.connection.port_view() == "4664"@
        },
    }
}

/// Re-targeting: when the datagram `d` from sender `a` decodes to a
/// world-anchor snapshot and is dispatched, the session afterwards targets
/// `a` on the well-known port — so every later `send` (whose contract
/// addresses frames to the session's current target) flows back to
/// whichever peer just contacted this one.
pub proof fn lemma_retargeting(
    s0: State,
    s1: State,
    d: Seq<u8>,
    a: Seq<char>,
    m: EventModel,
    now: u64,
)
    requires
        spec_decode(d, a) == Some(m),
        m is Anchor,
        dispatched(s0, s1, m, now),
    ensures
        s1.connection.remote_view() == a,
        s1.connection.port_view() == "4664"@,
{
    assert(m->Anchor_origin == a);
}

impl State {
    /// Snack ids are their indices into the fixed collection.
    pub open spec fn wf(&self) -> bool {
        forall|i: int| 0 <= i < self.snacks@.len() ==> #[trigger] self.snacks@[i].id == i
    }

    /// A fresh peer: menu shown, rehearsal mode running, session at its
    /// default target.
    pub fn new() -> (s: State)
        ensures
            s.wf(),
            s.player1 == (Player { id: 1, score: 0 }),
            s.player2 == (Player { id: 2, score: 0 }),
            s.snacks@.len() == NUM_SNACKS,
            snacks_fresh(s.snacks@),
            s.time == 0,
            s.active == true,
            s.menu.active == true,
            s.menu.remote@ == "127.0.0.1"@,
            s.connection.remote_view() == "127.0.0.1"@,
            s.connection.port_view() == "4664"@,
    {
        State {
            player1: Player::new(1),
            player2: Player::new(2),
            snacks: spawn_snacks(NUM_SNACKS),
            time: 0,
            active: true,
            menu: Menu::new(),
            connection: Connection::new(),
        }
    }

    /// The per-tick dispatch step.  `datagram` is what one non-blocking
    /// receive produced; `now` is the current time in seconds.  Returns
    /// the decoded event so the simulation can apply the float-valued
    /// motion it carries; everything plain has already been applied.
    pub fn update(&mut self, datagram: Option<(Vec<u8>, String)>, now: u64) -> (e: NetworkEvent)
        requires
            old(self).wf(),
            now <= u64::MAX - TIME,
        ensures
            final(self).wf(),
            wf_event(e),
            match datagram {
                None => e@ is Idle && *final(self) == *old(self),
                Some((d, a)) => {
                    &&& (match spec_decode(d@, a@) {
                        Some(m) => e@ == m,
                        None => e@ is Idle,
                    })
                    &&& dispatched(*old(self), *final(self), e@, now)
                },
            },
    {
        let e = self.connection.update(datagram);
        match &e {
            NetworkEvent::SnackUpdate(id, _position, _velocity) => {
                let i = *id;
                if i < self.snacks.len() {
                    let stable = self.snacks[i].id;
                    self.snacks[i] = Snack { id: stable, active: true };
                }
            },
            NetworkEvent::PlayerUpdate(id, score, _anchor) => {
                if *id == 1 {
                    self.player1.score = *score;
                } else if *id == 2 {
                    self.player2.score = *score;
                }
            },
            NetworkEvent::GameUpdate(origin, _position, _velocity) => {
                self.player1 = Player::new(1);
                self.player2 = Player::new(2);
                let n = self.snacks.len();
                self.snacks = spawn_snacks(n);
                self.menu.active = false;
                self.active = true;
                self.time = now + TIME;
                self.menu.remote = origin.clone();
                self.connection.connect(origin.as_str(), "4664");
            },
            NetworkEvent::Idle => {},
        }
        e
    }

    /// Starts a match locally (the menu's start action): fresh round, menu
    /// left, round timer armed, session pointed at the configured remote
    /// on the well-known port.  The simulation then sends its snack and
    /// anchor snapshots to announce the match.
    pub fn reset(&mut self, now: u64)
        requires
            now <= u64::MAX - TIME,
        ensures
            final(self).wf(),
            final(self).player1 == (Player { id: 1, score: 0 }),
            final(self).player2 == (Player { id: 2, score: 0 }),
            final(self).snacks@.len() == NUM_SNACKS,
            snacks_fresh(final(self).snacks@),
            final(self).menu.active == false,
            final(self).menu.remote == old(self).menu.remote,
            final(self).active == old(self).active,
            final(self).time == now + TIME,
            final(self).connection.remote_view() == old(self).menu.remote@,
            final(self).connection.port_view() == "4664"@,
    {
        self.menu.active = false;
        self.player1 = Player::new(1);
        self.player2 = Player::new(2);
        self.snacks = spawn_snacks(NUM_SNACKS);
        self.connection.connect(self.menu.remote.as_str(), "4664");
        self.time = now + TIME;
    }

    /// The round-timer check made every frame: when the armed time has
    /// passed, the peer falls back into the menu mode.
    pub fn tick_timer(&mut self, now: u64)
        ensures
            final(self).menu.active == (old(self).menu.active || now >= old(self).time),
            final(self).menu.remote == old(self).menu.remote,
            final(self).player1 == old(self).player1,
            final(self).player2 == old(self).player2,
            final(self).snacks == old(self).snacks,
            final(self).time == old(self).time,
            final(self).active == old(self).active,
            final(self).connection == old(self).connection,
    {
        if now >= self.time {
            self.menu.active = true;
        }
    }
}

} // verus!
