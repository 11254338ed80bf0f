//! The WebSocket bridge: once both handshakes are done, two relay loops
//! run concurrently, client to upstream and upstream to client. Each loop
//! feeds its events through the state machine here, which decides what to
//! forward and when the whole session is over. Frames cross the bridge
//! verbatim, ping, pong and close included, so liveness and close
//! semantics reach the peer; once either side ends, both transports are
//! shut down — no half-open bridge is kept alive.

use vstd::prelude::*;

verus! {

/// One WebSocket message, as the bridge sees it. Payloads are carried
/// opaquely; the bridge never reads them.
#[derive(Debug, PartialEq, Eq, Clone)]
pub enum Frame {
    Text(String),
    Binary(Vec<u8>),
    Ping(Vec<u8>),
    Pong(Vec<u8>),
    Close,
}

/// The two ends of a bridge session.
#[derive(Clone, Copy, PartialEq, Eq, Structural, Debug)]
pub enum BridgeEnd {
    Client,
    Upstream,
}

/// The peer of an end.
pub open spec fn peer_of(e: BridgeEnd) -> BridgeEnd {
    match e {
        BridgeEnd::Client => BridgeEnd::Upstream,
        BridgeEnd::Upstream => BridgeEnd::Client,
    }
}

/// What one relay loop observed on its transport.
#[derive(Debug, PartialEq, Eq, Clone)]
pub enum BridgeEvent {
    Arrived(BridgeEnd, Frame),
    Eof(BridgeEnd),
    Failed(BridgeEnd),
}

/// What the session must do next. `Forward` delivers a frame to the named
/// end; `Shutdown` cancels both relay loops and closes both transports.
#[derive(Debug, PartialEq, Eq, Clone)]
pub enum BridgeAction {
    Forward(BridgeEnd, Frame),
    Shutdown,
}

/// The lifetime-bound pairing of the two transports being relayed: open
/// until either side ends it.
pub struct BridgeSession {
    pub open: bool,
}

impl BridgeSession {
    /// A session begins open, right after both handshakes succeeded.
    pub fn begin() -> (s: BridgeSession)
        ensures
            s.open,
    {
        BridgeSession { open: true }
    }

    /// Advance the session by one observed event.
    ///
    /// An arriving frame is forwarded verbatim to the other end; a close
    /// frame is still forwarded, and ends the session. End-of-stream or a
    /// transport error on either side shuts the whole bridge down, and a
    /// session once ended only ever answers `Shutdown`.
    pub fn step(&mut self, ev: BridgeEvent) -> (a: BridgeAction)
        ensures
            step_rel(*old(self), ev, *final(self), a),
    {
        if !self.open {
            return BridgeAction::Shutdown;
        }
        match ev {
            BridgeEvent::Arrived(side, f) => {
                let ends_session = match &f {
                    Frame::Close => true,
                    _ => false,
                };
                if ends_session {
                    self.open = false;
                }
                let to = match side {
                    BridgeEnd::Client => BridgeEnd::Upstream,
                    BridgeEnd::Upstream => BridgeEnd::Client,
                };
                BridgeAction::Forward(to, f)
            },
            BridgeEvent::Eof(_) => {
                self.open = false;
                BridgeAction::Shutdown
            },
            BridgeEvent::Failed(_) => {
                self.open = false;
                BridgeAction::Shutdown
            },
        }
    }
}

/// Whichever end ends the session, the other is torn down with it: after
/// an end-of-stream, an error, or a close frame from either side, the
/// session is no longer open, and every later event answers `Shutdown`.
pub proof fn lemma_no_half_open_bridge(s: BridgeSession, ev: BridgeEvent, s2: BridgeSession, a: BridgeAction, later: BridgeEvent, s3: BridgeSession, a2: BridgeAction)
    requires
        s.open,
        ev is Eof || ev is Failed || (ev matches BridgeEvent::Arrived(_, f) && f is Close),
        step_rel(s, ev, s2, a),
        step_rel(s2, later, s3, a2),
    ensures
        !s2.open,
        a2 is Shutdown,
        !s3.open,
{
}

/// The step contract as one relation, for stating session-long facts.
pub open spec fn step_rel(s: BridgeSession, ev: BridgeEvent, s2: BridgeSession, a: BridgeAction) -> bool {
    &&& (!s.open ==> a is Shutdown && !s2.open)
    &&& (s.open ==> match ev {
        BridgeEvent::Arrived(side, f) => a == BridgeAction::Forward(peer_of(side), f)
            && (s2.open <==> !(f is Close)),
        BridgeEvent::Eof(_) => a is Shutdown && !s2.open,
        BridgeEvent::Failed(_) => a is Shutdown && !s2.open,
    })
}

} // verus!
