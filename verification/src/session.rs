//! Per-connection session lifecycle: the state machine that adapts one
//! socket to the hub's event vocabulary.
//!
//! The surrounding runtime owns the socket and the hub handle; it feeds
//! each inbound frame and each lifecycle hook into the session and then
//! performs the returned action.  The session decides: a registration
//! happens once, text frames are trimmed and forwarded under the
//! session's id, protocol violations end the session without touching
//! anyone else, and the bulk presence eviction for the session's origin
//! runs exactly once.

use vstd::prelude::*;

use crate::player::PlayersRemoveByServer;

verus! {

/// What `str::trim` returns: the character sequence with leading and
/// trailing whitespace removed — a function of the characters alone.
pub uninterp spec fn trim_of(s: Seq<char>) -> Seq<char>;

/// Relies on `str::trim`: the result depends on the characters alone.
#[verifier::external_body]
fn trim(s: &str) -> (r: &str)
    ensures
        r@ == trim_of(s@),
{
    s.trim()
}

/// Where a connection stands: registration happens once, deregistration
/// happens once and is final — an id is never resurrected.
pub enum SessionPhase {
    Unregistered,
    Registered,
    Deregistered,
}

/// One inbound frame, reduced to what the session logic reads.
pub enum WsFrame {
    Ping(Vec<u8>),
    Pong(Vec<u8>),
    Text(String),
    Binary(Vec<u8>),
    Close,
    Continuation,
    Nop,
    /// The frame could not be decoded at all.
    Malformed,
}

/// What the runtime must do after the session has seen a frame.
pub enum SessionAction {
    /// Nothing; the session stays as it was.
    Ignore,
    /// Hand the text to the hub as a client message under this id.
    Forward(u64, String),
    /// Acknowledge the close and stop the session.
    CloseSocket,
    /// Stop the session without a close handshake.
    Stop,
}

/// The session: one per open connection, owning nothing but its own
/// lifecycle state.
pub struct WsSession {
    id: u64,
    name: String,
    phase: SessionPhase,
    cleaned: bool,
}

impl WsSession {
    /// The id the hub assigned, meaningful once registered.
    pub closed spec fn spec_id(&self) -> u64 {
        self.id
    }

    /// The origin label this session declared.
    pub closed spec fn spec_name(&self) -> Seq<char> {
        self.name@
    }

    /// Where the connection stands.
    pub closed spec fn spec_phase(&self) -> SessionPhase {
        self.phase
    }

    /// Whether the one-shot presence eviction has already run.
    pub closed spec fn spec_cleaned(&self) -> bool {
        self.cleaned
    }

    /// The stored id, for the deregistration event the runtime sends on
    /// termination.
    pub fn id(&self) -> (r: u64)
        ensures
            r == self.spec_id(),
    {
        self.id
    }

    /// Whether the session is live: registered and not yet ended.
    pub fn is_registered(&self) -> (r: bool)
        ensures
            r == (self.spec_phase() is Registered),
    {
        matches!(self.phase, SessionPhase::Registered)
    }

    /// A fresh session for a connection that has not registered yet.
    pub fn new(name: String) -> (r: WsSession)
        ensures
            r.spec_phase() is Unregistered,
            r.spec_name() == name@,
            !r.spec_cleaned(),
    {
        WsSession { id: 0, name, phase: SessionPhase::Unregistered, cleaned: false }
    }

    /// Feeds in the outcome of the connect handshake: the id the hub
    /// assigned, or `None` when the hub was unreachable — which is fatal
    /// to this session only, so the caller must stop it when `stop`
    /// comes back true.
    pub fn on_connect_reply(&mut self, reply: Option<u64>) -> (stop: bool)
        requires
            old(self).spec_phase() is Unregistered,
        ensures
            final(self).spec_name() == old(self).spec_name(),
            final(self).spec_cleaned() == old(self).spec_cleaned(),
            reply matches Some(id) ==> !stop && final(self).spec_phase() is Registered && final(self).spec_id() == id,
            reply is None ==> stop && final(self).spec_phase() is Deregistered,
    {
        match reply {
            Some(id) => {
                self.id = id;
                self.phase = SessionPhase::Registered;
                false
            },
            None => {
                self.phase = SessionPhase::Deregistered;
                true
            },
        }
    }

    /// Handles one inbound frame on a registered session.  Text is
    /// trimmed and forwarded under this session's id; ping, pong and nop
    /// frames are ignored; a close ends the session with an
    /// acknowledgement; binary and continuation frames, and frames that
    /// could not be decoded, are protocol violations that end the
    /// session and nothing else.
    pub fn on_frame(&mut self, frame: WsFrame) -> (action: SessionAction)
        requires
            old(self).spec_phase() is Registered,
        ensures
            final(self).spec_id() == old(self).spec_id(),
            final(self).spec_name() == old(self).spec_name(),
            final(self).spec_cleaned() == old(self).spec_cleaned(),
            frame matches WsFrame::Text(t) ==> (action matches SessionAction::Forward(id, text)
                && id == old(self).spec_id() && text@ == trim_of(t@)) && final(self).spec_phase() is Registered,
            frame matches WsFrame::Ping(_) ==> action is Ignore && final(self).spec_phase() is Registered,
            frame matches WsFrame::Pong(_) ==> action is Ignore && final(self).spec_phase() is Registered,
            frame is Nop ==> action is Ignore && final(self).spec_phase() is Registered,
            frame is Close ==> action is CloseSocket && final(self).spec_phase() is Deregistered,
            frame matches WsFrame::Binary(_) ==> action is Stop && final(self).spec_phase() is Deregistered,
            frame is Continuation ==> action is Stop && final(self).spec_phase() is Deregistered,
            frame is Malformed ==> action is Stop && final(self).spec_phase() is Deregistered,
    {
        match frame {
            WsFrame::Ping(_) => SessionAction::Ignore,
            WsFrame::Pong(_) => SessionAction::Ignore,
            WsFrame::Nop => SessionAction::Ignore,
            WsFrame::Text(t) => {
                let trimmed = trim(t.as_str()).to_owned();
                SessionAction::Forward(self.id, trimmed)
            },
            WsFrame::Close => {
                self.phase = SessionPhase::Deregistered;
                SessionAction::CloseSocket
            },
            WsFrame::Binary(_) => {
                self.phase = SessionPhase::Deregistered;
                SessionAction::Stop
            },
            WsFrame::Continuation => {
                self.phase = SessionPhase::Deregistered;
                SessionAction::Stop
            },
            WsFrame::Malformed => {
                self.phase = SessionPhase::Deregistered;
                SessionAction::Stop
            },
        }
    }

    /// The stop hook: the first call yields the bulk presence eviction
    /// for this session's origin and marks the session deregistered;
    /// any further call yields nothing, so the eviction runs exactly
    /// once however often the session is told to stop.
    pub fn on_stop(&mut self) -> (evict: Option<PlayersRemoveByServer>)
        ensures
            final(self).spec_id() == old(self).spec_id(),
            final(self).spec_name() == old(self).spec_name(),
            final(self).spec_phase() is Deregistered,
            final(self).spec_cleaned(),
            !old(self).spec_cleaned() ==> (evict matches Some(e) && e.server@ == old(
                self,
            ).spec_name()),
            old(self).spec_cleaned() ==> evict is None,
    {
        self.phase = SessionPhase::Deregistered;
        if self.cleaned {
            None
        } else {
            self.cleaned = true;
            Some(PlayersRemoveByServer { server: self.name.clone() })
        }
    }
}

} // verus!
