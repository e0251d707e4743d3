//! The protocol session state machine.
//!
//! The session drives the pairing handshake to completion: after the
//! handshake frame is sent, an interim `response` acknowledgement means the
//! television is prompting the user on screen, and a terminal `registered`
//! confirmation carries the new authorization token, which is written to the
//! credential store. Every other inbound frame is ignored: it changes neither
//! the session state nor the store, and never ends the session.

use crate::codec::FrameView;
use crate::codec::ProtocolMessage;
use crate::codec::parse_frame;
use crate::codec::parsed_frame;
use crate::codec::str_eq;
use crate::store::CredentialStore;
use vstd::prelude::*;

verus! {

/// The phases of the pairing handshake. `Registered` is terminal: from there
/// every further inbound frame is treated as a generic command response.
#[derive(Clone, Copy, Debug, PartialEq, Eq, Structural)]
pub enum SessionState {
    /// The connection is being established; no handshake is out yet.
    Connecting,
    /// The handshake frame has been written to the connection.
    HandshakeSent,
    /// The television acknowledged the handshake and is prompting the user.
    AwaitingUserAction,
    /// Pairing completed; the token has been offered to the store.
    Registered,
}

/// What the session did with one inbound frame.
#[derive(Clone, Copy, Debug, PartialEq, Eq, Structural)]
pub enum FrameDisposition {
    /// An interim pairing acknowledgement: the user must accept on screen.
    PairingPrompt,
    /// A terminal pairing confirmation: a new token was stored.
    PairingComplete,
    /// Anything else: logged and ignored.
    Ignored,
}

/// An interim pairing acknowledgement: `{type:"response", id:"register_0"}`.
pub open spec fn is_pairing_prompt(m: FrameView) -> bool {
    m.msg_type == "response"@ && m.msg_id == "register_0"@
}

/// A terminal pairing confirmation: `{type:"registered", id:"register_0"}`.
pub open spec fn is_pairing_grant(m: FrameView) -> bool {
    m.msg_type == "registered"@ && m.msg_id == "register_0"@
}

/// Whether a frame completes pairing in a given state: a grant that carries a
/// token, received while the handshake is still open.
pub open spec fn pairing_completes(st: SessionState, m: FrameView) -> bool {
    &&& is_pairing_grant(m)
    &&& m.client_key is Some
    &&& (st == SessionState::HandshakeSent || st == SessionState::AwaitingUserAction)
}

/// The state after one inbound frame. A prompt moves a freshly sent
/// handshake into the waiting phase; a completing grant reaches
/// `Registered`; everything else leaves the state alone.
pub open spec fn next_state(st: SessionState, m: FrameView) -> SessionState {
    if is_pairing_prompt(m) && st == SessionState::HandshakeSent {
        SessionState::AwaitingUserAction
    } else if pairing_completes(st, m) {
        SessionState::Registered
    } else {
        st
    }
}

/// How one inbound frame is classified in a given state.
pub open spec fn disposition_of(st: SessionState, m: FrameView) -> FrameDisposition {
    if is_pairing_prompt(m) {
        FrameDisposition::PairingPrompt
    } else if pairing_completes(st, m) {
        FrameDisposition::PairingComplete
    } else {
        FrameDisposition::Ignored
    }
}

/// A frame that is neither a pairing prompt nor a completing grant is inert:
/// it leaves the session state as it was and is merely logged. Together with
/// the contract of [`Session::handle_frame`] — which leaves the store
/// untouched on every frame that does not complete pairing — this is the
/// idempotence of unrecognized traffic.
pub proof fn lemma_unrecognized_frame_is_inert(st: SessionState, m: FrameView)
    requires
        !is_pairing_prompt(m),
        !pairing_completes(st, m),
    ensures
        next_state(st, m) == st,
        disposition_of(st, m) == FrameDisposition::Ignored,
{
}

/// The pairing session.
pub struct Session {
    pub state: SessionState,
}

impl Session {
    /// A session whose connection is being established.
    pub fn new() -> (s: Self)
        ensures
            s.state == SessionState::Connecting,
    {
        Session { state: SessionState::Connecting }
    }

    /// Record that the handshake frame was written to the connection.
    pub fn note_handshake_sent(&mut self)
        requires
            old(self).state == SessionState::Connecting,
        ensures
            final(self).state == SessionState::HandshakeSent,
    {
        self.state = SessionState::HandshakeSent;
    }

    /// Feed one decoded inbound frame to the state machine. A completing
    /// grant supersedes the stored token; every other frame leaves the store
    /// untouched, and an unrecognized frame leaves the session state
    /// untouched as well.
    pub fn handle_frame(&mut self, store: &mut CredentialStore, msg: &ProtocolMessage) -> (d:
        FrameDisposition)
        requires
            old(store).wf(),
            old(store).rows@.len() < 2147483646,
        ensures
            final(store).wf(),
            final(self).state == next_state(old(self).state, msg@),
            d == disposition_of(old(self).state, msg@),
            pairing_completes(old(self).state, msg@) ==> old(store).superseded_by(
                *final(store),
                msg@.client_key.unwrap(),
            ),
            !pairing_completes(old(self).state, msg@) ==> *final(store) == *old(store),
    {
        proof {
            reveal_strlit("response");
            reveal_strlit("registered");
            reveal_strlit("register_0");
        }
        let is_register_id = str_eq(msg.msg_id.as_str(), "register_0");
        if str_eq(msg.msg_type.as_str(), "response") && is_register_id {
            proof {
                // the two frame types differ: their names have different lengths
                assert("response"@.len() == 8);
                assert("registered"@.len() == 10);
                assert(!pairing_completes(old(self).state, msg@));
            }
            if self.state == SessionState::HandshakeSent {
                self.state = SessionState::AwaitingUserAction;
            }
            return FrameDisposition::PairingPrompt;
        }
        if str_eq(msg.msg_type.as_str(), "registered") && is_register_id {
            match &msg.client_key {
                Some(k) => {
                    if self.state == SessionState::HandshakeSent || self.state
                        == SessionState::AwaitingUserAction {
                        store.set_active(k.clone());
                        self.state = SessionState::Registered;
                        return FrameDisposition::PairingComplete;
                    }
                },
                None => {},
            }
        }
        FrameDisposition::Ignored
    }

    /// Feed one raw inbound text to the state machine: decode it, then act as
    /// [`Session::handle_frame`] does. A text without the expected frame
    /// shape changes nothing and is ignored.
    pub fn handle_raw(&mut self, store: &mut CredentialStore, raw: &str) -> (d: FrameDisposition)
        requires
            old(store).wf(),
            old(store).rows@.len() < 2147483646,
        ensures
            final(store).wf(),
            match parsed_frame(raw@) {
                Some(m) => {
                    &&& final(self).state == next_state(old(self).state, m)
                    &&& d == disposition_of(old(self).state, m)
                    &&& pairing_completes(old(self).state, m) ==> old(store).superseded_by(
                        *final(store),
                        m.client_key.unwrap(),
                    )
                    &&& !pairing_completes(old(self).state, m) ==> *final(store) == *old(store)
                },
                None => {
                    &&& *final(self) == *old(self)
                    &&& *final(store) == *old(store)
                    &&& d == FrameDisposition::Ignored
                },
            },
    {
        match parse_frame(raw) {
            Some(m) => self.handle_frame(store, &m),
            None => FrameDisposition::Ignored,
        }
    }
}

} // verus!
