//! The command relay: a bounded, single-consumer queue between the
//! request-intake interface and the session's outbound half.
//!
//! Capacity one, on purpose: it gives natural backpressure. A second command
//! submitted while one is still unconsumed is refused — never silently
//! replaces the first. A single consumer drains the queue one command at a
//! time and turns each into an outbound launch frame, so outbound writes are
//! serialized in submission order.

use crate::codec::build_launch_frame;
use crate::codec::launch_text;
use vstd::prelude::*;

verus! {

/// A video launch request submitted by the request-intake interface.
pub struct YouTube {
    pub video_id: String,
}

impl View for YouTube {
    type V = Seq<char>;

    open spec fn view(&self) -> Seq<char> {
        self.video_id@
    }
}

/// Why a submission was refused.
#[derive(Clone, Copy, Debug, PartialEq, Eq, Structural)]
pub enum RelayError {
    /// The slot already holds an unconsumed command (backpressure).
    RelayFull,
    /// The session has terminated; nothing will consume the queue again.
    RelayClosed,
}

/// The single-slot command queue.
pub struct CommandRelay {
    pub slot: Option<YouTube>,
    pub closed: bool,
}

impl CommandRelay {
    /// The identifier of the queued command, if one waits.
    pub open spec fn spec_pending(self) -> Option<Seq<char>> {
        match self.slot {
            Some(c) => Some(c.video_id@),
            None => None,
        }
    }

    /// An open, empty relay.
    pub fn new() -> (r: Self)
        ensures
            r.slot is None,
            !r.closed,
    {
        CommandRelay { slot: None, closed: false }
    }

    /// Enqueue one command. Refused with `RelayClosed` once the session has
    /// terminated, and with `RelayFull` while an earlier command is still
    /// unconsumed; a refused submission changes nothing.
    pub fn submit(&mut self, cmd: YouTube) -> (r: Result<(), RelayError>)
        ensures
            old(self).closed ==> r == Err::<(), RelayError>(RelayError::RelayClosed) && *final(self)
                == *old(self),
            !old(self).closed && old(self).slot is Some ==> r == Err::<(), RelayError>(
                RelayError::RelayFull,
            ) && *final(self) == *old(self),
            !old(self).closed && old(self).slot is None ==> r == Ok::<(), RelayError>(())
                && !final(self).closed && final(self).spec_pending() == Some(cmd.video_id@),
    {
        if self.closed {
            return Err(RelayError::RelayClosed);
        }
        if self.slot.is_some() {
            return Err(RelayError::RelayFull);
        }
        self.slot = Some(cmd);
        Ok(())
    }

    /// Dequeue the waiting command, if any, leaving the slot free.
    pub fn take_pending(&mut self) -> (r: Option<YouTube>)
        ensures
            final(self).slot is None,
            final(self).closed == old(self).closed,
            match old(self).slot {
                Some(c) => r matches Some(x) && x.video_id@ == c.video_id@,
                None => r is None,
            },
    {
        self.slot.take()
    }

    /// Dequeue the waiting command and build its outbound launch frame, the
    /// one consumption step of the relay loop.
    pub fn next_outbound(&mut self) -> (r: Option<String>)
        ensures
            final(self).slot is None,
            final(self).closed == old(self).closed,
            match old(self).slot {
                Some(c) => r matches Some(s) && s@ == launch_text(c.video_id@),
                None => r is None,
            },
    {
        match self.take_pending() {
            Some(cmd) => Some(build_launch_frame(cmd.video_id.as_str())),
            None => None,
        }
    }

    /// Record that the session has terminated: later submissions are refused.
    pub fn close(&mut self)
        ensures
            final(self).closed,
            final(self).slot == old(self).slot,
    {
        self.closed = true;
    }
}

} // verus!
