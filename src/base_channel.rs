//! State of a WebRTC base channel: the close flag and the terminal error.

use vstd::prelude::*;

verus! {

/// What a base channel records about its own lifetime. The peer connection
/// and data channel handles are held by the caller next to this value.
pub struct WebRTCBaseChannel {
    closed: bool,
    closed_reason: Option<String>,
}

impl WebRTCBaseChannel {
    pub closed spec fn spec_closed(&self) -> bool {
        self.closed
    }

    pub closed spec fn spec_closed_reason(&self) -> Option<String> {
        self.closed_reason
    }

    /// The state that `close` leaves behind.
    pub closed spec fn after_close(self) -> WebRTCBaseChannel {
        WebRTCBaseChannel { closed: true, closed_reason: self.closed_reason }
    }

    /// A fresh channel: open, with no terminal error.
    pub fn new() -> (r: WebRTCBaseChannel)
        ensures
            !r.spec_closed(),
            r.spec_closed_reason() is None,
    {
        WebRTCBaseChannel { closed: false, closed_reason: None }
    }

    /// Marks the channel closed. Returns true exactly when this call is the one
    /// that closed it, that is when the peer connection must now be closed; a
    /// later call changes nothing and returns false.
    pub fn close(&mut self) -> (must_close_peer: bool)
        ensures
            *final(self) == old(self).after_close(),
            final(self).spec_closed(),
            final(self).spec_closed_reason() == old(self).spec_closed_reason(),
            old(self).spec_closed() ==> *final(self) == *old(self),
            must_close_peer == !old(self).spec_closed(),
    {
        if self.closed {
            false
        } else {
            self.closed = true;
            true
        }
    }

    /// Whether `close` has been called.
    pub fn is_closed(&self) -> (r: bool)
        ensures
            r == self.spec_closed(),
    {
        self.closed
    }

    /// The error that the data channel reported, if any.
    pub fn closed_reason(&self) -> (r: Option<String>)
        ensures
            r == self.spec_closed_reason(),
    {
        self.closed_reason.clone()
    }

    /// Stores an error reported by the data channel. The channel is not closed
    /// by this; the last reported error is the one kept.
    pub fn record_error(&mut self, message: String)
        ensures
            final(self).spec_closed() == old(self).spec_closed(),
            final(self).spec_closed_reason() == Some(message),
    {
        self.closed_reason = Some(message);
    }
}

/// Closing is idempotent: after `close` the channel reports closed, and a
/// second `close` leaves the state as the first one left it and asks for no
/// further teardown.
pub proof fn lemma_close_idempotent(c: WebRTCBaseChannel)
    ensures
        c.after_close().spec_closed(),
        c.after_close().after_close() == c.after_close(),
        c.after_close().spec_closed_reason() == c.spec_closed_reason(),
{
}

} // verus!
