use vstd::prelude::*;
use crate::hub::RecvOutcome;
use crate::ids::fresh_token;
use crate::message::ChannelMessage;

verus! {

/// The lifecycle of a joined connection: the two relay directions running,
/// or everything stopped. The joining stage that precedes them has no relay
/// value at all — `ConnectionRelay::begin` is the entry into `Relaying`,
/// and only an authorized join ever reaches it.
pub enum RelayPhase {
    Relaying,
    Closed,
}

/// One observation made by either direction of a running relay.
pub enum RelayEvent {
    /// The inbound direction received a text frame from the socket.
    InboundText(String),
    /// The inbound stream ended: the socket closed, errored, or produced a
    /// frame that is not text.
    InboundEnded,
    /// The outbound direction was handed an outcome by its subscription.
    Delivery(RecvOutcome),
    /// The outbound direction failed to write to the socket.
    WriteFailed,
}

/// What the surrounding connection handler must do next.
pub enum RelayAction {
    /// Publish this tagged message to the channel's hub.
    Publish(ChannelMessage),
    /// Write this payload to the socket as a text frame.
    Forward(String),
    /// Nothing to do; suspend until the next event.
    Wait,
    /// End the relay: cancel the sibling direction, release the
    /// subscription and close the socket.
    Stop,
}

/// Whether an event ends the relay: the inbound stream ending, a socket
/// write failing, or the subscription reporting the hub closed. Falling
/// behind the hub's capacity is not terminal.
pub open spec fn is_terminal_event(e: RelayEvent) -> bool {
    ||| e matches RelayEvent::InboundEnded
    ||| e matches RelayEvent::WriteFailed
    ||| e matches RelayEvent::Delivery(o) && o matches RecvOutcome::Closed
}

/// The view of the one diagnostic payload a rejected join receives before
/// its connection is closed.
pub open spec fn rejection_frame_text() -> Seq<char> {
    "Invalid channel ID or password"@
}

/// The diagnostic frame sent on a rejected join. An absent channel id and a
/// wrong password produce this same frame, so a client cannot probe which
/// of the two it was.
pub fn rejection_frame() -> (r: String)
    ensures
        r@ == rejection_frame_text(),
{
    "Invalid channel ID or password".to_owned()
}

/// The decision half of one joined connection: its minted identity and
/// where it stands in its lifecycle. The surrounding handler performs the
/// socket and scheduling work and feeds every observation through `step`.
pub struct ConnectionRelay {
    phase: RelayPhase,
    identity: String,
}

impl ConnectionRelay {
    pub closed spec fn phase(&self) -> RelayPhase {
        self.phase
    }

    /// The opaque tag minted for this connection at join time, used only to
    /// filter its own messages out of its outbound direction.
    pub closed spec fn identity(&self) -> Seq<char> {
        self.identity@
    }

    /// Entry into the relay. Only a successful authorization mints a fresh
    /// connection identity and starts relaying; a failed one yields the
    /// single diagnostic frame to send before closing, and mints nothing.
    pub fn begin(authorized: bool) -> (r: Result<ConnectionRelay, String>)
        ensures
            authorized ==> (r matches Ok(c) && c.phase() == RelayPhase::Relaying),
            !authorized ==> (r matches Err(f) && f@ == rejection_frame_text()),
    {
        if authorized {
            Ok(ConnectionRelay { phase: RelayPhase::Relaying, identity: fresh_token() })
        } else {
            Err(rejection_frame())
        }
    }

    pub fn is_closed(&self) -> (r: bool)
        ensures
            r == (self.phase() == RelayPhase::Closed),
    {
        match self.phase {
            RelayPhase::Closed => true,
            RelayPhase::Relaying => false,
        }
    }

    /// Drive the relay by one observed event.
    ///
    /// Termination propagates: exactly the terminal events — the inbound
    /// stream ending, a socket write failing, the hub closing — move the
    /// relay to `Closed` and demand `Stop`, which cancels the sibling
    /// direction and releases the subscription; every other event leaves
    /// both directions running. An inbound text frame is published tagged
    /// with this connection's identity; a delivered message is forwarded
    /// exactly when it carries someone else's tag (self-exclusion); a
    /// capacity overrun is silently tolerated.
    pub fn step(&mut self, event: RelayEvent) -> (a: RelayAction)
        requires
            old(self).phase() == RelayPhase::Relaying,
        ensures
            final(self).identity() == old(self).identity(),
            final(self).phase() == (if is_terminal_event(event) {
                RelayPhase::Closed
            } else {
                RelayPhase::Relaying
            }),
            (a == RelayAction::Stop) <==> is_terminal_event(event),
            event matches RelayEvent::InboundText(t) ==> (a matches RelayAction::Publish(m)
                && m@.sender_id == old(self).identity() && m@.content == t@),
            event matches RelayEvent::Delivery(o) ==> match o {
                RecvOutcome::Message(m) => {
                    if m@.sender_id == old(self).identity() {
                        a == RelayAction::Wait
                    } else {
                        a matches RelayAction::Forward(p) && p@ == m@.content
                    }
                },
                RecvOutcome::Pending => a == RelayAction::Wait,
                RecvOutcome::Lagged => a == RelayAction::Wait,
                RecvOutcome::Closed => a == RelayAction::Stop,
            },
            event matches RelayEvent::WriteFailed ==> a == RelayAction::Stop,
            event matches RelayEvent::InboundEnded ==> a == RelayAction::Stop,
    {
        match event {
            RelayEvent::InboundText(t) => RelayAction::Publish(
                ChannelMessage::new(self.identity.clone(), t),
            ),
            RelayEvent::InboundEnded => {
                self.phase = RelayPhase::Closed;
                RelayAction::Stop
            },
            RelayEvent::WriteFailed => {
                self.phase = RelayPhase::Closed;
                RelayAction::Stop
            },
            RelayEvent::Delivery(o) => match o {
                RecvOutcome::Message(m) => {
                    if m.sender_id.eq(&self.identity) {
                        RelayAction::Wait
                    } else {
                        RelayAction::Forward(m.content)
                    }
                },
                RecvOutcome::Pending => RelayAction::Wait,
                RecvOutcome::Lagged => RelayAction::Wait,
                RecvOutcome::Closed => {
                    self.phase = RelayPhase::Closed;
                    RelayAction::Stop
                },
            },
        }
    }
}

} // verus!
