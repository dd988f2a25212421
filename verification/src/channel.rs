//! The handoff channel: the single well-known record through which one stage
//! passes the payload's location and size to a later, independently executing
//! stage.  The record is published once and consumed once; both violations of
//! that protocol are reported loudly rather than masked.

use vstd::prelude::*;

use crate::EngineError;

verus! {

/// The channel's lifecycle.
#[derive(Clone, Copy, Debug, PartialEq, Eq, Structural)]
pub enum ChannelState {
    /// Nothing has been published yet.
    Empty,
    /// A payload record is held and has not been consumed.
    Published { address: u64, length: u64 },
    /// The record was handed out; a second consume is a protocol violation.
    Consumed,
}

/// The state after `publish(address, length)`: a publish is accepted only on
/// an empty channel and changes nothing otherwise.
pub open spec fn publish_transition(s: ChannelState, address: u64, length: u64) -> ChannelState {
    if s is Empty {
        ChannelState::Published { address, length }
    } else {
        s
    }
}

/// Whether a publish on state `s` is accepted.
pub open spec fn publish_accepted(s: ChannelState) -> bool {
    s is Empty
}

/// The state after `consume`: a held record moves to `Consumed`; an empty or
/// already-consumed channel is unchanged.
pub open spec fn consume_transition(s: ChannelState) -> ChannelState {
    if s is Published {
        ChannelState::Consumed
    } else {
        s
    }
}

/// What `consume` hands out on state `s`, if anything.
pub open spec fn consume_value(s: ChannelState) -> Option<(u64, u64)> {
    match s {
        ChannelState::Published { address, length } => Some((address, length)),
        _ => None,
    }
}

/// Process-wide state surviving across independently loaded images, holding
/// the payload's address and length.
pub struct HandoffChannel {
    pub state: ChannelState,
}

impl HandoffChannel {
    /// A fresh, empty channel.
    pub fn new() -> (c: HandoffChannel)
        ensures
            c.state == ChannelState::Empty,
    {
        HandoffChannel { state: ChannelState::Empty }
    }

    /// Publishes the payload record.  Returns whether the record was taken:
    /// a second publish is refused and leaves the held record untouched.
    pub fn publish(&mut self, address: u64, length: u64) -> (r: bool)
        ensures
            final(self).state == publish_transition(old(self).state, address, length),
            r == publish_accepted(old(self).state),
    {
        match self.state {
            ChannelState::Empty => {
                self.state = ChannelState::Published { address, length };
                true
            },
            _ => false,
        }
    }

    /// Hands out the published record exactly once.  Consuming before a
    /// publish, or a second time, fails with `ChannelEmpty`.
    pub fn consume(&mut self) -> (r: Result<(u64, u64), EngineError>)
        ensures
            final(self).state == consume_transition(old(self).state),
            match consume_value(old(self).state) {
                Some(p) => r == Ok::<(u64, u64), EngineError>(p),
                None => r == Err::<(u64, u64), EngineError>(EngineError::ChannelEmpty),
            },
    {
        match self.state {
            ChannelState::Published { address, length } => {
                self.state = ChannelState::Consumed;
                Ok((address, length))
            },
            _ => Err(EngineError::ChannelEmpty),
        }
    }
}

/// After exactly one publish of `(address, length)` on an empty channel, a
/// consume returns that pair unchanged.  The channel state is the only value
/// the transitions read, so any number of execution contexts may come and go
/// in between without affecting what is handed out.
pub proof fn lemma_publish_then_consume(address: u64, length: u64)
    ensures
        consume_value(publish_transition(ChannelState::Empty, address, length)) == Some(
            (address, length),
        ),
{
}

} // verus!
