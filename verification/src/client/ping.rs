//! The ping machine: a PINGREQ goes to the server every half of the
//! keep-alive time.
//!
//! Points in time are counted in nanoseconds from an origin of the caller's
//! choosing.

use crate::proto::Packet;
use crate::time::duration_nanos;
use std::time::Duration;
use vstd::prelude::*;

verus! {

/// Where the machine stands.
#[derive(Clone, Copy, Debug, PartialEq, Eq, Structural)]
pub enum State {
    BeginWaitingForNextPing,
    /// The next ping is due at the given time.
    WaitingForNextPing(u128),
}

/// The time at which the next ping is due, seen from `now`: half the
/// keep-alive time later, or at the end of time where that is sooner.
pub open spec fn spec_deadline(now: u128, keep_alive: Duration) -> u128 {
    if now + duration_nanos(keep_alive) / 2 > u128::MAX {
        u128::MAX
    } else {
        (now + duration_nanos(keep_alive) / 2) as u128
    }
}

/// The time at which the next ping is due, seen from `now`.
pub fn deadline(now: u128, keep_alive: Duration) -> (due: u128)
    ensures
        due == spec_deadline(now, keep_alive),
{
    now.saturating_add(keep_alive.as_nanos() / 2)
}

/// Where the machine stands once it has seen the packet from the server: a
/// PINGRESP puts the next ping half the keep-alive time from now.
pub open spec fn spec_seen(state: State, packet: Option<Packet>, now: u128, keep_alive: Duration) -> State {
    match (packet, state) {
        (Some(Packet::PingResp), State::WaitingForNextPing(_)) => State::WaitingForNextPing(
            spec_deadline(now, keep_alive),
        ),
        _ => state,
    }
}

/// The time at which the ping is due that the machine waits for.
pub open spec fn spec_due(state: State, now: u128, keep_alive: Duration) -> u128 {
    match state {
        State::BeginWaitingForNextPing => spec_deadline(now, keep_alive),
        State::WaitingForNextPing(due) => due,
    }
}

impl State {
    /// One pass of the machine at the time `now`. A PINGRESP is taken out of
    /// `packet`. Where a ping is due, the pass returns a PINGREQ, and the
    /// next ping is due half the keep-alive time after this one was.
    pub fn poll(&mut self, packet: &mut Option<Packet>, now: u128, keep_alive: Duration) -> (ping:
        Option<Packet>)
        ensures
            *final(packet) == if *old(packet) matches Some(Packet::PingResp) {
                None
            } else {
                *old(packet)
            },
            ({
                let due = spec_due(spec_seen(*old(self), *old(packet), now, keep_alive), now, keep_alive);
                if now >= due {
                    &&& ping matches Some(Packet::PingReq)
                    &&& *final(self) == State::WaitingForNextPing(spec_deadline(due, keep_alive))
                } else {
                    &&& ping is None
                    &&& *final(self) == State::WaitingForNextPing(due)
                }
            }),
    {
        let is_ping_response = match packet {
            Some(Packet::PingResp) => true,
            _ => false,
        };
        if is_ping_response {
            *packet = None;
            match self {
                State::BeginWaitingForNextPing => (),
                State::WaitingForNextPing(_) => {
                    *self = State::WaitingForNextPing(deadline(now, keep_alive));
                },
            }
        }
        let due = match self {
            State::BeginWaitingForNextPing => deadline(now, keep_alive),
            State::WaitingForNextPing(due) => *due,
        };
        if now >= due {
            *self = State::WaitingForNextPing(deadline(due, keep_alive));
            Some(Packet::PingReq)
        } else {
            *self = State::WaitingForNextPing(due);
            None
        }
    }

    /// Readies the machine for a new connection.
    pub fn new_connection(&mut self)
        ensures
            *final(self) == State::BeginWaitingForNextPing,
    {
        *self = State::BeginWaitingForNextPing;
    }

    /// The time at which the next ping is due, once the machine waits for
    /// one.
    pub fn next_deadline(&self) -> (due: Option<u128>)
        ensures
            due == match *self {
                State::BeginWaitingForNextPing => None::<u128>,
                State::WaitingForNextPing(due) => Some(due),
            },
    {
        match self {
            State::BeginWaitingForNextPing => None,
            State::WaitingForNextPing(due) => Some(*due),
        }
    }
}

} // verus!
