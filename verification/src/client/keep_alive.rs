//! Keep-alives: one round every interval, resent each second until the
//! client answers, and the connection closed when it stays silent too long.
use crate::packets::client_bound::{C1EKeepAlive, ClientBoundPacket};
use crate::packets::RawPacket;
use vstd::prelude::*;

verus! {

/// Milliseconds without an answer after which the connection is closed.
pub const KEEP_ALIVE_TIMEOUT: u64 = 30_000;

/// Milliseconds between two rounds.
pub const KEEP_ALIVE_INTERVAL: u64 = 15_000;

/// The state of the current round.
#[derive(Clone, Copy, Debug, PartialEq, Eq, Structural)]
pub struct KeepAliveData {
    /// Whether the client answered the last keep-alive.
    pub has_responded: bool,
    /// The id of the last keep-alive.
    pub last_id: i64,
    /// When it was sent, in milliseconds on the caller's clock.
    pub sent_at: u64,
}

/// What to do one second into a round.
#[derive(Clone, Copy, Debug, PartialEq, Eq, Structural)]
pub enum KeepAliveStep {
    /// The client answered: wait for the next round.
    Answered,
    /// No answer yet: send the same keep-alive again.
    Resend(i64),
    /// No answer for too long: close the connection.
    TimedOut,
}

/// The round after sending keep-alive `id` at `now`.
pub open spec fn started(id: i64, now: u64) -> KeepAliveData {
    KeepAliveData { has_responded: false, last_id: id, sent_at: now }
}

/// The round after the client answered with `id`.
pub open spec fn answered(d: KeepAliveData, id: i64) -> KeepAliveData {
    KeepAliveData { has_responded: d.has_responded || id == d.last_id, ..d }
}

/// What a check at `now` decides.
pub open spec fn step_at(d: KeepAliveData, now: u64) -> KeepAliveStep {
    if d.has_responded {
        KeepAliveStep::Answered
    } else if now >= d.sent_at && now - d.sent_at >= KEEP_ALIVE_TIMEOUT {
        KeepAliveStep::TimedOut
    } else {
        KeepAliveStep::Resend(d.last_id)
    }
}

impl KeepAliveData {
    /// No round sent yet.
    pub fn new(now: u64) -> (d: Self)
        ensures
            d == started(0, now),
    {
        KeepAliveData { has_responded: false, last_id: 0, sent_at: now }
    }

    /// Starts a round with the keep-alive `id`, sent at `now`; returns the
    /// packet to send.
    pub fn start_round(&mut self, id: i64, now: u64) -> (p: RawPacket)
        ensures
            *final(self) == started(id, now),
            p.packet_id == C1EKeepAlive::spec_packet_id(),
            (C1EKeepAlive { id }).encoded_as(p.data@),
    {
        self.last_id = id;
        self.has_responded = false;
        self.sent_at = now;
        C1EKeepAlive { id }.to_rawpacket()
    }

    /// The client answered with `id`; only the last id counts.
    pub fn on_answer(&mut self, id: i64)
        ensures
            *final(self) == answered(*old(self), id),
    {
        if id == self.last_id {
            self.has_responded = true;
        }
    }

    /// What to do at `now`, a second or more into the round.
    pub fn check(&self, now: u64) -> (step: KeepAliveStep)
        ensures
            step == step_at(*self, now),
    {
        if self.has_responded {
            KeepAliveStep::Answered
        } else if now >= self.sent_at && now - self.sent_at >= KEEP_ALIVE_TIMEOUT {
            KeepAliveStep::TimedOut
        } else {
            KeepAliveStep::Resend(self.last_id)
        }
    }
}

/// Once the client sends back the id of the round, every later check of that
/// round waits for the next one, however late it comes.
pub proof fn keep_alive_answer_counts(id: i64, sent: u64, now: u64)
    ensures
        step_at(answered(started(id, sent), id), now) == KeepAliveStep::Answered,
{
}

/// An answer with another id changes nothing: the round is resent until the
/// timeout, then the connection is closed.
pub proof fn keep_alive_wrong_answer(id: i64, other: i64, sent: u64, now: u64)
    requires
        other != id,
    ensures
        answered(started(id, sent), other) == started(id, sent),
        now >= sent && now - sent >= KEEP_ALIVE_TIMEOUT ==> step_at(started(id, sent), now)
            == KeepAliveStep::TimedOut,
        !(now >= sent && now - sent >= KEEP_ALIVE_TIMEOUT) ==> step_at(started(id, sent), now)
            == KeepAliveStep::Resend(id),
{
}

} // verus!
