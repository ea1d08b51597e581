//! Liveness monitor of one connection.
//!
//! The monitor remembers when the peer last showed it was alive. On each tick
//! of its timer it either probes the peer again or, once the peer has been
//! silent for longer than `CLIENT_TIMEOUT_MS`, declares the connection dead.
//! Time is a plain count of milliseconds handed in by the caller.
use vstd::prelude::*;

verus! {

/// How often the monitor wakes up and probes the peer, in milliseconds.
pub const HEARTBEAT_INTERVAL_MS: u64 = 5000;

/// How long the peer may stay silent before the connection is dropped, in
/// milliseconds.
pub const CLIENT_TIMEOUT_MS: u64 = 10000;

/// True when a peer last heard of at `last_seen` has been silent for longer
/// than the timeout at time `now`.
pub open spec fn expired(last_seen: int, now: int) -> bool {
    now > last_seen + CLIENT_TIMEOUT_MS
}

/// What the monitor asks its connection to do after a tick.
#[derive(PartialEq, Eq, Structural, Clone, Copy, Debug)]
pub enum Tick {
    /// The peer is within its window: send it a liveness probe.
    Probe,
    /// The peer timed out: close the connection.
    Close,
}

/// Per-connection heartbeat state: `Alive` until the peer times out, then
/// `TimedOut` for good.
#[derive(Clone, Copy, Debug)]
pub struct Heartbeat {
    last_seen: u64,
    timed_out: bool,
}

impl Heartbeat {
    /// Time of the last liveness signal.
    pub closed spec fn last_seen(&self) -> nat {
        self.last_seen as nat
    }

    /// Whether the monitor has reached its terminal state.
    pub closed spec fn timed_out(&self) -> bool {
        self.timed_out
    }

    /// A monitor for a connection accepted at `now`.
    pub fn new(now: u64) -> (r: Heartbeat)
        ensures
            r.last_seen() == now,
            !r.timed_out(),
    {
        Heartbeat { last_seen: now, timed_out: false }
    }

    /// Whether the connection is still considered alive.
    pub fn is_alive(&self) -> (r: bool)
        ensures
            r == !self.timed_out(),
    {
        !self.timed_out
    }

    /// Time of the last liveness signal.
    pub fn last_seen_at(&self) -> (r: u64)
        ensures
            r == self.last_seen(),
    {
        self.last_seen
    }

    /// Records a liveness signal from the peer received at `now`. A timed-out
    /// monitor stays timed out, and the recorded time never goes back.
    pub fn beat(&mut self, now: u64)
        ensures
            final(self).timed_out() == old(self).timed_out(),
            old(self).timed_out() ==> final(self).last_seen() == old(self).last_seen(),
            !old(self).timed_out() ==> final(self).last_seen() == if now > old(self).last_seen() {
                now as nat
            } else {
                old(self).last_seen()
            },
    {
        if !self.timed_out && now > self.last_seen {
            self.last_seen = now;
        }
    }

    /// One wake-up of the monitor at time `now`: a peer silent for longer than
    /// the timeout is declared dead, any other is probed. A peer that keeps
    /// answering, so that no tick finds it expired, is never closed.
    pub fn tick(&mut self, now: u64) -> (r: Tick)
        ensures
            final(self).last_seen() == old(self).last_seen(),
            r == Tick::Close <==> (old(self).timed_out() || expired(old(self).last_seen() as int, now as int)),
            final(self).timed_out() <==> r == Tick::Close,
    {
        if self.timed_out {
            Tick::Close
        } else if now > self.last_seen && now - self.last_seen > CLIENT_TIMEOUT_MS {
            self.timed_out = true;
            Tick::Close
        } else {
            Tick::Probe
        }
    }

    /// Sending a probe failed: the connection is already gone.
    pub fn probe_failed(&mut self)
        ensures
            final(self).timed_out(),
            final(self).last_seen() == old(self).last_seen(),
    {
        self.timed_out = true;
    }
}

/// A silent peer is caught by the first tick after its window closes: with
/// ticks `HEARTBEAT_INTERVAL_MS` apart, the tick that finds it expired comes at
/// most one interval after the threshold was crossed.
pub proof fn lemma_timeout_caught_within_one_interval(last_seen: int, previous_tick: int)
    requires
        !expired(last_seen, previous_tick),
        expired(last_seen, previous_tick + HEARTBEAT_INTERVAL_MS),
    ensures
        previous_tick + HEARTBEAT_INTERVAL_MS <= last_seen + CLIENT_TIMEOUT_MS
            + HEARTBEAT_INTERVAL_MS,
{
}

/// Ticking on a fixed schedule from `start`, a peer silent since `last_seen`
/// is found expired at some tick, and the first such tick is no later than
/// one interval past the threshold.
pub proof fn lemma_silent_peer_is_caught(last_seen: int, start: int) -> (k: nat)
    requires
        start <= last_seen + CLIENT_TIMEOUT_MS,
    ensures
        expired(last_seen, start + k * HEARTBEAT_INTERVAL_MS),
        forall|j: nat| j < k ==> !expired(last_seen, #[trigger] (start + j * HEARTBEAT_INTERVAL_MS)),
        start + k * HEARTBEAT_INTERVAL_MS <= last_seen + CLIENT_TIMEOUT_MS + HEARTBEAT_INTERVAL_MS,
{
    let gap: nat = (last_seen + CLIENT_TIMEOUT_MS - start) as nat;
    let k: nat = gap / (HEARTBEAT_INTERVAL_MS as nat) + 1;
    assert(gap == (gap / 5000) * 5000 + gap % 5000) by (nonlinear_arith);
    assert(k * 5000 == (gap / 5000) * 5000 + 5000) by (nonlinear_arith)
        requires k == gap / 5000 + 1;
    assert forall|j: nat| j < k implies !expired(last_seen, #[trigger] (start + j * HEARTBEAT_INTERVAL_MS)) by {
        assert(j * 5000 <= (gap / 5000) * 5000) by (nonlinear_arith)
            requires j < k, k == gap / 5000 + 1;
    }
    k
}

} // verus!
