//! The request throttle's token bucket, as a model: a bounded channel of
//! capacity `N = throttle_requests_per_second`, pre-filled to `N - 1` tokens
//! to prevent a one-second burst; a refill task adds tokens at the steady
//! rate, and every request removes one before it may go out. Whatever order
//! events take, the requests let through never exceed the tokens that were
//! there plus the tokens that were added.

use vstd::prelude::*;

verus! {

/// One event at the token channel.
#[derive(Clone, Copy, Debug, PartialEq, Eq, Structural)]
pub enum ThrottleEvent {
    /// The refill task adds one token (it sleeps while the channel is full).
    Refill,
    /// A user removes one token before sending a request.
    Acquire,
}

/// The tokens buffered after a trace of events, starting from `start`
/// tokens: a refill on a full channel waits (adds nothing), and an acquire
/// blocks on an empty channel (removes nothing).
pub open spec fn tokens_after(trace: Seq<ThrottleEvent>, start: nat, cap: nat) -> nat
    decreases trace.len(),
{
    if trace.len() == 0 {
        start
    } else {
        let before = tokens_after(trace.drop_last(), start, cap);
        match trace.last() {
            ThrottleEvent::Refill => if before < cap {
                before + 1
            } else {
                before
            },
            ThrottleEvent::Acquire => if before > 0 {
                (before - 1) as nat
            } else {
                before
            },
        }
    }
}

/// A trace is admissible when no acquire ever fires on an empty channel: a
/// user blocks instead, so its request does not go out.
pub open spec fn throttle_trace_ok(trace: Seq<ThrottleEvent>, start: nat, cap: nat) -> bool
    decreases trace.len(),
{
    if trace.len() == 0 {
        true
    } else {
        throttle_trace_ok(trace.drop_last(), start, cap) && (trace.last() is Acquire
            ==> tokens_after(trace.drop_last(), start, cap) > 0)
    }
}

/// How many events of one kind a trace holds.
pub open spec fn count_events(trace: Seq<ThrottleEvent>, e: ThrottleEvent) -> nat
    decreases trace.len(),
{
    if trace.len() == 0 {
        0
    } else {
        count_events(trace.drop_last(), e) + (if trace.last() == e {
            1nat
        } else {
            0nat
        })
    }
}

/// The throttle's conservation law: over any admissible stretch of events,
/// the requests let through never exceed the tokens buffered at its start
/// plus the tokens the refill task added during it. With the channel
/// pre-filled to `N - 1` and refilled at `N` per second, at most
/// `N - 1 + N * seconds` requests pass in total, and each of the other
/// concurrent users can add at most one request it had already paid for.
pub proof fn lemma_throttle_bound(trace: Seq<ThrottleEvent>, start: nat, cap: nat)
    requires
        throttle_trace_ok(trace, start, cap),
    ensures
        count_events(trace, ThrottleEvent::Acquire) <= start + count_events(
            trace,
            ThrottleEvent::Refill,
        ),
        tokens_after(trace, start, cap) == start + count_events(trace, ThrottleEvent::Refill)
            - count_events(trace, ThrottleEvent::Acquire) || count_events(
            trace,
            ThrottleEvent::Acquire,
        ) + tokens_after(trace, start, cap) <= start + count_events(trace, ThrottleEvent::Refill),
    decreases trace.len(),
{
    if trace.len() > 0 {
        lemma_throttle_bound(trace.drop_last(), start, cap);
    }
}

/// The token channel's state, as the refill task and the users share it.
#[derive(Debug, PartialEq, Eq)]
pub struct Throttle {
    /// Tokens currently buffered.
    pub tokens: usize,
    /// The channel's capacity: the configured requests per second.
    pub capacity: usize,
}

impl Throttle {
    /// A new throttle for `throttle_requests` requests per second: the
    /// channel is pre-filled to one below its capacity, preventing a
    /// one-second burst at startup.
    pub fn new(throttle_requests: usize) -> (r: Throttle)
        requires
            1 <= throttle_requests <= 1_000_000,
        ensures
            r.capacity == throttle_requests,
            r.tokens == throttle_requests - 1,
    {
        Throttle { tokens: throttle_requests - 1, capacity: throttle_requests }
    }

    /// The refill task adds one token, sleeping (adding nothing) while the
    /// channel is full.
    pub fn refill(&mut self)
        ensures
            final(self).capacity == old(self).capacity,
            final(self).tokens == if old(self).tokens < old(self).capacity {
                old(self).tokens + 1
            } else {
                old(self).tokens as int
            },
    {
        if self.tokens < self.capacity {
            self.tokens = self.tokens + 1;
        }
    }

    /// A user takes one token before sending a request; with no token
    /// buffered the user blocks and no request goes out.
    pub fn acquire(&mut self) -> (granted: bool)
        ensures
            final(self).capacity == old(self).capacity,
            granted == (old(self).tokens > 0),
            final(self).tokens == if old(self).tokens > 0 {
                (old(self).tokens - 1) as usize
            } else {
                old(self).tokens
            },
    {
        if self.tokens > 0 {
            self.tokens = self.tokens - 1;
            true
        } else {
            false
        }
    }
}

} // verus!
