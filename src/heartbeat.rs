use vstd::prelude::*;

verus! {

/// How often a connection is pinged, in milliseconds.
pub const HEARTBEAT_INTERVAL_MS: u64 = 5000;

/// How long a connection may stay silent before it is closed, in milliseconds.
pub const CLIENT_TIMEOUT_MS: u64 = 10000;

/// What the heartbeat does after a tick.
#[derive(Clone, Copy, Debug, PartialEq, Eq, Structural)]
pub enum HeartbeatAction {
    /// The peer answered recently enough: wait for the next tick.
    Continue,
    /// The peer has been silent too long: close the connection and stop.
    Close,
    /// The ping could not be sent, so the peer is gone: close the connection
    /// and stop.
    Stop,
}

/// What a tick at `now` does, given the last pong at `last_pong` and whether
/// the ping of this tick was sent.
pub open spec fn tick_action(last_pong: int, now: int, ping_sent: bool) -> HeartbeatAction {
    if !ping_sent {
        HeartbeatAction::Stop
    } else if now - last_pong > CLIENT_TIMEOUT_MS {
        HeartbeatAction::Close
    } else {
        HeartbeatAction::Continue
    }
}

/// The liveness record of one connection.
#[derive(Clone, Copy, Debug)]
pub struct Heartbeat {
    /// When the last pong arrived, in milliseconds of the caller's clock.
    pub last_pong: u64,
}

impl Heartbeat {
    /// A connection that opened at `now` counts as having answered then.
    pub fn new(now: u64) -> (r: Self)
        ensures
            r.last_pong == now,
    {
        Self { last_pong: now }
    }

    /// Records a pong that arrived at `now`.
    pub fn record_pong(&mut self, now: u64)
        ensures
            final(self).last_pong == now,
    {
        self.last_pong = now;
    }

    /// Decides a tick at `now`, after the ping was sent (`ping_sent`) or not.
    pub fn on_tick(&self, now: u64, ping_sent: bool) -> (r: HeartbeatAction)
        ensures
            r == tick_action(self.last_pong as int, now as int, ping_sent),
    {
        if !ping_sent {
            HeartbeatAction::Stop
        } else if now > self.last_pong && now - self.last_pong > CLIENT_TIMEOUT_MS {
            HeartbeatAction::Close
        } else {
            HeartbeatAction::Continue
        }
    }
}

/// With ticks every interval from `start` on, all pings sent and no pong
/// after `last_pong`, some tick `k` closes the connection no later than one
/// interval after the timeout has run out, and every tick before it lets the
/// connection go on.
pub proof fn lemma_silent_peer_closed(last_pong: int, start: int)
    ensures
        exists|k: nat|
            {
                &&& tick_action(last_pong, #[trigger] (start + k * HEARTBEAT_INTERVAL_MS), true)
                    == HeartbeatAction::Close
                &&& start + k * HEARTBEAT_INTERVAL_MS <= if start > last_pong
                    + CLIENT_TIMEOUT_MS {
                    start
                } else {
                    last_pong + CLIENT_TIMEOUT_MS + HEARTBEAT_INTERVAL_MS
                }
                &&& forall|j: nat|
                    j < k ==> tick_action(
                        last_pong,
                        #[trigger] (start + j * HEARTBEAT_INTERVAL_MS),
                        true,
                    ) == HeartbeatAction::Continue
            },
{
    let i = HEARTBEAT_INTERVAL_MS as int;
    let deadline = last_pong + CLIENT_TIMEOUT_MS;
    if start > deadline {
        assert(start + 0nat * i == start);
        assert(tick_action(last_pong, start + 0nat * i, true) == HeartbeatAction::Close);
    } else {
        let gap = deadline - start;
        let q = gap / i;
        let k = (q + 1) as nat;
        assert(gap == q * i + gap % i) by (nonlinear_arith)
            requires
                i > 0,
                q == gap / i,
        ;
        assert(0 <= gap % i < i);
        assert(k * i == q * i + i) by (nonlinear_arith)
            requires
                k == q + 1,
        ;
        assert(tick_action(last_pong, start + k * i, true) == HeartbeatAction::Close);
        assert forall|j: nat| j < k implies tick_action(
            last_pong,
            #[trigger] (start + j * HEARTBEAT_INTERVAL_MS),
            true,
        ) == HeartbeatAction::Continue by {
            assert(j * i <= q * i) by (nonlinear_arith)
                requires
                    j <= q,
                    i > 0,
            ;
        }
    }
}

} // verus!
