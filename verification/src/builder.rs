//! Configuration a supervisor instance is built from, and the pure
//! derivation of the shared timer wheel's sizing from it.

use vstd::prelude::*;

verus! {

/// Number of slots the shared timer wheel is sized for.
pub const DEFAULT_TIMER_SLOTS: usize = 2048;

/// Whether `n` is a power of two.
pub open spec fn is_pow2(n: nat) -> bool
    decreases n,
{
    if n == 0 {
        false
    } else if n == 1 {
        true
    } else {
        n % 2 == 0 && is_pow2(n / 2)
    }
}

/// Smallest power of two that is at least `n`.
pub fn next_pow2(n: usize) -> (r: usize)
    requires
        1 <= n <= usize::MAX / 2,
    ensures
        is_pow2(r as nat),
        r >= n,
        (r as nat) < 2 * n,
{
    let mut r: usize = 1;
    while r < n
        invariant
            1 <= r,
            n <= usize::MAX / 2,
            is_pow2(r as nat),
            (r as nat) < 2 * n,
        decreases 2 * n - r,
    {
        r = r * 2;
    }
    r
}

/// Configured behavior of one supervisor instance.  All durations are
/// in milliseconds.
#[derive(Clone, Copy, PartialEq, Eq, Debug)]
pub struct PeerManagerBuilder {
    /// Hard bound on concurrently managed sessions.
    pub peer_capacity: usize,
    /// Buffer capacity of the shared egress event stream.
    pub stream_buffer_capacity: usize,
    /// Interval after which a quiet session sends a keep-alive.
    pub heartbeat_interval_ms: u64,
    /// Inactivity span after which a session is disconnected.
    pub heartbeat_timeout_ms: u64,
}

impl PeerManagerBuilder {
    /// Default configuration: up to 100 peers, an egress buffer of 100
    /// events, keep-alives every minute, disconnect after two quiet
    /// minutes.
    pub fn new() -> (r: PeerManagerBuilder)
        ensures
            r.peer_capacity == 100,
            r.stream_buffer_capacity == 100,
            r.heartbeat_interval_ms == 60_000,
            r.heartbeat_timeout_ms == 120_000,
    {
        PeerManagerBuilder {
            peer_capacity: 100,
            stream_buffer_capacity: 100,
            heartbeat_interval_ms: 60_000,
            heartbeat_timeout_ms: 120_000,
        }
    }

    pub fn with_peer_capacity(self, capacity: usize) -> (r: PeerManagerBuilder)
        ensures
            r == (PeerManagerBuilder { peer_capacity: capacity, ..self }),
    {
        PeerManagerBuilder { peer_capacity: capacity, ..self }
    }

    pub fn with_stream_buffer_capacity(self, capacity: usize) -> (r: PeerManagerBuilder)
        ensures
            r == (PeerManagerBuilder { stream_buffer_capacity: capacity, ..self }),
    {
        PeerManagerBuilder { stream_buffer_capacity: capacity, ..self }
    }

    pub fn with_heartbeat_interval(self, interval_ms: u64) -> (r: PeerManagerBuilder)
        ensures
            r == (PeerManagerBuilder { heartbeat_interval_ms: interval_ms, ..self }),
    {
        PeerManagerBuilder { heartbeat_interval_ms: interval_ms, ..self }
    }

    pub fn with_heartbeat_timeout(self, timeout_ms: u64) -> (r: PeerManagerBuilder)
        ensures
            r == (PeerManagerBuilder { heartbeat_timeout_ms: timeout_ms, ..self }),
    {
        PeerManagerBuilder { heartbeat_timeout_ms: timeout_ms, ..self }
    }

    pub fn peer_capacity(&self) -> (r: usize)
        ensures
            r == self.peer_capacity,
    {
        self.peer_capacity
    }

    pub fn stream_buffer_capacity(&self) -> (r: usize)
        ensures
            r == self.stream_buffer_capacity,
    {
        self.stream_buffer_capacity
    }

    pub fn heartbeat_interval(&self) -> (r: u64)
        ensures
            r == self.heartbeat_interval_ms,
    {
        self.heartbeat_interval_ms
    }

    pub fn heartbeat_timeout(&self) -> (r: u64)
        ensures
            r == self.heartbeat_timeout_ms,
    {
        self.heartbeat_timeout_ms
    }
}

/// Sizing of the shared timer wheel, derived per supervisor instance
/// from its configuration; handed to whatever timer the surrounding
/// runtime uses.
#[derive(Clone, Copy, PartialEq, Eq, Structural, Debug)]
pub struct TimerConfig {
    /// Tick resolution in milliseconds.
    pub tick_ms: u64,
    /// Most timers the wheel must hold at once: one heartbeat and one
    /// timeout entry per peer, rounded up to a power of two, plus one.
    pub max_capacity: usize,
    /// Capacity of the timer's request channel.
    pub channel_capacity: usize,
    /// Slots of the wheel.
    pub num_slots: usize,
}

/// The tick resolution: the longer of the heartbeat interval and the
/// inactivity timeout, truncated to whole seconds, spread over the
/// wheel's slots, plus one millisecond so it never reaches zero.
pub open spec fn spec_tick_ms(interval_ms: u64, timeout_ms: u64) -> int {
    let longer: int = if interval_ms >= timeout_ms {
        interval_ms as int
    } else {
        timeout_ms as int
    };
    longer / 1000 * 1000 / (DEFAULT_TIMER_SLOTS as int) + 1
}

/// Derives the shared timer's sizing: room for two timer entries per
/// admissible peer (heartbeat and timeout), rounded up to a power of
/// two, and a tick resolution that spreads the longer configured span
/// over the wheel's slots.
pub fn timer_config(builder: &PeerManagerBuilder) -> (r: TimerConfig)
    requires
        1 <= builder.peer_capacity <= usize::MAX / 4,
    ensures
        is_pow2(r.channel_capacity as nat),
        r.channel_capacity >= 2 * builder.peer_capacity,
        (r.channel_capacity as nat) < 4 * builder.peer_capacity,
        r.max_capacity == r.channel_capacity + 1,
        r.num_slots == DEFAULT_TIMER_SLOTS,
        r.tick_ms == spec_tick_ms(builder.heartbeat_interval_ms, builder.heartbeat_timeout_ms),
{
    let maximum_timers = builder.peer_capacity * 2;
    let pow_maximum_timers = next_pow2(maximum_timers);
    let longer = if builder.heartbeat_interval_ms >= builder.heartbeat_timeout_ms {
        builder.heartbeat_interval_ms
    } else {
        builder.heartbeat_timeout_ms
    };
    proof {
        assert(longer / 1000 * 1000 <= longer) by (nonlinear_arith);
    }
    let tick_ms = longer / 1000 * 1000 / (DEFAULT_TIMER_SLOTS as u64) + 1;
    TimerConfig {
        tick_ms,
        max_capacity: pow_maximum_timers + 1,
        channel_capacity: pow_maximum_timers,
        num_slots: DEFAULT_TIMER_SLOTS,
    }
}

} // verus!
