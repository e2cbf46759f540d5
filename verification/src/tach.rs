//! The tachometer pulse counter and its debounce filter.
//!
//! The fan's tachometer pin delivers a noisy edge stream: the driver layer
//! can report the same logic level twice for one physical edge. A
//! [`Debouncer`] drops such duplicates, accepted falling edges are counted
//! by an [`RpmCounter`], and a periodic drain converts the count since the
//! previous drain into a revolutions-per-minute estimate.

use vstd::prelude::*;
use std::time::{SystemTime, UNIX_EPOCH};

verus! {

/// Logic level of the tachometer input pin.
#[derive(Clone, Copy, Debug, PartialEq, Eq, Structural)]
pub enum PinLevel {
    Low,
    High,
}

/// Tachometer pulses per fan revolution: the target fans pulse twice.
pub const PULSES_PER_REVOLUTION: u64 = 2;

pub const MICROS_PER_SECOND: u64 = 1_000_000;

pub const SECONDS_PER_MINUTE: u64 = 60;

/// Duplicate-event filter for the interrupt stream: an event is accepted
/// only when it reports a different level than the previous event, or when
/// no event has been seen yet.
#[derive(Clone, Copy, Debug, PartialEq, Eq, Structural)]
pub struct Debouncer {
    pub prev: Option<PinLevel>,
}

impl Debouncer {
    /// Whether an event reporting `level` would pass the filter now.
    pub open spec fn accepts(self, level: PinLevel) -> bool {
        self.prev != Some(level)
    }

    /// The filter state after observing `level`.
    pub open spec fn after(self, level: PinLevel) -> Debouncer {
        Debouncer { prev: Some(level) }
    }

    /// A fresh filter, which accepts whatever level comes first.
    pub fn new() -> (d: Debouncer)
        ensures
            d.prev is None,
    {
        Debouncer { prev: None }
    }

    /// Observe one reported level: tells whether it is a genuine transition,
    /// and remembers it for the next event.
    pub fn observe(&mut self, level: PinLevel) -> (accepted: bool)
        ensures
            accepted == old(self).accepts(level),
            *final(self) == old(self).after(level),
    {
        let duplicate = match (self.prev, level) {
            (Some(PinLevel::Low), PinLevel::Low) => true,
            (Some(PinLevel::High), PinLevel::High) => true,
            _ => false,
        };
        self.prev = Some(level);
        !duplicate
    }
}

/// The filter state after the first `n` events of `events`, starting fresh.
pub open spec fn debounce_state(events: Seq<PinLevel>, n: int) -> Debouncer
    decreases n,
{
    if n <= 0 {
        Debouncer { prev: None }
    } else {
        debounce_state(events, n - 1).after(events[n - 1])
    }
}

/// Debounce correctness: when a fresh filter observes `events` in order,
/// event `i` is accepted exactly when it is the first event or differs from
/// the event just before it; duplicates of the previous level are dropped.
pub proof fn lemma_debounce_accepts_changes(events: Seq<PinLevel>, i: int)
    requires
        0 <= i < events.len(),
    ensures
        debounce_state(events, i).accepts(events[i]) <==> (i == 0 || events[i] != events[i - 1]),
{
    if i > 0 {
        assert(debounce_state(events, i) == debounce_state(events, i - 1).after(events[i - 1]));
    }
}

/// Cross-thread cells of the pulse counter: the pulse accumulator fed by
/// the interrupt callback, the timestamp of the previous drain, and the
/// last drained rate estimate.
#[derive(Clone, Copy, Debug, PartialEq, Eq, Structural)]
pub struct RpmCounter {
    /// Microsecond timestamp of the previous drain.
    pub last_read_micros: u64,
    /// Last drained rate estimate, revolutions per minute.
    pub rpm: u32,
    /// Falling edges accepted since the previous drain.
    pub pulses: u64,
}

/// Rate in revolutions per minute from a pulse count over an elapsed time,
/// before saturation to the stored range.
pub open spec fn rpm_of(pulses: u64, dt_micros: u64) -> int
    recommends
        dt_micros > 0,
{
    (pulses * MICROS_PER_SECOND * SECONDS_PER_MINUTE) / (dt_micros * PULSES_PER_REVOLUTION)
}

/// Clamp a non-negative rate into the stored 32-bit range.
pub open spec fn saturate_u32(v: int) -> u32
    recommends
        v >= 0,
{
    if v > u32::MAX {
        u32::MAX
    } else {
        v as u32
    }
}

impl RpmCounter {
    /// The counter after a drain at `now_micros`: the accumulator is
    /// captured and zeroed and the rate recomputed, unless no time has
    /// passed since the previous drain, in which case everything is
    /// retained so the rate computation never divides by zero.
    pub open spec fn drained(self, now_micros: u64) -> RpmCounter {
        if now_micros <= self.last_read_micros {
            self
        } else {
            RpmCounter {
                last_read_micros: now_micros,
                rpm: saturate_u32(
                    rpm_of(self.pulses, (now_micros - self.last_read_micros) as u64),
                ),
                pulses: 0,
            }
        }
    }

    /// A counter whose previous-drain timestamp is `start_micros`.
    pub fn new_at(start_micros: u64) -> (c: RpmCounter)
        ensures
            c.last_read_micros == start_micros,
            c.rpm == 0,
            c.pulses == 0,
    {
        RpmCounter { last_read_micros: start_micros, rpm: 0, pulses: 0 }
    }

    /// A counter whose drain window starts now.
    pub fn new() -> (c: RpmCounter)
        ensures
            c.rpm == 0,
            c.pulses == 0,
    {
        RpmCounter::new_at(RpmCounter::now_as_timestamp_in_micros())
    }

    /// Relies on `std::time::SystemTime::now` for the current wall-clock
    /// time; reports it as microseconds since the Unix epoch, or zero on a
    /// clock set before the epoch. Nothing is promised of the value: every
    /// caller must hold for any timestamp that comes back.
    #[verifier::external_body]
    pub fn now_as_timestamp_in_micros() -> u64 {
        match SystemTime::now().duration_since(UNIX_EPOCH) {
            Ok(since_epoch) => since_epoch.as_micros() as u64,
            Err(_) => 0,
        }
    }

    /// One interrupt event that already passed the debounce filter: count
    /// it when it is a falling edge, ignore it otherwise.
    pub fn on_tick(&mut self, level: PinLevel)
        ensures
            level == PinLevel::Low && old(self).pulses < u64::MAX ==> final(self).pulses
                == old(self).pulses + 1,
            level == PinLevel::Low && old(self).pulses == u64::MAX ==> final(self).pulses == 0,
            level != PinLevel::Low ==> final(self).pulses == old(self).pulses,
            final(self).rpm == old(self).rpm,
            final(self).last_read_micros == old(self).last_read_micros,
    {
        match level {
            PinLevel::Low => {
                self.pulses = if self.pulses == u64::MAX {
                    0
                } else {
                    self.pulses + 1
                };
            },
            PinLevel::High => {},
        }
    }

    /// Drain the accumulator at `now_micros` and store the rate estimate
    /// for the window that just ended; see [`RpmCounter::drained`].
    pub fn drain_and_estimate(&mut self, now_micros: u64)
        ensures
            *final(self) == old(self).drained(now_micros),
    {
        if now_micros <= self.last_read_micros {
            return;
        }
        let dt: u64 = now_micros - self.last_read_micros;
        let p128: u128 = self.pulses as u128;
        proof {
            assert(p128 * (MICROS_PER_SECOND as u128) <= (u64::MAX as u128) * (
            MICROS_PER_SECOND as u128)) by (nonlinear_arith)
                requires
                    p128 <= u64::MAX as u128,
            ;
            assert(p128 * (MICROS_PER_SECOND as u128) * (SECONDS_PER_MINUTE as u128) <= (
            u64::MAX as u128) * (MICROS_PER_SECOND as u128) * (SECONDS_PER_MINUTE as u128))
                by (nonlinear_arith)
                requires
                    p128 <= u64::MAX as u128,
            ;
        }
        let numerator: u128 = p128 * (MICROS_PER_SECOND as u128) * (SECONDS_PER_MINUTE as u128);
        let denominator: u128 = (dt as u128) * (PULSES_PER_REVOLUTION as u128);
        let quotient: u128 = numerator / denominator;
        let rate: u32 = if quotient > (u32::MAX as u128) {
            u32::MAX
        } else {
            quotient as u32
        };
        self.rpm = rate;
        self.pulses = 0;
        self.last_read_micros = now_micros;
    }

    /// Drain the accumulator against the wall clock. The clock is outside
    /// the counter's control, so all that is promised is that the result is
    /// a drain at some timestamp.
    pub fn compute_rpm_speed(&mut self)
        ensures
            exists|now: u64| *final(self) == old(self).drained(now),
    {
        let now = RpmCounter::now_as_timestamp_in_micros();
        self.drain_and_estimate(now);
        proof {
            assert(*self == old(self).drained(now));
        }
    }

    /// Lock-free read of the last drained estimate.
    pub fn load_rpm_speed(&self) -> (r: u32)
        ensures
            r == self.rpm,
    {
        self.rpm
    }
}

/// Whether an event reporting `level` to filter `d` counts a pulse: it must
/// pass the filter and be a falling edge.
pub open spec fn counted_edge(d: Debouncer, level: PinLevel) -> bool {
    d.accepts(level) && level == PinLevel::Low
}

/// The interrupt callback's whole decision: debounce-filter one reported
/// level, then count it when it is an accepted falling edge.
pub fn on_edge(deb: &mut Debouncer, counter: &mut RpmCounter, level: PinLevel)
    ensures
        *final(deb) == old(deb).after(level),
        counted_edge(*old(deb), level) && old(counter).pulses < u64::MAX ==> final(counter).pulses
            == old(counter).pulses + 1,
        counted_edge(*old(deb), level) && old(counter).pulses == u64::MAX
            ==> final(counter).pulses == 0,
        !counted_edge(*old(deb), level) ==> final(counter).pulses == old(counter).pulses,
        final(counter).rpm == old(counter).rpm,
        final(counter).last_read_micros == old(counter).last_read_micros,
{
    if deb.observe(level) {
        counter.on_tick(level);
    }
}

/// Idempotent drain: a counter with no pending pulses drains to a zero
/// rate, or retains its previous rate when no time has passed; draining it
/// twice in a row can yield nothing else either way.
pub proof fn lemma_drain_idempotent(c: RpmCounter, n1: u64, n2: u64)
    requires
        c.pulses == 0,
    ensures
        c.drained(n1).rpm == 0 || c.drained(n1).rpm == c.rpm,
        c.drained(n1).pulses == 0,
        c.drained(n1).drained(n2).rpm == 0 || c.drained(n1).drained(n2).rpm == c.drained(n1).rpm,
{
    assert forall|p: u64, dt: u64| p == 0 && dt > 0 implies rpm_of(p, dt) == 0 by {
        assert(p * MICROS_PER_SECOND * SECONDS_PER_MINUTE == 0);
    }
}

} // verus!
