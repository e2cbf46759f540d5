//! The fan-speed control law: a two-state hysteresis policy over a single
//! probe temperature per tick, with a fail-safe-hot response to sensor
//! failures.
//!
//! The policy keeps a one-degree dead band between the rising threshold
//! (`hot_centi_f`) and the falling threshold (`hot_centi_f` minus
//! [`DEAD_BAND_CENTI_F`]) so the fan does not toggle rapidly while the
//! temperature lingers at the boundary.

use vstd::prelude::*;
use crate::sensors::{SensorError, Temperature};

verus! {

/// The two duty-cycle tiers the controller commands.
#[derive(Clone, Copy, Debug, PartialEq, Eq, Structural)]
pub enum FanState {
    Slow,
    Fast,
}

/// Width of the hysteresis dead band: one degree Fahrenheit, in hundredths.
pub const DEAD_BAND_CENTI_F: i64 = 100;

/// The control loop's fixed configuration, read once at startup.
#[derive(Clone, Copy, Debug)]
pub struct ControlConfig {
    /// Rising threshold, in hundredths of a degree Fahrenheit: at or above
    /// this the fan goes to `Fast`.
    pub hot_centi_f: i64,
    /// Duty cycle commanded in `Fast`, in percent of full scale.
    pub max_duty_pct: u8,
    /// Duty cycle commanded in `Slow`, in percent of full scale.
    pub min_duty_pct: u8,
}

impl ControlConfig {
    /// A usable configuration: the threshold is a plausible temperature and
    /// the two duty tiers are ordered fractions of full scale.
    pub open spec fn wf(&self) -> bool {
        &&& -100_000_00 <= self.hot_centi_f <= 100_000_00
        &&& self.min_duty_pct <= self.max_duty_pct <= 100
    }

    pub fn new(hot_centi_f: i64, max_duty_pct: u8, min_duty_pct: u8) -> (c: ControlConfig)
        requires
            -100_000_00 <= hot_centi_f <= 100_000_00,
            min_duty_pct <= max_duty_pct <= 100,
        ensures
            c.wf(),
            c.hot_centi_f == hot_centi_f,
            c.max_duty_pct == max_duty_pct,
            c.min_duty_pct == min_duty_pct,
    {
        ControlConfig { hot_centi_f, max_duty_pct, min_duty_pct }
    }
}

/// One hysteresis decision: the next fan state, and the duty cycle (percent)
/// to command, if the actuator must be re-commanded at all.
///
/// A failed reading is treated as "assume hot": full speed, whatever the
/// previous state. On the first tick (no previous state) a reading inside
/// the dead band settles on `Slow`, commanded explicitly.
pub open spec fn next_action(
    cfg: ControlConfig,
    prev: Option<FanState>,
    reading: Result<Temperature, SensorError>,
) -> (FanState, Option<u8>) {
    match reading {
        Result::Err(_) => (FanState::Fast, Some(cfg.max_duty_pct)),
        Result::Ok(t) => {
            if (prev is None || prev == Some(FanState::Slow)) && t.centi_f >= cfg.hot_centi_f {
                (FanState::Fast, Some(cfg.max_duty_pct))
            } else if (prev is None || prev == Some(FanState::Fast))
                && t.centi_f < cfg.hot_centi_f - DEAD_BAND_CENTI_F {
                (FanState::Slow, Some(cfg.min_duty_pct))
            } else {
                match prev {
                    Some(s) => (s, None),
                    None => (FanState::Slow, Some(cfg.min_duty_pct)),
                }
            }
        }
    }
}

/// The state component of [`next_action`].
pub open spec fn next_state(
    cfg: ControlConfig,
    prev: Option<FanState>,
    reading: Result<Temperature, SensorError>,
) -> FanState {
    next_action(cfg, prev, reading).0
}

/// One control tick, after the probe has been read: decides the next state
/// and what, if anything, to command the actuator.
pub fn tick(
    cfg: &ControlConfig,
    prev: Option<FanState>,
    reading: Result<Temperature, SensorError>,
) -> (r: (FanState, Option<u8>))
    requires
        cfg.wf(),
    ensures
        r == next_action(*cfg, prev, reading),
        reading is Err ==> r == (FanState::Fast, Some(cfg.max_duty_pct)),
        (reading matches Ok(t) && (prev is None || prev == Some(FanState::Slow))
            && t.centi_f >= cfg.hot_centi_f)
            ==> r == (FanState::Fast, Some(cfg.max_duty_pct)),
        (reading matches Ok(t) && (prev is None || prev == Some(FanState::Fast))
            && t.centi_f < cfg.hot_centi_f - DEAD_BAND_CENTI_F)
            ==> r == (FanState::Slow, Some(cfg.min_duty_pct)),
{
    let t = match reading {
        Result::Err(_) => {
            return (FanState::Fast, Some(cfg.max_duty_pct));
        },
        Result::Ok(t) => t,
    };
    let slow_or_unset = match prev {
        None => true,
        Some(FanState::Slow) => true,
        Some(FanState::Fast) => false,
    };
    let fast_or_unset = match prev {
        None => true,
        Some(FanState::Fast) => true,
        Some(FanState::Slow) => false,
    };
    if slow_or_unset && t.centi_f >= cfg.hot_centi_f {
        (FanState::Fast, Some(cfg.max_duty_pct))
    } else if fast_or_unset && t.centi_f < cfg.hot_centi_f - DEAD_BAND_CENTI_F {
        (FanState::Slow, Some(cfg.min_duty_pct))
    } else {
        match prev {
            Some(s) => (s, None),
            None => (FanState::Slow, Some(cfg.min_duty_pct)),
        }
    }
}

/// A reading inside the hysteresis dead band: at or above the falling
/// threshold but still below the rising one.
pub open spec fn in_dead_band(cfg: ControlConfig, t: Temperature) -> bool {
    cfg.hot_centi_f - DEAD_BAND_CENTI_F <= t.centi_f < cfg.hot_centi_f
}

/// The state after feeding every temperature of `temps`, in order, as a
/// successful reading, starting from state `st`.
pub open spec fn run_states(cfg: ControlConfig, st: FanState, temps: Seq<Temperature>) -> FanState
    decreases temps.len(),
{
    if temps.len() == 0 {
        st
    } else {
        run_states(
            cfg,
            next_state(cfg, Some(st), Result::Ok(temps[0])),
            temps.subrange(1, temps.len() as int),
        )
    }
}

/// No oscillation, falling side: while every reading stays inside the dead
/// band, a controller in `Fast` never drops to `Slow`.
pub proof fn lemma_no_oscillation_fast(cfg: ControlConfig, temps: Seq<Temperature>)
    requires
        forall|i: int| 0 <= i < temps.len() ==> in_dead_band(cfg, #[trigger] temps[i]),
    ensures
        run_states(cfg, FanState::Fast, temps) == FanState::Fast,
    decreases temps.len(),
{
    if temps.len() > 0 {
        let rest = temps.subrange(1, temps.len() as int);
        assert(next_state(cfg, Some(FanState::Fast), Result::Ok(temps[0])) == FanState::Fast);
        assert forall|i: int| 0 <= i < rest.len() implies in_dead_band(cfg, #[trigger] rest[i]) by {
            assert(rest[i] == temps[i + 1]);
        }
        lemma_no_oscillation_fast(cfg, rest);
    }
}

/// No oscillation, rising side: while every reading stays inside the dead
/// band (so in particular never reaches the rising threshold), a controller
/// in `Slow` never climbs to `Fast`.
pub proof fn lemma_no_oscillation_slow(cfg: ControlConfig, temps: Seq<Temperature>)
    requires
        forall|i: int| 0 <= i < temps.len() ==> in_dead_band(cfg, #[trigger] temps[i]),
    ensures
        run_states(cfg, FanState::Slow, temps) == FanState::Slow,
    decreases temps.len(),
{
    if temps.len() > 0 {
        let rest = temps.subrange(1, temps.len() as int);
        assert(next_state(cfg, Some(FanState::Slow), Result::Ok(temps[0])) == FanState::Slow);
        assert forall|i: int| 0 <= i < rest.len() implies in_dead_band(cfg, #[trigger] rest[i]) by {
            assert(rest[i] == temps[i + 1]);
        }
        lemma_no_oscillation_slow(cfg, rest);
    }
}

} // verus!
