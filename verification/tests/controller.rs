use iceman::control::{tick, ControlConfig, FanState};
use iceman::sensors::{SensorError, Temperature};

fn cfg() -> ControlConfig {
    ControlConfig::new(7800, 100, 65)
}

fn temp(centi_f: i64) -> Result<Temperature, SensorError> {
    Ok(Temperature { centi_f })
}

#[test]
fn hot_from_slow_goes_fast_at_max() {
    let r = tick(&cfg(), Some(FanState::Slow), temp(7800));
    assert_eq!(r, (FanState::Fast, Some(100)));
}

#[test]
fn hot_from_unset_goes_fast_at_max() {
    let r = tick(&cfg(), None, temp(9000));
    assert_eq!(r, (FanState::Fast, Some(100)));
}

#[test]
fn cool_from_fast_goes_slow_at_min() {
    let r = tick(&cfg(), Some(FanState::Fast), temp(7699));
    assert_eq!(r, (FanState::Slow, Some(65)));
}

#[test]
fn cool_from_unset_goes_slow_at_min() {
    let r = tick(&cfg(), None, temp(7000));
    assert_eq!(r, (FanState::Slow, Some(65)));
}

#[test]
fn dead_band_holds_fast_without_command() {
    let r = tick(&cfg(), Some(FanState::Fast), temp(7750));
    assert_eq!(r, (FanState::Fast, None));
    let edge = tick(&cfg(), Some(FanState::Fast), temp(7700));
    assert_eq!(edge, (FanState::Fast, None));
}

#[test]
fn dead_band_holds_slow_without_command() {
    let r = tick(&cfg(), Some(FanState::Slow), temp(7799));
    assert_eq!(r, (FanState::Slow, None));
}

#[test]
fn first_tick_in_dead_band_settles_slow() {
    let r = tick(&cfg(), None, temp(7750));
    assert_eq!(r, (FanState::Slow, Some(65)));
}

#[test]
fn sensor_failure_fails_safe_hot() {
    for err in [SensorError::NotFound, SensorError::MalformedData, SensorError::Io] {
        let from_slow = tick(&cfg(), Some(FanState::Slow), Err(err));
        assert_eq!(from_slow, (FanState::Fast, Some(100)));
        let from_fast = tick(&cfg(), Some(FanState::Fast), Err(err));
        assert_eq!(from_fast, (FanState::Fast, Some(100)));
        let from_unset = tick(&cfg(), None, Err(err));
        assert_eq!(from_unset, (FanState::Fast, Some(100)));
    }
}

#[test]
fn no_oscillation_over_dead_band_sequence() {
    let config = cfg();
    let band = [7700, 7750, 7799, 7700, 7798];
    let mut state = FanState::Fast;
    for t in band {
        let (next, _) = tick(&config, Some(state), temp(t));
        assert_eq!(next, FanState::Fast);
        state = next;
    }
    let mut state = FanState::Slow;
    for t in band {
        let (next, _) = tick(&config, Some(state), temp(t));
        assert_eq!(next, FanState::Slow);
        state = next;
    }
}
