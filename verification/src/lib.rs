//! Fan-controller core: the hysteresis control law, the tachometer pulse
//! counter with its debounce filter, the sensor-file temperature parsers,
//! and the metric wire encoding.

pub mod control;
pub mod loglevel;
pub mod metrics;
pub mod sensors;
pub mod tach;
