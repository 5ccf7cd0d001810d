//! Duty-cycle measurement and power-supply control for a PWM-to-SCPI bridge.

pub mod control;
pub mod fixed_format;
pub mod messaging;
pub mod pulse_meter;
pub mod queue;
pub mod ring_buffer;
pub mod text;
