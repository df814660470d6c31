//! A driver for the AFE4404 pulse-oximeter analog front end, reached over a two-wire bus.
//!
//! Physical values are integers in fixed units: currents in nanoamperes, resistances in ohms,
//! capacitances in femtofarads, times in nanoseconds, frequencies in hertz and potentials in
//! nanovolts. Each setter quantizes its request onto the register codes, refuses what the
//! hardware cannot hold before any bus transfer, and returns the values that now hold.
//! The lighting mode is part of the device's type, so that the operations of the other mode
//! cannot be called.
pub mod adc;
pub mod channel_current;
pub mod clock;
pub mod device;
pub mod error;
pub mod led_current;
pub mod measurement_window;
pub mod modes;
pub mod phase_timing;
pub mod quantize;
pub mod register;
pub mod system;
pub mod tia;
pub mod value_reading;
