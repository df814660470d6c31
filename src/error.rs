//! The errors of the driver.
use vstd::prelude::*;

verus! {

/// What can go wrong while talking to the device, `E` being the bus's own error.
#[derive(Debug, Clone, Copy, PartialEq, Eq)]
pub enum AfeError<E> {
    /// The bus reported a failure.
    I2CError(E),
    /// The bus answered with fewer bytes than a register holds.
    IncorrectAnswerLength { expected: usize, received: usize },
    /// The requested LED current falls outside the allowed range.
    LedCurrentOutsideAllowedRange,
    /// The requested offset current falls outside the allowed range.
    OffsetCurrentOutsideAllowedRange,
    /// The requested resistor value falls outside the allowed range.
    ResistorValueOutsideAllowedRange,
    /// The requested capacitor value falls outside the allowed range.
    CapacitorValueOutsideAllowedRange,
    /// The ADC reading saturated past full scale.
    AdcReadingOutsideAllowedRange,
    /// The requested window period is too long for the clock frequency.
    WindowPeriodTooLong,
    /// The requested window period is shorter than half a period of the divided clock.
    WindowPeriodTooShort,
    /// The internal clock was requested while the device clock is not 4 MHz.
    IncorrectInternalClock,
    /// The requested number of averages falls outside the allowed range.
    NumberOfAveragesOutsideAllowedRange,
    /// The requested decimation factor falls outside the allowed range.
    DecimationFactorOutsideAllowedRange,
    /// A register holds a bit pattern with no defined meaning.
    InvalidRegisterValue { reg_addr: u8 },
    /// The requested clock output division ratio falls outside the allowed range.
    ClockDivisionRatioOutsideAllowedRange,
}

} // verus!
