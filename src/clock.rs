//! The clock source of the device and its clock output divider.
use vstd::prelude::*;

use crate::device::{
    exchanged, finished, is_bus_error, lemma_exchange, one_reg, two_regs, values, AFE4404,
};
use crate::error::AfeError;
use crate::modes::LedMode;
use crate::register::{field, get_field, set_field, with_field, I2cBus};

verus! {

/// The internal oscillator's frequency: 4 MHz.
pub const INTERNAL_CLOCK_HZ: u32 = 4_000_000;

/// Offset of the OSC_ENABLE bit of register 23h.
pub const OSC_ENABLE_OFFSET: u32 = 9;

/// Offset of the ENABLE_CLKOUT bit of register 29h.
pub const ENABLE_CLKOUT_OFFSET: u32 = 9;

/// Offset of the CLKDIV_CLKOUT field of register 29h.
pub const CLKDIV_CLKOUT_OFFSET: u32 = 1;

/// Represents the clock mode of the device.
#[derive(Debug, Clone, Copy, PartialEq, Eq, Structural)]
pub enum ClockConfiguration {
    /// The clock is driven by the internal oscillator at 4 MHz.
    Internal,
    /// The clock is driven by the internal oscillator at 4 MHz and propagated to the `CLK` pin.
    InternalToOutput {
        /// The division factor of the clock output.
        division_ratio: u8,
    },
    /// The clock is driven by an external oscillator.
    External,
}

/// The code of a clock output division ratio: `round(log2(ratio))`, when it fits in three
/// bits. Rounding `log2(r)` to `k` means `2^(2k-1) <= r^2 < 2^(2k+1)`.
pub open spec fn ratio_code(ratio: int) -> Option<int> {
    if ratio <= 0 {
        None
    } else if ratio * ratio < 2 {
        Some(0)
    } else if ratio * ratio < 8 {
        Some(1)
    } else if ratio * ratio < 32 {
        Some(2)
    } else if ratio * ratio < 128 {
        Some(3)
    } else if ratio * ratio < 512 {
        Some(4)
    } else if ratio * ratio < 2048 {
        Some(5)
    } else if ratio * ratio < 8192 {
        Some(6)
    } else if ratio * ratio < 32768 {
        Some(7)
    } else {
        None
    }
}

/// Two to the power `code`, for a three-bit code.
pub open spec fn ratio_of_code(code: int) -> int {
    if code == 0 {
        1
    } else if code == 1 {
        2
    } else if code == 2 {
        4
    } else if code == 3 {
        8
    } else if code == 4 {
        16
    } else if code == 5 {
        32
    } else if code == 6 {
        64
    } else {
        128
    }
}

/// The code of a clock output division ratio, if it has one.
pub fn ratio_code_of(ratio: u8) -> (r: Option<u8>)
    ensures
        r is None <==> ratio_code(ratio as int) is None,
        r matches Some(c) ==> ratio_code(ratio as int) == Some(c as int) && c <= 7,
{
    if ratio == 0 {
        return None;
    }
    proof {
        assert(ratio * ratio <= 255 * 255) by (nonlinear_arith)
            requires
                ratio <= 255,
        ;
    }
    let sq: u32 = ratio as u32 * ratio as u32;
    if sq < 2 {
        Some(0)
    } else if sq < 8 {
        Some(1)
    } else if sq < 32 {
        Some(2)
    } else if sq < 128 {
        Some(3)
    } else if sq < 512 {
        Some(4)
    } else if sq < 2048 {
        Some(5)
    } else if sq < 8192 {
        Some(6)
    } else if sq < 32768 {
        Some(7)
    } else {
        None
    }
}

/// The division ratio of a three-bit code: two to the power of the code.
pub fn ratio_from_code(code: u8) -> (r: u8)
    requires
        code <= 7,
    ensures
        r == ratio_of_code(code as int),
{
    match code {
        0 => 1,
        1 => 2,
        2 => 4,
        3 => 8,
        4 => 16,
        5 => 32,
        6 => 64,
        _ => 128,
    }
}

/// A power of two that has a code gets that code back.
pub proof fn lemma_ratio_code_of_power(code: int)
    requires
        0 <= code <= 7,
    ensures
        ratio_code(ratio_of_code(code)) == Some(code),
{
}

} // verus!

verus! {

/// The clock configuration that holds once `c` is applied: a division ratio is rounded to the
/// nearest power of two; `None` when it has no code.
pub open spec fn applied_clock(c: ClockConfiguration) -> Option<ClockConfiguration> {
    match c {
        ClockConfiguration::InternalToOutput { division_ratio } => match ratio_code(
            division_ratio as int,
        ) {
            Some(code) => Some(
                ClockConfiguration::InternalToOutput { division_ratio: ratio_of_code(code) as u8 },
            ),
            None => None,
        },
        _ => Some(c),
    }
}

/// A one-bit field for a flag.
pub open spec fn flag(b: bool) -> u32 {
    if b {
        1
    } else {
        0
    }
}

/// What a clock configuration writes: whether the internal oscillator runs, whether the clock
/// goes out, and the output divider code.
pub open spec fn clock_fields(c: ClockConfiguration) -> (bool, bool, int) {
    match c {
        ClockConfiguration::Internal => (true, false, 0),
        ClockConfiguration::InternalToOutput { division_ratio } => (
            true,
            true,
            match ratio_code(division_ratio as int) {
                Some(code) => code,
                None => 0,
            },
        ),
        ClockConfiguration::External => (false, false, 0),
    }
}

/// Registers 23h and 29h once the clock fields are written: OSC_ENABLE of 23h, the rest of 23h
/// kept; ENABLE_CLKOUT and CLKDIV_CLKOUT of a fresh 29h.
pub open spec fn clock_registers_spec(r23h: u32, internal: bool, output: bool, code: u32) -> (u32, u32) {
    (
        with_field(r23h, OSC_ENABLE_OFFSET, 1, flag(internal)),
        with_field(with_field(0, ENABLE_CLKOUT_OFFSET, 1, flag(output)), CLKDIV_CLKOUT_OFFSET, 4, code),
    )
}

/// The clock configuration that registers 23h and 29h stand for; an output divider code above 7
/// stands for none.
pub open spec fn clock_of_registers(r23h: u32, r29h: u32) -> Option<ClockConfiguration> {
    if field(r23h, OSC_ENABLE_OFFSET, 1) == 1 {
        if field(r29h, ENABLE_CLKOUT_OFFSET, 1) == 1 {
            let code = field(r29h, CLKDIV_CLKOUT_OFFSET, 4);
            if code > 7 {
                None
            } else {
                Some(ClockConfiguration::InternalToOutput { division_ratio: ratio_of_code(code as int) as u8 })
            }
        } else {
            Some(ClockConfiguration::Internal)
        }
    } else {
        Some(ClockConfiguration::External)
    }
}

/// The register writes that apply a clock configuration, register 23h having held `r23h`: 23h,
/// then 29h.
pub open spec fn clock_writes(c: ClockConfiguration, r23h: u32) -> Seq<(u8, u32)> {
    let (internal, output, code) = clock_fields(c);
    let (a, b) = clock_registers_spec(r23h, internal, output, code as u32);
    seq![(0x23u8, a), (0x29u8, b)]
}

/// Computes registers 23h and 29h for the clock fields.
pub fn clock_registers(r23h: u32, internal: bool, output: bool, code: u8) -> (r: (u32, u32))
    requires
        r23h <= crate::register::REGISTER_MAX,
        code <= 7,
    ensures
        r == clock_registers_spec(r23h, internal, output, code as u32),
        r.0 <= crate::register::REGISTER_MAX,
        r.1 <= crate::register::REGISTER_MAX,
{
    proof {
        crate::register::lemma_low_mask_values();
    }
    let osc: u32 = if internal {
        1
    } else {
        0
    };
    let out: u32 = if output {
        1
    } else {
        0
    };
    (
        set_field(r23h, OSC_ENABLE_OFFSET, 1, osc),
        set_field(set_field(0, ENABLE_CLKOUT_OFFSET, 1, out), CLKDIV_CLKOUT_OFFSET, 4, code as u32),
    )
}

/// Decodes registers 23h and 29h into a clock configuration.
pub fn decode_clock(r23h: u32, r29h: u32) -> (r: Option<ClockConfiguration>)
    ensures
        r == clock_of_registers(r23h, r29h),
{
    proof {
        crate::register::lemma_low_mask_values();
    }
    if get_field(r23h, OSC_ENABLE_OFFSET, 1) == 1 {
        if get_field(r29h, ENABLE_CLKOUT_OFFSET, 1) == 1 {
            let code = get_field(r29h, CLKDIV_CLKOUT_OFFSET, 4);
            if code > 7 {
                None
            } else {
                Some(ClockConfiguration::InternalToOutput { division_ratio: ratio_from_code(code as u8) })
            }
        } else {
            Some(ClockConfiguration::Internal)
        }
    } else {
        Some(ClockConfiguration::External)
    }
}

/// Reading the clock back right after setting it gives the configuration that the setter
/// returned.
pub proof fn lemma_clock_round_trip(r23h: u32, c: ClockConfiguration)
    requires
        applied_clock(c) is Some,
    ensures
        ({
            let (internal, output, code) = clock_fields(c);
            let (a, b) = clock_registers_spec(r23h, internal, output, code as u32);
            clock_of_registers(a, b) == applied_clock(c)
        }),
{
    crate::register::lemma_low_mask_values();
    let (internal, output, code) = clock_fields(c);
    assert(0 <= code <= 7);
    crate::register::lemma_field_of_with_field(r23h, OSC_ENABLE_OFFSET, 1, flag(internal));
    let v = with_field(0, ENABLE_CLKOUT_OFFSET, 1, flag(output));
    crate::register::lemma_field_of_with_field(0, ENABLE_CLKOUT_OFFSET, 1, flag(output));
    crate::register::lemma_field_of_with_field(v, CLKDIV_CLKOUT_OFFSET, 4, code as u32);
    crate::register::lemma_field_of_other(v, CLKDIV_CLKOUT_OFFSET, 4, code as u32, ENABLE_CLKOUT_OFFSET, 1);
}

impl<B: I2cBus, MODE: LedMode> AFE4404<B, MODE> {
    /// Sets the clock source, and the clock output divider when the clock is propagated.
    ///
    /// The internal oscillator runs at 4 MHz: it is refused when the device was set up with
    /// another clock frequency. Both refusals come before any bus transfer.
    pub fn set_clock_source(&mut self, configuration: &ClockConfiguration) -> (r: Result<
        ClockConfiguration,
        AfeError<B::Error>,
    >)
        ensures
            final(self).same_device(old(self)),
            applied_clock(*configuration) is None ==> r == Err::<ClockConfiguration, AfeError<B::Error>>(
                AfeError::ClockDivisionRatioOutsideAllowedRange,
            ) && *final(self) == *old(self),
            applied_clock(*configuration) is Some && !(*configuration is External) && old(self).clock_hz()
                != INTERNAL_CLOCK_HZ ==> r == Err::<ClockConfiguration, AfeError<B::Error>>(
                AfeError::IncorrectInternalClock,
            ) && *final(self) == *old(self),
            r matches Ok(c) ==> applied_clock(*configuration) == Some(c),
            (r matches Err(e) && e is ClockDivisionRatioOutsideAllowedRange) ==> applied_clock(
                *configuration,
            ) is None,
            (r matches Err(e) && e is IncorrectInternalClock) ==> !(*configuration is External)
                && old(self).clock_hz() != INTERNAL_CLOCK_HZ,
            (r is Ok || (r matches Err(e) && is_bus_error(e))) ==> exists|answers: Seq<Seq<u8>>|
                #[trigger] exchanged(
                    old(self).log(),
                    final(self).log(),
                    old(self).address_spec(),
                    one_reg(0x23u8),
                    answers,
                    clock_writes(*configuration, values(answers)[0]),
                    r is Ok,
                ),
            r matches Err(e) ==> (e is ClockDivisionRatioOutsideAllowedRange || e is IncorrectInternalClock
                || is_bus_error(e)),
    {
        let (internal, output, code): (bool, bool, u8) = match configuration {
            ClockConfiguration::Internal => (true, false, 0),
            ClockConfiguration::InternalToOutput { division_ratio } => match ratio_code_of(
                *division_ratio,
            ) {
                Some(c) => (true, true, c),
                None => {
                    return Err(AfeError::ClockDivisionRatioOutsideAllowedRange);
                },
            },
            ClockConfiguration::External => (false, false, 0),
        };
        if internal && self.clock() != INTERNAL_CLOCK_HZ {
            return Err(AfeError::IncorrectInternalClock);
        }
        assert(clock_fields(*configuration) == (internal, output, code as int));
        let ghost before = self.log();
        let ghost address = self.address_spec();
        let regs = vec![0x23u8];
        assert(regs@ =~= one_reg(0x23u8));
        let (res, got) = self.read_regs(&regs);
        let ghost answers = got@;
        let vals = match res {
            Ok(v) => v,
            Err(e) => {
                assert(exchanged(before, self.log(), address, regs@, answers, clock_writes(*configuration, values(answers)[0]), false));
                return Err(e);
            },
        };
        let (a, b) = clock_registers(vals[0], internal, output, code);
        let mut writes: Vec<(u8, u32)> = Vec::new();
        writes.push((0x23, a));
        writes.push((0x29, b));
        assert(writes@ =~= clock_writes(*configuration, values(answers)[0]));
        let ghost mid = self.log();
        let wr = self.run_writes(&writes);
        proof {
            lemma_exchange(before, mid, self.log(), address, regs@, answers, writes@, wr is Ok);
        }
        if let Err(e) = wr {
            return Err(e);
        }
        Ok(
            match configuration {
                ClockConfiguration::Internal => ClockConfiguration::Internal,
                ClockConfiguration::InternalToOutput { .. } => ClockConfiguration::InternalToOutput {
                    division_ratio: ratio_from_code(code),
                },
                ClockConfiguration::External => ClockConfiguration::External,
            },
        )
    }

    /// Gets the clock source from registers 23h and 29h.
    pub fn get_clock_source(&mut self) -> (r: Result<ClockConfiguration, AfeError<B::Error>>)
        ensures
            final(self).same_device(old(self)),
            r matches Err(e) ==> (e == AfeError::<B::Error>::InvalidRegisterValue { reg_addr: 0x29 }
                || is_bus_error(e)),
            exists|answers: Seq<Seq<u8>>|
                #[trigger] exchanged(
                    old(self).log(),
                    final(self).log(),
                    old(self).address_spec(),
                    two_regs(0x23u8, 0x29u8),
                    answers,
                    Seq::empty(),
                    finished(r),
                ) && (r matches Ok(c) ==> clock_of_registers(values(answers)[0], values(answers)[1]) == Some(c))
                && ((r matches Err(e) && !is_bus_error(e)) ==> clock_of_registers(values(answers)[0], values(answers)[1]) is None),
    {
        let ghost before = self.log();
        let ghost address = self.address_spec();
        let regs = vec![0x23u8, 0x29u8];
        assert(regs@ =~= two_regs(0x23u8, 0x29u8));
        let (res, got) = self.read_regs(&regs);
        let ghost answers = got@;
        let r = match res {
            Ok(vals) => match decode_clock(vals[0], vals[1]) {
                Some(c) => Ok(c),
                None => Err(AfeError::InvalidRegisterValue { reg_addr: 0x29 }),
            },
            Err(e) => Err(e),
        };
        assert(exchanged(before, self.log(), address, regs@, answers, Seq::empty(), finished(r)));
        r
    }
}

} // verus!
