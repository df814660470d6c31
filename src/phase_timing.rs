//! Setting and reading one phase boundary of the measurement window at a time, on the grid
//! of the divided clock that the divider register holds.
use vstd::prelude::*;

use crate::device::{
    exchanged, finished, is_bus_error, lemma_exchange, one_reg, reads_transfers, two_regs, values,
    writes_transfers, AFE4404,
};
use crate::error::AfeError;
use crate::measurement_window::{
    divider_from_code, divider_of_code, time_of, time_of_ticks, NS_PER_S, PHASE_MAX,
};
use crate::modes::{LedMode, ThreeLedsMode, TwoLedsMode};
use crate::quantize::{round_div, round_div_u128};
use crate::register::{field, get_field, I2cBus};

verus! {

/// The register value of a boundary at `t` nanoseconds on the grid of `d / clock`:
/// `round(t / (d / clock))`, kept within 16 bits.
pub open spec fn boundary_code(t: int, d: int, clock: int) -> int {
    if t <= 0 {
        0
    } else if round_div(t * clock, d * NS_PER_S) > PHASE_MAX {
        PHASE_MAX as int
    } else {
        round_div(t * clock, d * NS_PER_S)
    }
}

/// The register write that sets a boundary at `t` nanoseconds into the phase register at
/// `reg_addr`, register 39h having held `r39h`; none when 39h holds no divider.
pub open spec fn boundary_writes(reg_addr: u8, r39h: u32, t: int, clock: int) -> Seq<(u8, u32)> {
    match divider_of_code(field(r39h, 0, 3) as int) {
        Some(d) => seq![(reg_addr, boundary_code(t, d, clock) as u32)],
        None => Seq::empty(),
    }
}

/// The register value of a boundary at `t` nanoseconds on the grid of `d / clock_hz`.
pub fn boundary_code_of(t: i64, d: u64, clock_hz: u32) -> (r: u32)
    requires
        1 <= d <= 16,
    ensures
        r == boundary_code(t as int, d as int, clock_hz as int),
        r <= PHASE_MAX,
{
    if t <= 0 {
        return 0;
    }
    proof {
        assert(0 <= t * clock_hz <= i64::MAX * u32::MAX) by (nonlinear_arith)
            requires
                0 < t <= i64::MAX,
                0 <= clock_hz <= u32::MAX,
        ;
    }
    let product: u128 = t as u128 * clock_hz as u128;
    assert(NS_PER_S <= d * NS_PER_S <= 16 * NS_PER_S) by (nonlinear_arith)
        requires
            1 <= d <= 16,
    ;
    let den: u128 = d as u128 * NS_PER_S as u128;
    let c = round_div_u128(product, den);
    if c > PHASE_MAX as u128 {
        PHASE_MAX
    } else {
        c as u32
    }
}

impl<B: I2cBus, MODE: LedMode> AFE4404<B, MODE> {
    /// Writes the boundary at `t` nanoseconds into the phase register at `reg_addr`, on the grid
    /// of the divider that register 39h holds.
    fn set_boundary(&mut self, reg_addr: u8, t: i64) -> (r: Result<i64, AfeError<B::Error>>)
        requires
            old(self).clock_hz() > 0,
        ensures
            final(self).same_device(old(self)),
            r matches Err(e) ==> (e == AfeError::<B::Error>::InvalidRegisterValue { reg_addr: 0x39 }
                || is_bus_error(e)),
            exists|answers: Seq<Seq<u8>>|
                #[trigger] exchanged(
                    old(self).log(),
                    final(self).log(),
                    old(self).address_spec(),
                    one_reg(0x39u8),
                    answers,
                    boundary_writes(reg_addr, values(answers)[0], t as int, old(self).clock_hz() as int),
                    finished(r),
                ) && (r matches Ok(v) ==> (divider_of_code(field(values(answers)[0], 0, 3) as int) matches Some(d)
                    && v == time_of_ticks(boundary_code(t as int, d, old(self).clock_hz() as int), d, old(self).clock_hz() as int)))
                && ((r matches Err(e) && !is_bus_error(e)) ==> divider_of_code(field(values(answers)[0], 0, 3) as int) is None),
    {
        proof {
            crate::register::lemma_low_mask_values();
        }
        let clock = self.clock();
        let ghost before = self.log();
        let ghost address = self.address_spec();
        let regs = vec![0x39u8];
        assert(regs@ =~= one_reg(0x39u8));
        let (res, got) = self.read_regs(&regs);
        let ghost answers = got@;
        let ghost target = boundary_writes(reg_addr, values(answers)[0], t as int, clock as int);
        let vals = match res {
            Ok(v) => v,
            Err(e) => {
                let r = Err(e);
                assert(exchanged(before, self.log(), address, regs@, answers, target, finished(r)));
                return r;
            },
        };
        let d = match divider_from_code(get_field(vals[0], 0, 3)) {
            Some(d) => d,
            None => {
                let r = Err(AfeError::InvalidRegisterValue { reg_addr: 0x39 });
                assert(target =~= Seq::<(u8, u32)>::empty());
                assert(writes_transfers(address, target) =~= Seq::empty());
                assert(writes_transfers(address, Seq::empty()) =~= Seq::empty());
                assert(exchanged(before, self.log(), address, regs@, answers, target, finished(r)));
                return r;
            },
        };
        let code = boundary_code_of(t, d, clock);
        let mut writes: Vec<(u8, u32)> = Vec::new();
        writes.push((reg_addr, code));
        assert(writes@ =~= target);
        let ghost mid = self.log();
        let wr = self.run_writes(&writes);
        proof {
            lemma_exchange(before, mid, self.log(), address, regs@, answers, writes@, wr is Ok);
        }
        let r = match wr {
            Ok(()) => Ok(time_of(code as u64, d, clock)),
            Err(e) => Err(e),
        };
        assert(exchanged(before, self.log(), address, regs@, answers, target, finished(r)));
        r
    }

    /// Reads the boundary that the phase register at `reg_addr` holds, in nanoseconds.
    fn get_boundary(&mut self, reg_addr: u8) -> (r: Result<i64, AfeError<B::Error>>)
        requires
            old(self).clock_hz() > 0,
        ensures
            final(self).same_device(old(self)),
            r matches Err(e) ==> (e == AfeError::<B::Error>::InvalidRegisterValue { reg_addr: 0x39 }
                || is_bus_error(e)),
            exists|answers: Seq<Seq<u8>>|
                #[trigger] exchanged(
                    old(self).log(),
                    final(self).log(),
                    old(self).address_spec(),
                    two_regs(reg_addr, 0x39u8),
                    answers,
                    Seq::empty(),
                    finished(r),
                ) && (r matches Ok(v) ==> (divider_of_code(field(values(answers)[1], 0, 3) as int) matches Some(d)
                    && v == time_of_ticks(field(values(answers)[0], 0, 16) as int, d, old(self).clock_hz() as int)))
                && ((r matches Err(e) && !is_bus_error(e)) ==> divider_of_code(field(values(answers)[1], 0, 3) as int) is None),
    {
        proof {
            crate::register::lemma_low_mask_values();
        }
        let clock = self.clock();
        let ghost before = self.log();
        let ghost address = self.address_spec();
        let regs = vec![reg_addr, 0x39u8];
        assert(regs@ =~= two_regs(reg_addr, 0x39u8));
        let (res, got) = self.read_regs(&regs);
        let ghost answers = got@;
        let r = match res {
            Ok(vals) => match divider_from_code(get_field(vals[1], 0, 3)) {
                Some(d) => Ok(time_of(get_field(vals[0], 0, 16) as u64, d, clock)),
                None => Err(AfeError::InvalidRegisterValue { reg_addr: 0x39 }),
            },
            Err(e) => Err(e),
        };
        assert(exchanged(before, self.log(), address, regs@, answers, Seq::empty(), finished(r)));
        r
    }

    /// Sets the start of the LED-on phase of LED1 alone, in nanoseconds, on the grid of the divided clock.
    pub fn set_led1_lighting_st(&mut self, timing: i64) -> (r: Result<i64, AfeError<B::Error>>)
        requires
            old(self).clock_hz() > 0,
        ensures
            final(self).same_device(old(self)),
            r matches Err(e) ==> (e == AfeError::<B::Error>::InvalidRegisterValue { reg_addr: 0x39 }
                || is_bus_error(e)),
            exists|answers: Seq<Seq<u8>>|
                #[trigger] exchanged(
                    old(self).log(),
                    final(self).log(),
                    old(self).address_spec(),
                    one_reg(0x39u8),
                    answers,
                    boundary_writes(0x03u8, values(answers)[0], timing as int, old(self).clock_hz() as int),
                    finished(r),
                ) && (r matches Ok(v) ==> (divider_of_code(field(values(answers)[0], 0, 3) as int) matches Some(d)
                    && v == time_of_ticks(boundary_code(timing as int, d, old(self).clock_hz() as int), d, old(self).clock_hz() as int)))
                && ((r matches Err(e) && !is_bus_error(e)) ==> divider_of_code(field(values(answers)[0], 0, 3) as int) is None),
    {
        self.set_boundary(0x03, timing)
    }

    /// Gets the start of the LED-on phase of LED1, in nanoseconds.
    pub fn get_led1_lighting_st(&mut self) -> (r: Result<i64, AfeError<B::Error>>)
        requires
            old(self).clock_hz() > 0,
        ensures
            final(self).same_device(old(self)),
            r matches Err(e) ==> (e == AfeError::<B::Error>::InvalidRegisterValue { reg_addr: 0x39 }
                || is_bus_error(e)),
            exists|answers: Seq<Seq<u8>>|
                #[trigger] exchanged(
                    old(self).log(),
                    final(self).log(),
                    old(self).address_spec(),
                    two_regs(0x03u8, 0x39u8),
                    answers,
                    Seq::empty(),
                    finished(r),
                ) && (r matches Ok(v) ==> (divider_of_code(field(values(answers)[1], 0, 3) as int) matches Some(d)
                    && v == time_of_ticks(field(values(answers)[0], 0, 16) as int, d, old(self).clock_hz() as int)))
                && ((r matches Err(e) && !is_bus_error(e)) ==> divider_of_code(field(values(answers)[1], 0, 3) as int) is None),
    {
        self.get_boundary(0x03)
    }

    /// Sets the end of the LED-on phase of LED1 alone, in nanoseconds, on the grid of the divided clock.
    pub fn set_led1_lighting_end(&mut self, timing: i64) -> (r: Result<i64, AfeError<B::Error>>)
        requires
            old(self).clock_hz() > 0,
        ensures
            final(self).same_device(old(self)),
            r matches Err(e) ==> (e == AfeError::<B::Error>::InvalidRegisterValue { reg_addr: 0x39 }
                || is_bus_error(e)),
            exists|answers: Seq<Seq<u8>>|
                #[trigger] exchanged(
                    old(self).log(),
                    final(self).log(),
                    old(self).address_spec(),
                    one_reg(0x39u8),
                    answers,
                    boundary_writes(0x04u8, values(answers)[0], timing as int, old(self).clock_hz() as int),
                    finished(r),
                ) && (r matches Ok(v) ==> (divider_of_code(field(values(answers)[0], 0, 3) as int) matches Some(d)
                    && v == time_of_ticks(boundary_code(timing as int, d, old(self).clock_hz() as int), d, old(self).clock_hz() as int)))
                && ((r matches Err(e) && !is_bus_error(e)) ==> divider_of_code(field(values(answers)[0], 0, 3) as int) is None),
    {
        self.set_boundary(0x04, timing)
    }

    /// Gets the end of the LED-on phase of LED1, in nanoseconds.
    pub fn get_led1_lighting_end(&mut self) -> (r: Result<i64, AfeError<B::Error>>)
        requires
            old(self).clock_hz() > 0,
        ensures
            final(self).same_device(old(self)),
            r matches Err(e) ==> (e == AfeError::<B::Error>::InvalidRegisterValue { reg_addr: 0x39 }
                || is_bus_error(e)),
            exists|answers: Seq<Seq<u8>>|
                #[trigger] exchanged(
                    old(self).log(),
                    final(self).log(),
                    old(self).address_spec(),
                    two_regs(0x04u8, 0x39u8),
                    answers,
                    Seq::empty(),
                    finished(r),
                ) && (r matches Ok(v) ==> (divider_of_code(field(values(answers)[1], 0, 3) as int) matches Some(d)
                    && v == time_of_ticks(field(values(answers)[0], 0, 16) as int, d, old(self).clock_hz() as int)))
                && ((r matches Err(e) && !is_bus_error(e)) ==> divider_of_code(field(values(answers)[1], 0, 3) as int) is None),
    {
        self.get_boundary(0x04)
    }

    /// Sets the start of the sampling phase of LED1 alone, in nanoseconds, on the grid of the divided clock.
    pub fn set_led1_sample_st(&mut self, timing: i64) -> (r: Result<i64, AfeError<B::Error>>)
        requires
            old(self).clock_hz() > 0,
        ensures
            final(self).same_device(old(self)),
            r matches Err(e) ==> (e == AfeError::<B::Error>::InvalidRegisterValue { reg_addr: 0x39 }
                || is_bus_error(e)),
            exists|answers: Seq<Seq<u8>>|
                #[trigger] exchanged(
                    old(self).log(),
                    final(self).log(),
                    old(self).address_spec(),
                    one_reg(0x39u8),
                    answers,
                    boundary_writes(0x07u8, values(answers)[0], timing as int, old(self).clock_hz() as int),
                    finished(r),
                ) && (r matches Ok(v) ==> (divider_of_code(field(values(answers)[0], 0, 3) as int) matches Some(d)
                    && v == time_of_ticks(boundary_code(timing as int, d, old(self).clock_hz() as int), d, old(self).clock_hz() as int)))
                && ((r matches Err(e) && !is_bus_error(e)) ==> divider_of_code(field(values(answers)[0], 0, 3) as int) is None),
    {
        self.set_boundary(0x07, timing)
    }

    /// Gets the start of the sampling phase of LED1, in nanoseconds.
    pub fn get_led1_sample_st(&mut self) -> (r: Result<i64, AfeError<B::Error>>)
        requires
            old(self).clock_hz() > 0,
        ensures
            final(self).same_device(old(self)),
            r matches Err(e) ==> (e == AfeError::<B::Error>::InvalidRegisterValue { reg_addr: 0x39 }
                || is_bus_error(e)),
            exists|answers: Seq<Seq<u8>>|
                #[trigger] exchanged(
                    old(self).log(),
                    final(self).log(),
                    old(self).address_spec(),
                    two_regs(0x07u8, 0x39u8),
                    answers,
                    Seq::empty(),
                    finished(r),
                ) && (r matches Ok(v) ==> (divider_of_code(field(values(answers)[1], 0, 3) as int) matches Some(d)
                    && v == time_of_ticks(field(values(answers)[0], 0, 16) as int, d, old(self).clock_hz() as int)))
                && ((r matches Err(e) && !is_bus_error(e)) ==> divider_of_code(field(values(answers)[1], 0, 3) as int) is None),
    {
        self.get_boundary(0x07)
    }

    /// Sets the end of the sampling phase of LED1 alone, in nanoseconds, on the grid of the divided clock.
    pub fn set_led1_sample_end(&mut self, timing: i64) -> (r: Result<i64, AfeError<B::Error>>)
        requires
            old(self).clock_hz() > 0,
        ensures
            final(self).same_device(old(self)),
            r matches Err(e) ==> (e == AfeError::<B::Error>::InvalidRegisterValue { reg_addr: 0x39 }
                || is_bus_error(e)),
            exists|answers: Seq<Seq<u8>>|
                #[trigger] exchanged(
                    old(self).log(),
                    final(self).log(),
                    old(self).address_spec(),
                    one_reg(0x39u8),
                    answers,
                    boundary_writes(0x08u8, values(answers)[0], timing as int, old(self).clock_hz() as int),
                    finished(r),
                ) && (r matches Ok(v) ==> (divider_of_code(field(values(answers)[0], 0, 3) as int) matches Some(d)
                    && v == time_of_ticks(boundary_code(timing as int, d, old(self).clock_hz() as int), d, old(self).clock_hz() as int)))
                && ((r matches Err(e) && !is_bus_error(e)) ==> divider_of_code(field(values(answers)[0], 0, 3) as int) is None),
    {
        self.set_boundary(0x08, timing)
    }

    /// Gets the end of the sampling phase of LED1, in nanoseconds.
    pub fn get_led1_sample_end(&mut self) -> (r: Result<i64, AfeError<B::Error>>)
        requires
            old(self).clock_hz() > 0,
        ensures
            final(self).same_device(old(self)),
            r matches Err(e) ==> (e == AfeError::<B::Error>::InvalidRegisterValue { reg_addr: 0x39 }
                || is_bus_error(e)),
            exists|answers: Seq<Seq<u8>>|
                #[trigger] exchanged(
                    old(self).log(),
                    final(self).log(),
                    old(self).address_spec(),
                    two_regs(0x08u8, 0x39u8),
                    answers,
                    Seq::empty(),
                    finished(r),
                ) && (r matches Ok(v) ==> (divider_of_code(field(values(answers)[1], 0, 3) as int) matches Some(d)
                    && v == time_of_ticks(field(values(answers)[0], 0, 16) as int, d, old(self).clock_hz() as int)))
                && ((r matches Err(e) && !is_bus_error(e)) ==> divider_of_code(field(values(answers)[1], 0, 3) as int) is None),
    {
        self.get_boundary(0x08)
    }

    /// Sets the start of the ADC reset phase of LED1 alone, in nanoseconds, on the grid of the divided clock.
    pub fn set_led1_reset_st(&mut self, timing: i64) -> (r: Result<i64, AfeError<B::Error>>)
        requires
            old(self).clock_hz() > 0,
        ensures
            final(self).same_device(old(self)),
            r matches Err(e) ==> (e == AfeError::<B::Error>::InvalidRegisterValue { reg_addr: 0x39 }
                || is_bus_error(e)),
            exists|answers: Seq<Seq<u8>>|
                #[trigger] exchanged(
                    old(self).log(),
                    final(self).log(),
                    old(self).address_spec(),
                    one_reg(0x39u8),
                    answers,
                    boundary_writes(0x19u8, values(answers)[0], timing as int, old(self).clock_hz() as int),
                    finished(r),
                ) && (r matches Ok(v) ==> (divider_of_code(field(values(answers)[0], 0, 3) as int) matches Some(d)
                    && v == time_of_ticks(boundary_code(timing as int, d, old(self).clock_hz() as int), d, old(self).clock_hz() as int)))
                && ((r matches Err(e) && !is_bus_error(e)) ==> divider_of_code(field(values(answers)[0], 0, 3) as int) is None),
    {
        self.set_boundary(0x19, timing)
    }

    /// Gets the start of the ADC reset phase of LED1, in nanoseconds.
    pub fn get_led1_reset_st(&mut self) -> (r: Result<i64, AfeError<B::Error>>)
        requires
            old(self).clock_hz() > 0,
        ensures
            final(self).same_device(old(self)),
            r matches Err(e) ==> (e == AfeError::<B::Error>::InvalidRegisterValue { reg_addr: 0x39 }
                || is_bus_error(e)),
            exists|answers: Seq<Seq<u8>>|
                #[trigger] exchanged(
                    old(self).log(),
                    final(self).log(),
                    old(self).address_spec(),
                    two_regs(0x19u8, 0x39u8),
                    answers,
                    Seq::empty(),
                    finished(r),
                ) && (r matches Ok(v) ==> (divider_of_code(field(values(answers)[1], 0, 3) as int) matches Some(d)
                    && v == time_of_ticks(field(values(answers)[0], 0, 16) as int, d, old(self).clock_hz() as int)))
                && ((r matches Err(e) && !is_bus_error(e)) ==> divider_of_code(field(values(answers)[1], 0, 3) as int) is None),
    {
        self.get_boundary(0x19)
    }

    /// Sets the end of the ADC reset phase of LED1 alone, in nanoseconds, on the grid of the divided clock.
    pub fn set_led1_reset_end(&mut self, timing: i64) -> (r: Result<i64, AfeError<B::Error>>)
        requires
            old(self).clock_hz() > 0,
        ensures
            final(self).same_device(old(self)),
            r matches Err(e) ==> (e == AfeError::<B::Error>::InvalidRegisterValue { reg_addr: 0x39 }
                || is_bus_error(e)),
            exists|answers: Seq<Seq<u8>>|
                #[trigger] exchanged(
                    old(self).log(),
                    final(self).log(),
                    old(self).address_spec(),
                    one_reg(0x39u8),
                    answers,
                    boundary_writes(0x1Au8, values(answers)[0], timing as int, old(self).clock_hz() as int),
                    finished(r),
                ) && (r matches Ok(v) ==> (divider_of_code(field(values(answers)[0], 0, 3) as int) matches Some(d)
                    && v == time_of_ticks(boundary_code(timing as int, d, old(self).clock_hz() as int), d, old(self).clock_hz() as int)))
                && ((r matches Err(e) && !is_bus_error(e)) ==> divider_of_code(field(values(answers)[0], 0, 3) as int) is None),
    {
        self.set_boundary(0x1A, timing)
    }

    /// Gets the end of the ADC reset phase of LED1, in nanoseconds.
    pub fn get_led1_reset_end(&mut self) -> (r: Result<i64, AfeError<B::Error>>)
        requires
            old(self).clock_hz() > 0,
        ensures
            final(self).same_device(old(self)),
            r matches Err(e) ==> (e == AfeError::<B::Error>::InvalidRegisterValue { reg_addr: 0x39 }
                || is_bus_error(e)),
            exists|answers: Seq<Seq<u8>>|
                #[trigger] exchanged(
                    old(self).log(),
                    final(self).log(),
                    old(self).address_spec(),
                    two_regs(0x1Au8, 0x39u8),
                    answers,
                    Seq::empty(),
                    finished(r),
                ) && (r matches Ok(v) ==> (divider_of_code(field(values(answers)[1], 0, 3) as int) matches Some(d)
                    && v == time_of_ticks(field(values(answers)[0], 0, 16) as int, d, old(self).clock_hz() as int)))
                && ((r matches Err(e) && !is_bus_error(e)) ==> divider_of_code(field(values(answers)[1], 0, 3) as int) is None),
    {
        self.get_boundary(0x1A)
    }

    /// Sets the start of the conversion phase of LED1 alone, in nanoseconds, on the grid of the divided clock.
    pub fn set_led1_conv_st(&mut self, timing: i64) -> (r: Result<i64, AfeError<B::Error>>)
        requires
            old(self).clock_hz() > 0,
        ensures
            final(self).same_device(old(self)),
            r matches Err(e) ==> (e == AfeError::<B::Error>::InvalidRegisterValue { reg_addr: 0x39 }
                || is_bus_error(e)),
            exists|answers: Seq<Seq<u8>>|
                #[trigger] exchanged(
                    old(self).log(),
                    final(self).log(),
                    old(self).address_spec(),
                    one_reg(0x39u8),
                    answers,
                    boundary_writes(0x11u8, values(answers)[0], timing as int, old(self).clock_hz() as int),
                    finished(r),
                ) && (r matches Ok(v) ==> (divider_of_code(field(values(answers)[0], 0, 3) as int) matches Some(d)
                    && v == time_of_ticks(boundary_code(timing as int, d, old(self).clock_hz() as int), d, old(self).clock_hz() as int)))
                && ((r matches Err(e) && !is_bus_error(e)) ==> divider_of_code(field(values(answers)[0], 0, 3) as int) is None),
    {
        self.set_boundary(0x11, timing)
    }

    /// Gets the start of the conversion phase of LED1, in nanoseconds.
    pub fn get_led1_conv_st(&mut self) -> (r: Result<i64, AfeError<B::Error>>)
        requires
            old(self).clock_hz() > 0,
        ensures
            final(self).same_device(old(self)),
            r matches Err(e) ==> (e == AfeError::<B::Error>::InvalidRegisterValue { reg_addr: 0x39 }
                || is_bus_error(e)),
            exists|answers: Seq<Seq<u8>>|
                #[trigger] exchanged(
                    old(self).log(),
                    final(self).log(),
                    old(self).address_spec(),
                    two_regs(0x11u8, 0x39u8),
                    answers,
                    Seq::empty(),
                    finished(r),
                ) && (r matches Ok(v) ==> (divider_of_code(field(values(answers)[1], 0, 3) as int) matches Some(d)
                    && v == time_of_ticks(field(values(answers)[0], 0, 16) as int, d, old(self).clock_hz() as int)))
                && ((r matches Err(e) && !is_bus_error(e)) ==> divider_of_code(field(values(answers)[1], 0, 3) as int) is None),
    {
        self.get_boundary(0x11)
    }

    /// Sets the end of the conversion phase of LED1 alone, in nanoseconds, on the grid of the divided clock.
    pub fn set_led1_conv_end(&mut self, timing: i64) -> (r: Result<i64, AfeError<B::Error>>)
        requires
            old(self).clock_hz() > 0,
        ensures
            final(self).same_device(old(self)),
            r matches Err(e) ==> (e == AfeError::<B::Error>::InvalidRegisterValue { reg_addr: 0x39 }
                || is_bus_error(e)),
            exists|answers: Seq<Seq<u8>>|
                #[trigger] exchanged(
                    old(self).log(),
                    final(self).log(),
                    old(self).address_spec(),
                    one_reg(0x39u8),
                    answers,
                    boundary_writes(0x12u8, values(answers)[0], timing as int, old(self).clock_hz() as int),
                    finished(r),
                ) && (r matches Ok(v) ==> (divider_of_code(field(values(answers)[0], 0, 3) as int) matches Some(d)
                    && v == time_of_ticks(boundary_code(timing as int, d, old(self).clock_hz() as int), d, old(self).clock_hz() as int)))
                && ((r matches Err(e) && !is_bus_error(e)) ==> divider_of_code(field(values(answers)[0], 0, 3) as int) is None),
    {
        self.set_boundary(0x12, timing)
    }

    /// Gets the end of the conversion phase of LED1, in nanoseconds.
    pub fn get_led1_conv_end(&mut self) -> (r: Result<i64, AfeError<B::Error>>)
        requires
            old(self).clock_hz() > 0,
        ensures
            final(self).same_device(old(self)),
            r matches Err(e) ==> (e == AfeError::<B::Error>::InvalidRegisterValue { reg_addr: 0x39 }
                || is_bus_error(e)),
            exists|answers: Seq<Seq<u8>>|
                #[trigger] exchanged(
                    old(self).log(),
                    final(self).log(),
                    old(self).address_spec(),
                    two_regs(0x12u8, 0x39u8),
                    answers,
                    Seq::empty(),
                    finished(r),
                ) && (r matches Ok(v) ==> (divider_of_code(field(values(answers)[1], 0, 3) as int) matches Some(d)
                    && v == time_of_ticks(field(values(answers)[0], 0, 16) as int, d, old(self).clock_hz() as int)))
                && ((r matches Err(e) && !is_bus_error(e)) ==> divider_of_code(field(values(answers)[1], 0, 3) as int) is None),
    {
        self.get_boundary(0x12)
    }

    /// Sets the start of the LED-on phase of LED2 alone, in nanoseconds, on the grid of the divided clock.
    pub fn set_led2_lighting_st(&mut self, timing: i64) -> (r: Result<i64, AfeError<B::Error>>)
        requires
            old(self).clock_hz() > 0,
        ensures
            final(self).same_device(old(self)),
            r matches Err(e) ==> (e == AfeError::<B::Error>::InvalidRegisterValue { reg_addr: 0x39 }
                || is_bus_error(e)),
            exists|answers: Seq<Seq<u8>>|
                #[trigger] exchanged(
                    old(self).log(),
                    final(self).log(),
                    old(self).address_spec(),
                    one_reg(0x39u8),
                    answers,
                    boundary_writes(0x09u8, values(answers)[0], timing as int, old(self).clock_hz() as int),
                    finished(r),
                ) && (r matches Ok(v) ==> (divider_of_code(field(values(answers)[0], 0, 3) as int) matches Some(d)
                    && v == time_of_ticks(boundary_code(timing as int, d, old(self).clock_hz() as int), d, old(self).clock_hz() as int)))
                && ((r matches Err(e) && !is_bus_error(e)) ==> divider_of_code(field(values(answers)[0], 0, 3) as int) is None),
    {
        self.set_boundary(0x09, timing)
    }

    /// Gets the start of the LED-on phase of LED2, in nanoseconds.
    pub fn get_led2_lighting_st(&mut self) -> (r: Result<i64, AfeError<B::Error>>)
        requires
            old(self).clock_hz() > 0,
        ensures
            final(self).same_device(old(self)),
            r matches Err(e) ==> (e == AfeError::<B::Error>::InvalidRegisterValue { reg_addr: 0x39 }
                || is_bus_error(e)),
            exists|answers: Seq<Seq<u8>>|
                #[trigger] exchanged(
                    old(self).log(),
                    final(self).log(),
                    old(self).address_spec(),
                    two_regs(0x09u8, 0x39u8),
                    answers,
                    Seq::empty(),
                    finished(r),
                ) && (r matches Ok(v) ==> (divider_of_code(field(values(answers)[1], 0, 3) as int) matches Some(d)
                    && v == time_of_ticks(field(values(answers)[0], 0, 16) as int, d, old(self).clock_hz() as int)))
                && ((r matches Err(e) && !is_bus_error(e)) ==> divider_of_code(field(values(answers)[1], 0, 3) as int) is None),
    {
        self.get_boundary(0x09)
    }

    /// Sets the end of the LED-on phase of LED2 alone, in nanoseconds, on the grid of the divided clock.
    pub fn set_led2_lighting_end(&mut self, timing: i64) -> (r: Result<i64, AfeError<B::Error>>)
        requires
            old(self).clock_hz() > 0,
        ensures
            final(self).same_device(old(self)),
            r matches Err(e) ==> (e == AfeError::<B::Error>::InvalidRegisterValue { reg_addr: 0x39 }
                || is_bus_error(e)),
            exists|answers: Seq<Seq<u8>>|
                #[trigger] exchanged(
                    old(self).log(),
                    final(self).log(),
                    old(self).address_spec(),
                    one_reg(0x39u8),
                    answers,
                    boundary_writes(0x0Au8, values(answers)[0], timing as int, old(self).clock_hz() as int),
                    finished(r),
                ) && (r matches Ok(v) ==> (divider_of_code(field(values(answers)[0], 0, 3) as int) matches Some(d)
                    && v == time_of_ticks(boundary_code(timing as int, d, old(self).clock_hz() as int), d, old(self).clock_hz() as int)))
                && ((r matches Err(e) && !is_bus_error(e)) ==> divider_of_code(field(values(answers)[0], 0, 3) as int) is None),
    {
        self.set_boundary(0x0A, timing)
    }

    /// Gets the end of the LED-on phase of LED2, in nanoseconds.
    pub fn get_led2_lighting_end(&mut self) -> (r: Result<i64, AfeError<B::Error>>)
        requires
            old(self).clock_hz() > 0,
        ensures
            final(self).same_device(old(self)),
            r matches Err(e) ==> (e == AfeError::<B::Error>::InvalidRegisterValue { reg_addr: 0x39 }
                || is_bus_error(e)),
            exists|answers: Seq<Seq<u8>>|
                #[trigger] exchanged(
                    old(self).log(),
                    final(self).log(),
                    old(self).address_spec(),
                    two_regs(0x0Au8, 0x39u8),
                    answers,
                    Seq::empty(),
                    finished(r),
                ) && (r matches Ok(v) ==> (divider_of_code(field(values(answers)[1], 0, 3) as int) matches Some(d)
                    && v == time_of_ticks(field(values(answers)[0], 0, 16) as int, d, old(self).clock_hz() as int)))
                && ((r matches Err(e) && !is_bus_error(e)) ==> divider_of_code(field(values(answers)[1], 0, 3) as int) is None),
    {
        self.get_boundary(0x0A)
    }

    /// Sets the start of the sampling phase of LED2 alone, in nanoseconds, on the grid of the divided clock.
    pub fn set_led2_sample_st(&mut self, timing: i64) -> (r: Result<i64, AfeError<B::Error>>)
        requires
            old(self).clock_hz() > 0,
        ensures
            final(self).same_device(old(self)),
            r matches Err(e) ==> (e == AfeError::<B::Error>::InvalidRegisterValue { reg_addr: 0x39 }
                || is_bus_error(e)),
            exists|answers: Seq<Seq<u8>>|
                #[trigger] exchanged(
                    old(self).log(),
                    final(self).log(),
                    old(self).address_spec(),
                    one_reg(0x39u8),
                    answers,
                    boundary_writes(0x01u8, values(answers)[0], timing as int, old(self).clock_hz() as int),
                    finished(r),
                ) && (r matches Ok(v) ==> (divider_of_code(field(values(answers)[0], 0, 3) as int) matches Some(d)
                    && v == time_of_ticks(boundary_code(timing as int, d, old(self).clock_hz() as int), d, old(self).clock_hz() as int)))
                && ((r matches Err(e) && !is_bus_error(e)) ==> divider_of_code(field(values(answers)[0], 0, 3) as int) is None),
    {
        self.set_boundary(0x01, timing)
    }

    /// Gets the start of the sampling phase of LED2, in nanoseconds.
    pub fn get_led2_sample_st(&mut self) -> (r: Result<i64, AfeError<B::Error>>)
        requires
            old(self).clock_hz() > 0,
        ensures
            final(self).same_device(old(self)),
            r matches Err(e) ==> (e == AfeError::<B::Error>::InvalidRegisterValue { reg_addr: 0x39 }
                || is_bus_error(e)),
            exists|answers: Seq<Seq<u8>>|
                #[trigger] exchanged(
                    old(self).log(),
                    final(self).log(),
                    old(self).address_spec(),
                    two_regs(0x01u8, 0x39u8),
                    answers,
                    Seq::empty(),
                    finished(r),
                ) && (r matches Ok(v) ==> (divider_of_code(field(values(answers)[1], 0, 3) as int) matches Some(d)
                    && v == time_of_ticks(field(values(answers)[0], 0, 16) as int, d, old(self).clock_hz() as int)))
                && ((r matches Err(e) && !is_bus_error(e)) ==> divider_of_code(field(values(answers)[1], 0, 3) as int) is None),
    {
        self.get_boundary(0x01)
    }

    /// Sets the end of the sampling phase of LED2 alone, in nanoseconds, on the grid of the divided clock.
    pub fn set_led2_sample_end(&mut self, timing: i64) -> (r: Result<i64, AfeError<B::Error>>)
        requires
            old(self).clock_hz() > 0,
        ensures
            final(self).same_device(old(self)),
            r matches Err(e) ==> (e == AfeError::<B::Error>::InvalidRegisterValue { reg_addr: 0x39 }
                || is_bus_error(e)),
            exists|answers: Seq<Seq<u8>>|
                #[trigger] exchanged(
                    old(self).log(),
                    final(self).log(),
                    old(self).address_spec(),
                    one_reg(0x39u8),
                    answers,
                    boundary_writes(0x02u8, values(answers)[0], timing as int, old(self).clock_hz() as int),
                    finished(r),
                ) && (r matches Ok(v) ==> (divider_of_code(field(values(answers)[0], 0, 3) as int) matches Some(d)
                    && v == time_of_ticks(boundary_code(timing as int, d, old(self).clock_hz() as int), d, old(self).clock_hz() as int)))
                && ((r matches Err(e) && !is_bus_error(e)) ==> divider_of_code(field(values(answers)[0], 0, 3) as int) is None),
    {
        self.set_boundary(0x02, timing)
    }

    /// Gets the end of the sampling phase of LED2, in nanoseconds.
    pub fn get_led2_sample_end(&mut self) -> (r: Result<i64, AfeError<B::Error>>)
        requires
            old(self).clock_hz() > 0,
        ensures
            final(self).same_device(old(self)),
            r matches Err(e) ==> (e == AfeError::<B::Error>::InvalidRegisterValue { reg_addr: 0x39 }
                || is_bus_error(e)),
            exists|answers: Seq<Seq<u8>>|
                #[trigger] exchanged(
                    old(self).log(),
                    final(self).log(),
                    old(self).address_spec(),
                    two_regs(0x02u8, 0x39u8),
                    answers,
                    Seq::empty(),
                    finished(r),
                ) && (r matches Ok(v) ==> (divider_of_code(field(values(answers)[1], 0, 3) as int) matches Some(d)
                    && v == time_of_ticks(field(values(answers)[0], 0, 16) as int, d, old(self).clock_hz() as int)))
                && ((r matches Err(e) && !is_bus_error(e)) ==> divider_of_code(field(values(answers)[1], 0, 3) as int) is None),
    {
        self.get_boundary(0x02)
    }

    /// Sets the start of the ADC reset phase of LED2 alone, in nanoseconds, on the grid of the divided clock.
    pub fn set_led2_reset_st(&mut self, timing: i64) -> (r: Result<i64, AfeError<B::Error>>)
        requires
            old(self).clock_hz() > 0,
        ensures
            final(self).same_device(old(self)),
            r matches Err(e) ==> (e == AfeError::<B::Error>::InvalidRegisterValue { reg_addr: 0x39 }
                || is_bus_error(e)),
            exists|answers: Seq<Seq<u8>>|
                #[trigger] exchanged(
                    old(self).log(),
                    final(self).log(),
                    old(self).address_spec(),
                    one_reg(0x39u8),
                    answers,
                    boundary_writes(0x15u8, values(answers)[0], timing as int, old(self).clock_hz() as int),
                    finished(r),
                ) && (r matches Ok(v) ==> (divider_of_code(field(values(answers)[0], 0, 3) as int) matches Some(d)
                    && v == time_of_ticks(boundary_code(timing as int, d, old(self).clock_hz() as int), d, old(self).clock_hz() as int)))
                && ((r matches Err(e) && !is_bus_error(e)) ==> divider_of_code(field(values(answers)[0], 0, 3) as int) is None),
    {
        self.set_boundary(0x15, timing)
    }

    /// Gets the start of the ADC reset phase of LED2, in nanoseconds.
    pub fn get_led2_reset_st(&mut self) -> (r: Result<i64, AfeError<B::Error>>)
        requires
            old(self).clock_hz() > 0,
        ensures
            final(self).same_device(old(self)),
            r matches Err(e) ==> (e == AfeError::<B::Error>::InvalidRegisterValue { reg_addr: 0x39 }
                || is_bus_error(e)),
            exists|answers: Seq<Seq<u8>>|
                #[trigger] exchanged(
                    old(self).log(),
                    final(self).log(),
                    old(self).address_spec(),
                    two_regs(0x15u8, 0x39u8),
                    answers,
                    Seq::empty(),
                    finished(r),
                ) && (r matches Ok(v) ==> (divider_of_code(field(values(answers)[1], 0, 3) as int) matches Some(d)
                    && v == time_of_ticks(field(values(answers)[0], 0, 16) as int, d, old(self).clock_hz() as int)))
                && ((r matches Err(e) && !is_bus_error(e)) ==> divider_of_code(field(values(answers)[1], 0, 3) as int) is None),
    {
        self.get_boundary(0x15)
    }

    /// Sets the end of the ADC reset phase of LED2 alone, in nanoseconds, on the grid of the divided clock.
    pub fn set_led2_reset_end(&mut self, timing: i64) -> (r: Result<i64, AfeError<B::Error>>)
        requires
            old(self).clock_hz() > 0,
        ensures
            final(self).same_device(old(self)),
            r matches Err(e) ==> (e == AfeError::<B::Error>::InvalidRegisterValue { reg_addr: 0x39 }
                || is_bus_error(e)),
            exists|answers: Seq<Seq<u8>>|
                #[trigger] exchanged(
                    old(self).log(),
                    final(self).log(),
                    old(self).address_spec(),
                    one_reg(0x39u8),
                    answers,
                    boundary_writes(0x16u8, values(answers)[0], timing as int, old(self).clock_hz() as int),
                    finished(r),
                ) && (r matches Ok(v) ==> (divider_of_code(field(values(answers)[0], 0, 3) as int) matches Some(d)
                    && v == time_of_ticks(boundary_code(timing as int, d, old(self).clock_hz() as int), d, old(self).clock_hz() as int)))
                && ((r matches Err(e) && !is_bus_error(e)) ==> divider_of_code(field(values(answers)[0], 0, 3) as int) is None),
    {
        self.set_boundary(0x16, timing)
    }

    /// Gets the end of the ADC reset phase of LED2, in nanoseconds.
    pub fn get_led2_reset_end(&mut self) -> (r: Result<i64, AfeError<B::Error>>)
        requires
            old(self).clock_hz() > 0,
        ensures
            final(self).same_device(old(self)),
            r matches Err(e) ==> (e == AfeError::<B::Error>::InvalidRegisterValue { reg_addr: 0x39 }
                || is_bus_error(e)),
            exists|answers: Seq<Seq<u8>>|
                #[trigger] exchanged(
                    old(self).log(),
                    final(self).log(),
                    old(self).address_spec(),
                    two_regs(0x16u8, 0x39u8),
                    answers,
                    Seq::empty(),
                    finished(r),
                ) && (r matches Ok(v) ==> (divider_of_code(field(values(answers)[1], 0, 3) as int) matches Some(d)
                    && v == time_of_ticks(field(values(answers)[0], 0, 16) as int, d, old(self).clock_hz() as int)))
                && ((r matches Err(e) && !is_bus_error(e)) ==> divider_of_code(field(values(answers)[1], 0, 3) as int) is None),
    {
        self.get_boundary(0x16)
    }

    /// Sets the start of the conversion phase of LED2 alone, in nanoseconds, on the grid of the divided clock.
    pub fn set_led2_conv_st(&mut self, timing: i64) -> (r: Result<i64, AfeError<B::Error>>)
        requires
            old(self).clock_hz() > 0,
        ensures
            final(self).same_device(old(self)),
            r matches Err(e) ==> (e == AfeError::<B::Error>::InvalidRegisterValue { reg_addr: 0x39 }
                || is_bus_error(e)),
            exists|answers: Seq<Seq<u8>>|
                #[trigger] exchanged(
                    old(self).log(),
                    final(self).log(),
                    old(self).address_spec(),
                    one_reg(0x39u8),
                    answers,
                    boundary_writes(0x0Du8, values(answers)[0], timing as int, old(self).clock_hz() as int),
                    finished(r),
                ) && (r matches Ok(v) ==> (divider_of_code(field(values(answers)[0], 0, 3) as int) matches Some(d)
                    && v == time_of_ticks(boundary_code(timing as int, d, old(self).clock_hz() as int), d, old(self).clock_hz() as int)))
                && ((r matches Err(e) && !is_bus_error(e)) ==> divider_of_code(field(values(answers)[0], 0, 3) as int) is None),
    {
        self.set_boundary(0x0D, timing)
    }

    /// Gets the start of the conversion phase of LED2, in nanoseconds.
    pub fn get_led2_conv_st(&mut self) -> (r: Result<i64, AfeError<B::Error>>)
        requires
            old(self).clock_hz() > 0,
        ensures
            final(self).same_device(old(self)),
            r matches Err(e) ==> (e == AfeError::<B::Error>::InvalidRegisterValue { reg_addr: 0x39 }
                || is_bus_error(e)),
            exists|answers: Seq<Seq<u8>>|
                #[trigger] exchanged(
                    old(self).log(),
                    final(self).log(),
                    old(self).address_spec(),
                    two_regs(0x0Du8, 0x39u8),
                    answers,
                    Seq::empty(),
                    finished(r),
                ) && (r matches Ok(v) ==> (divider_of_code(field(values(answers)[1], 0, 3) as int) matches Some(d)
                    && v == time_of_ticks(field(values(answers)[0], 0, 16) as int, d, old(self).clock_hz() as int)))
                && ((r matches Err(e) && !is_bus_error(e)) ==> divider_of_code(field(values(answers)[1], 0, 3) as int) is None),
    {
        self.get_boundary(0x0D)
    }

    /// Sets the end of the conversion phase of LED2 alone, in nanoseconds, on the grid of the divided clock.
    pub fn set_led2_conv_end(&mut self, timing: i64) -> (r: Result<i64, AfeError<B::Error>>)
        requires
            old(self).clock_hz() > 0,
        ensures
            final(self).same_device(old(self)),
            r matches Err(e) ==> (e == AfeError::<B::Error>::InvalidRegisterValue { reg_addr: 0x39 }
                || is_bus_error(e)),
            exists|answers: Seq<Seq<u8>>|
                #[trigger] exchanged(
                    old(self).log(),
                    final(self).log(),
                    old(self).address_spec(),
                    one_reg(0x39u8),
                    answers,
                    boundary_writes(0x0Eu8, values(answers)[0], timing as int, old(self).clock_hz() as int),
                    finished(r),
                ) && (r matches Ok(v) ==> (divider_of_code(field(values(answers)[0], 0, 3) as int) matches Some(d)
                    && v == time_of_ticks(boundary_code(timing as int, d, old(self).clock_hz() as int), d, old(self).clock_hz() as int)))
                && ((r matches Err(e) && !is_bus_error(e)) ==> divider_of_code(field(values(answers)[0], 0, 3) as int) is None),
    {
        self.set_boundary(0x0E, timing)
    }

    /// Gets the end of the conversion phase of LED2, in nanoseconds.
    pub fn get_led2_conv_end(&mut self) -> (r: Result<i64, AfeError<B::Error>>)
        requires
            old(self).clock_hz() > 0,
        ensures
            final(self).same_device(old(self)),
            r matches Err(e) ==> (e == AfeError::<B::Error>::InvalidRegisterValue { reg_addr: 0x39 }
                || is_bus_error(e)),
            exists|answers: Seq<Seq<u8>>|
                #[trigger] exchanged(
                    old(self).log(),
                    final(self).log(),
                    old(self).address_spec(),
                    two_regs(0x0Eu8, 0x39u8),
                    answers,
                    Seq::empty(),
                    finished(r),
                ) && (r matches Ok(v) ==> (divider_of_code(field(values(answers)[1], 0, 3) as int) matches Some(d)
                    && v == time_of_ticks(field(values(answers)[0], 0, 16) as int, d, old(self).clock_hz() as int)))
                && ((r matches Err(e) && !is_bus_error(e)) ==> divider_of_code(field(values(answers)[1], 0, 3) as int) is None),
    {
        self.get_boundary(0x0E)
    }

    /// Sets the start of the dynamic power-down phase alone, in nanoseconds, on the grid of the divided clock.
    pub fn set_dynamic_power_down_st(&mut self, timing: i64) -> (r: Result<i64, AfeError<B::Error>>)
        requires
            old(self).clock_hz() > 0,
        ensures
            final(self).same_device(old(self)),
            r matches Err(e) ==> (e == AfeError::<B::Error>::InvalidRegisterValue { reg_addr: 0x39 }
                || is_bus_error(e)),
            exists|answers: Seq<Seq<u8>>|
                #[trigger] exchanged(
                    old(self).log(),
                    final(self).log(),
                    old(self).address_spec(),
                    one_reg(0x39u8),
                    answers,
                    boundary_writes(0x32u8, values(answers)[0], timing as int, old(self).clock_hz() as int),
                    finished(r),
                ) && (r matches Ok(v) ==> (divider_of_code(field(values(answers)[0], 0, 3) as int) matches Some(d)
                    && v == time_of_ticks(boundary_code(timing as int, d, old(self).clock_hz() as int), d, old(self).clock_hz() as int)))
                && ((r matches Err(e) && !is_bus_error(e)) ==> divider_of_code(field(values(answers)[0], 0, 3) as int) is None),
    {
        self.set_boundary(0x32, timing)
    }

    /// Gets the start of the dynamic power-down phase, in nanoseconds.
    pub fn get_dynamic_power_down_st(&mut self) -> (r: Result<i64, AfeError<B::Error>>)
        requires
            old(self).clock_hz() > 0,
        ensures
            final(self).same_device(old(self)),
            r matches Err(e) ==> (e == AfeError::<B::Error>::InvalidRegisterValue { reg_addr: 0x39 }
                || is_bus_error(e)),
            exists|answers: Seq<Seq<u8>>|
                #[trigger] exchanged(
                    old(self).log(),
                    final(self).log(),
                    old(self).address_spec(),
                    two_regs(0x32u8, 0x39u8),
                    answers,
                    Seq::empty(),
                    finished(r),
                ) && (r matches Ok(v) ==> (divider_of_code(field(values(answers)[1], 0, 3) as int) matches Some(d)
                    && v == time_of_ticks(field(values(answers)[0], 0, 16) as int, d, old(self).clock_hz() as int)))
                && ((r matches Err(e) && !is_bus_error(e)) ==> divider_of_code(field(values(answers)[1], 0, 3) as int) is None),
    {
        self.get_boundary(0x32)
    }

    /// Sets the end of the dynamic power-down phase alone, in nanoseconds, on the grid of the divided clock.
    pub fn set_dynamic_power_down_end(&mut self, timing: i64) -> (r: Result<i64, AfeError<B::Error>>)
        requires
            old(self).clock_hz() > 0,
        ensures
            final(self).same_device(old(self)),
            r matches Err(e) ==> (e == AfeError::<B::Error>::InvalidRegisterValue { reg_addr: 0x39 }
                || is_bus_error(e)),
            exists|answers: Seq<Seq<u8>>|
                #[trigger] exchanged(
                    old(self).log(),
                    final(self).log(),
                    old(self).address_spec(),
                    one_reg(0x39u8),
                    answers,
                    boundary_writes(0x33u8, values(answers)[0], timing as int, old(self).clock_hz() as int),
                    finished(r),
                ) && (r matches Ok(v) ==> (divider_of_code(field(values(answers)[0], 0, 3) as int) matches Some(d)
                    && v == time_of_ticks(boundary_code(timing as int, d, old(self).clock_hz() as int), d, old(self).clock_hz() as int)))
                && ((r matches Err(e) && !is_bus_error(e)) ==> divider_of_code(field(values(answers)[0], 0, 3) as int) is None),
    {
        self.set_boundary(0x33, timing)
    }

    /// Gets the end of the dynamic power-down phase, in nanoseconds.
    pub fn get_dynamic_power_down_end(&mut self) -> (r: Result<i64, AfeError<B::Error>>)
        requires
            old(self).clock_hz() > 0,
        ensures
            final(self).same_device(old(self)),
            r matches Err(e) ==> (e == AfeError::<B::Error>::InvalidRegisterValue { reg_addr: 0x39 }
                || is_bus_error(e)),
            exists|answers: Seq<Seq<u8>>|
                #[trigger] exchanged(
                    old(self).log(),
                    final(self).log(),
                    old(self).address_spec(),
                    two_regs(0x33u8, 0x39u8),
                    answers,
                    Seq::empty(),
                    finished(r),
                ) && (r matches Ok(v) ==> (divider_of_code(field(values(answers)[1], 0, 3) as int) matches Some(d)
                    && v == time_of_ticks(field(values(answers)[0], 0, 16) as int, d, old(self).clock_hz() as int)))
                && ((r matches Err(e) && !is_bus_error(e)) ==> divider_of_code(field(values(answers)[1], 0, 3) as int) is None),
    {
        self.get_boundary(0x33)
    }
}

impl<B: I2cBus> AFE4404<B, ThreeLedsMode> {
    /// Sets the start of the LED-on phase of LED3 alone, in nanoseconds, on the grid of the divided clock.
    pub fn set_led3_lighting_st(&mut self, timing: i64) -> (r: Result<i64, AfeError<B::Error>>)
        requires
            old(self).clock_hz() > 0,
        ensures
            final(self).same_device(old(self)),
            r matches Err(e) ==> (e == AfeError::<B::Error>::InvalidRegisterValue { reg_addr: 0x39 }
                || is_bus_error(e)),
            exists|answers: Seq<Seq<u8>>|
                #[trigger] exchanged(
                    old(self).log(),
                    final(self).log(),
                    old(self).address_spec(),
                    one_reg(0x39u8),
                    answers,
                    boundary_writes(0x36u8, values(answers)[0], timing as int, old(self).clock_hz() as int),
                    finished(r),
                ) && (r matches Ok(v) ==> (divider_of_code(field(values(answers)[0], 0, 3) as int) matches Some(d)
                    && v == time_of_ticks(boundary_code(timing as int, d, old(self).clock_hz() as int), d, old(self).clock_hz() as int)))
                && ((r matches Err(e) && !is_bus_error(e)) ==> divider_of_code(field(values(answers)[0], 0, 3) as int) is None),
    {
        self.set_boundary(0x36, timing)
    }

    /// Gets the start of the LED-on phase of LED3, in nanoseconds.
    pub fn get_led3_lighting_st(&mut self) -> (r: Result<i64, AfeError<B::Error>>)
        requires
            old(self).clock_hz() > 0,
        ensures
            final(self).same_device(old(self)),
            r matches Err(e) ==> (e == AfeError::<B::Error>::InvalidRegisterValue { reg_addr: 0x39 }
                || is_bus_error(e)),
            exists|answers: Seq<Seq<u8>>|
                #[trigger] exchanged(
                    old(self).log(),
                    final(self).log(),
                    old(self).address_spec(),
                    two_regs(0x36u8, 0x39u8),
                    answers,
                    Seq::empty(),
                    finished(r),
                ) && (r matches Ok(v) ==> (divider_of_code(field(values(answers)[1], 0, 3) as int) matches Some(d)
                    && v == time_of_ticks(field(values(answers)[0], 0, 16) as int, d, old(self).clock_hz() as int)))
                && ((r matches Err(e) && !is_bus_error(e)) ==> divider_of_code(field(values(answers)[1], 0, 3) as int) is None),
    {
        self.get_boundary(0x36)
    }

    /// Sets the end of the LED-on phase of LED3 alone, in nanoseconds, on the grid of the divided clock.
    pub fn set_led3_lighting_end(&mut self, timing: i64) -> (r: Result<i64, AfeError<B::Error>>)
        requires
            old(self).clock_hz() > 0,
        ensures
            final(self).same_device(old(self)),
            r matches Err(e) ==> (e == AfeError::<B::Error>::InvalidRegisterValue { reg_addr: 0x39 }
                || is_bus_error(e)),
            exists|answers: Seq<Seq<u8>>|
                #[trigger] exchanged(
                    old(self).log(),
                    final(self).log(),
                    old(self).address_spec(),
                    one_reg(0x39u8),
                    answers,
                    boundary_writes(0x37u8, values(answers)[0], timing as int, old(self).clock_hz() as int),
                    finished(r),
                ) && (r matches Ok(v) ==> (divider_of_code(field(values(answers)[0], 0, 3) as int) matches Some(d)
                    && v == time_of_ticks(boundary_code(timing as int, d, old(self).clock_hz() as int), d, old(self).clock_hz() as int)))
                && ((r matches Err(e) && !is_bus_error(e)) ==> divider_of_code(field(values(answers)[0], 0, 3) as int) is None),
    {
        self.set_boundary(0x37, timing)
    }

    /// Gets the end of the LED-on phase of LED3, in nanoseconds.
    pub fn get_led3_lighting_end(&mut self) -> (r: Result<i64, AfeError<B::Error>>)
        requires
            old(self).clock_hz() > 0,
        ensures
            final(self).same_device(old(self)),
            r matches Err(e) ==> (e == AfeError::<B::Error>::InvalidRegisterValue { reg_addr: 0x39 }
                || is_bus_error(e)),
            exists|answers: Seq<Seq<u8>>|
                #[trigger] exchanged(
                    old(self).log(),
                    final(self).log(),
                    old(self).address_spec(),
                    two_regs(0x37u8, 0x39u8),
                    answers,
                    Seq::empty(),
                    finished(r),
                ) && (r matches Ok(v) ==> (divider_of_code(field(values(answers)[1], 0, 3) as int) matches Some(d)
                    && v == time_of_ticks(field(values(answers)[0], 0, 16) as int, d, old(self).clock_hz() as int)))
                && ((r matches Err(e) && !is_bus_error(e)) ==> divider_of_code(field(values(answers)[1], 0, 3) as int) is None),
    {
        self.get_boundary(0x37)
    }

    /// Sets the start of the sampling phase of LED3 alone, in nanoseconds, on the grid of the divided clock.
    pub fn set_led3_sample_st(&mut self, timing: i64) -> (r: Result<i64, AfeError<B::Error>>)
        requires
            old(self).clock_hz() > 0,
        ensures
            final(self).same_device(old(self)),
            r matches Err(e) ==> (e == AfeError::<B::Error>::InvalidRegisterValue { reg_addr: 0x39 }
                || is_bus_error(e)),
            exists|answers: Seq<Seq<u8>>|
                #[trigger] exchanged(
                    old(self).log(),
                    final(self).log(),
                    old(self).address_spec(),
                    one_reg(0x39u8),
                    answers,
                    boundary_writes(0x05u8, values(answers)[0], timing as int, old(self).clock_hz() as int),
                    finished(r),
                ) && (r matches Ok(v) ==> (divider_of_code(field(values(answers)[0], 0, 3) as int) matches Some(d)
                    && v == time_of_ticks(boundary_code(timing as int, d, old(self).clock_hz() as int), d, old(self).clock_hz() as int)))
                && ((r matches Err(e) && !is_bus_error(e)) ==> divider_of_code(field(values(answers)[0], 0, 3) as int) is None),
    {
        self.set_boundary(0x05, timing)
    }

    /// Gets the start of the sampling phase of LED3, in nanoseconds.
    pub fn get_led3_sample_st(&mut self) -> (r: Result<i64, AfeError<B::Error>>)
        requires
            old(self).clock_hz() > 0,
        ensures
            final(self).same_device(old(self)),
            r matches Err(e) ==> (e == AfeError::<B::Error>::InvalidRegisterValue { reg_addr: 0x39 }
                || is_bus_error(e)),
            exists|answers: Seq<Seq<u8>>|
                #[trigger] exchanged(
                    old(self).log(),
                    final(self).log(),
                    old(self).address_spec(),
                    two_regs(0x05u8, 0x39u8),
                    answers,
                    Seq::empty(),
                    finished(r),
                ) && (r matches Ok(v) ==> (divider_of_code(field(values(answers)[1], 0, 3) as int) matches Some(d)
                    && v == time_of_ticks(field(values(answers)[0], 0, 16) as int, d, old(self).clock_hz() as int)))
                && ((r matches Err(e) && !is_bus_error(e)) ==> divider_of_code(field(values(answers)[1], 0, 3) as int) is None),
    {
        self.get_boundary(0x05)
    }

    /// Sets the end of the sampling phase of LED3 alone, in nanoseconds, on the grid of the divided clock.
    pub fn set_led3_sample_end(&mut self, timing: i64) -> (r: Result<i64, AfeError<B::Error>>)
        requires
            old(self).clock_hz() > 0,
        ensures
            final(self).same_device(old(self)),
            r matches Err(e) ==> (e == AfeError::<B::Error>::InvalidRegisterValue { reg_addr: 0x39 }
                || is_bus_error(e)),
            exists|answers: Seq<Seq<u8>>|
                #[trigger] exchanged(
                    old(self).log(),
                    final(self).log(),
                    old(self).address_spec(),
                    one_reg(0x39u8),
                    answers,
                    boundary_writes(0x06u8, values(answers)[0], timing as int, old(self).clock_hz() as int),
                    finished(r),
                ) && (r matches Ok(v) ==> (divider_of_code(field(values(answers)[0], 0, 3) as int) matches Some(d)
                    && v == time_of_ticks(boundary_code(timing as int, d, old(self).clock_hz() as int), d, old(self).clock_hz() as int)))
                && ((r matches Err(e) && !is_bus_error(e)) ==> divider_of_code(field(values(answers)[0], 0, 3) as int) is None),
    {
        self.set_boundary(0x06, timing)
    }

    /// Gets the end of the sampling phase of LED3, in nanoseconds.
    pub fn get_led3_sample_end(&mut self) -> (r: Result<i64, AfeError<B::Error>>)
        requires
            old(self).clock_hz() > 0,
        ensures
            final(self).same_device(old(self)),
            r matches Err(e) ==> (e == AfeError::<B::Error>::InvalidRegisterValue { reg_addr: 0x39 }
                || is_bus_error(e)),
            exists|answers: Seq<Seq<u8>>|
                #[trigger] exchanged(
                    old(self).log(),
                    final(self).log(),
                    old(self).address_spec(),
                    two_regs(0x06u8, 0x39u8),
                    answers,
                    Seq::empty(),
                    finished(r),
                ) && (r matches Ok(v) ==> (divider_of_code(field(values(answers)[1], 0, 3) as int) matches Some(d)
                    && v == time_of_ticks(field(values(answers)[0], 0, 16) as int, d, old(self).clock_hz() as int)))
                && ((r matches Err(e) && !is_bus_error(e)) ==> divider_of_code(field(values(answers)[1], 0, 3) as int) is None),
    {
        self.get_boundary(0x06)
    }

    /// Sets the start of the ADC reset phase of LED3 alone, in nanoseconds, on the grid of the divided clock.
    pub fn set_led3_reset_st(&mut self, timing: i64) -> (r: Result<i64, AfeError<B::Error>>)
        requires
            old(self).clock_hz() > 0,
        ensures
            final(self).same_device(old(self)),
            r matches Err(e) ==> (e == AfeError::<B::Error>::InvalidRegisterValue { reg_addr: 0x39 }
                || is_bus_error(e)),
            exists|answers: Seq<Seq<u8>>|
                #[trigger] exchanged(
                    old(self).log(),
                    final(self).log(),
                    old(self).address_spec(),
                    one_reg(0x39u8),
                    answers,
                    boundary_writes(0x17u8, values(answers)[0], timing as int, old(self).clock_hz() as int),
                    finished(r),
                ) && (r matches Ok(v) ==> (divider_of_code(field(values(answers)[0], 0, 3) as int) matches Some(d)
                    && v == time_of_ticks(boundary_code(timing as int, d, old(self).clock_hz() as int), d, old(self).clock_hz() as int)))
                && ((r matches Err(e) && !is_bus_error(e)) ==> divider_of_code(field(values(answers)[0], 0, 3) as int) is None),
    {
        self.set_boundary(0x17, timing)
    }

    /// Gets the start of the ADC reset phase of LED3, in nanoseconds.
    pub fn get_led3_reset_st(&mut self) -> (r: Result<i64, AfeError<B::Error>>)
        requires
            old(self).clock_hz() > 0,
        ensures
            final(self).same_device(old(self)),
            r matches Err(e) ==> (e == AfeError::<B::Error>::InvalidRegisterValue { reg_addr: 0x39 }
                || is_bus_error(e)),
            exists|answers: Seq<Seq<u8>>|
                #[trigger] exchanged(
                    old(self).log(),
                    final(self).log(),
                    old(self).address_spec(),
                    two_regs(0x17u8, 0x39u8),
                    answers,
                    Seq::empty(),
                    finished(r),
                ) && (r matches Ok(v) ==> (divider_of_code(field(values(answers)[1], 0, 3) as int) matches Some(d)
                    && v == time_of_ticks(field(values(answers)[0], 0, 16) as int, d, old(self).clock_hz() as int)))
                && ((r matches Err(e) && !is_bus_error(e)) ==> divider_of_code(field(values(answers)[1], 0, 3) as int) is None),
    {
        self.get_boundary(0x17)
    }

    /// Sets the end of the ADC reset phase of LED3 alone, in nanoseconds, on the grid of the divided clock.
    pub fn set_led3_reset_end(&mut self, timing: i64) -> (r: Result<i64, AfeError<B::Error>>)
        requires
            old(self).clock_hz() > 0,
        ensures
            final(self).same_device(old(self)),
            r matches Err(e) ==> (e == AfeError::<B::Error>::InvalidRegisterValue { reg_addr: 0x39 }
                || is_bus_error(e)),
            exists|answers: Seq<Seq<u8>>|
                #[trigger] exchanged(
                    old(self).log(),
                    final(self).log(),
                    old(self).address_spec(),
                    one_reg(0x39u8),
                    answers,
                    boundary_writes(0x18u8, values(answers)[0], timing as int, old(self).clock_hz() as int),
                    finished(r),
                ) && (r matches Ok(v) ==> (divider_of_code(field(values(answers)[0], 0, 3) as int) matches Some(d)
                    && v == time_of_ticks(boundary_code(timing as int, d, old(self).clock_hz() as int), d, old(self).clock_hz() as int)))
                && ((r matches Err(e) && !is_bus_error(e)) ==> divider_of_code(field(values(answers)[0], 0, 3) as int) is None),
    {
        self.set_boundary(0x18, timing)
    }

    /// Gets the end of the ADC reset phase of LED3, in nanoseconds.
    pub fn get_led3_reset_end(&mut self) -> (r: Result<i64, AfeError<B::Error>>)
        requires
            old(self).clock_hz() > 0,
        ensures
            final(self).same_device(old(self)),
            r matches Err(e) ==> (e == AfeError::<B::Error>::InvalidRegisterValue { reg_addr: 0x39 }
                || is_bus_error(e)),
            exists|answers: Seq<Seq<u8>>|
                #[trigger] exchanged(
                    old(self).log(),
                    final(self).log(),
                    old(self).address_spec(),
                    two_regs(0x18u8, 0x39u8),
                    answers,
                    Seq::empty(),
                    finished(r),
                ) && (r matches Ok(v) ==> (divider_of_code(field(values(answers)[1], 0, 3) as int) matches Some(d)
                    && v == time_of_ticks(field(values(answers)[0], 0, 16) as int, d, old(self).clock_hz() as int)))
                && ((r matches Err(e) && !is_bus_error(e)) ==> divider_of_code(field(values(answers)[1], 0, 3) as int) is None),
    {
        self.get_boundary(0x18)
    }

    /// Sets the start of the conversion phase of LED3 alone, in nanoseconds, on the grid of the divided clock.
    pub fn set_led3_conv_st(&mut self, timing: i64) -> (r: Result<i64, AfeError<B::Error>>)
        requires
            old(self).clock_hz() > 0,
        ensures
            final(self).same_device(old(self)),
            r matches Err(e) ==> (e == AfeError::<B::Error>::InvalidRegisterValue { reg_addr: 0x39 }
                || is_bus_error(e)),
            exists|answers: Seq<Seq<u8>>|
                #[trigger] exchanged(
                    old(self).log(),
                    final(self).log(),
                    old(self).address_spec(),
                    one_reg(0x39u8),
                    answers,
                    boundary_writes(0x0Fu8, values(answers)[0], timing as int, old(self).clock_hz() as int),
                    finished(r),
                ) && (r matches Ok(v) ==> (divider_of_code(field(values(answers)[0], 0, 3) as int) matches Some(d)
                    && v == time_of_ticks(boundary_code(timing as int, d, old(self).clock_hz() as int), d, old(self).clock_hz() as int)))
                && ((r matches Err(e) && !is_bus_error(e)) ==> divider_of_code(field(values(answers)[0], 0, 3) as int) is None),
    {
        self.set_boundary(0x0F, timing)
    }

    /// Gets the start of the conversion phase of LED3, in nanoseconds.
    pub fn get_led3_conv_st(&mut self) -> (r: Result<i64, AfeError<B::Error>>)
        requires
            old(self).clock_hz() > 0,
        ensures
            final(self).same_device(old(self)),
            r matches Err(e) ==> (e == AfeError::<B::Error>::InvalidRegisterValue { reg_addr: 0x39 }
                || is_bus_error(e)),
            exists|answers: Seq<Seq<u8>>|
                #[trigger] exchanged(
                    old(self).log(),
                    final(self).log(),
                    old(self).address_spec(),
                    two_regs(0x0Fu8, 0x39u8),
                    answers,
                    Seq::empty(),
                    finished(r),
                ) && (r matches Ok(v) ==> (divider_of_code(field(values(answers)[1], 0, 3) as int) matches Some(d)
                    && v == time_of_ticks(field(values(answers)[0], 0, 16) as int, d, old(self).clock_hz() as int)))
                && ((r matches Err(e) && !is_bus_error(e)) ==> divider_of_code(field(values(answers)[1], 0, 3) as int) is None),
    {
        self.get_boundary(0x0F)
    }

    /// Sets the end of the conversion phase of LED3 alone, in nanoseconds, on the grid of the divided clock.
    pub fn set_led3_conv_end(&mut self, timing: i64) -> (r: Result<i64, AfeError<B::Error>>)
        requires
            old(self).clock_hz() > 0,
        ensures
            final(self).same_device(old(self)),
            r matches Err(e) ==> (e == AfeError::<B::Error>::InvalidRegisterValue { reg_addr: 0x39 }
                || is_bus_error(e)),
            exists|answers: Seq<Seq<u8>>|
                #[trigger] exchanged(
                    old(self).log(),
                    final(self).log(),
                    old(self).address_spec(),
                    one_reg(0x39u8),
                    answers,
                    boundary_writes(0x10u8, values(answers)[0], timing as int, old(self).clock_hz() as int),
                    finished(r),
                ) && (r matches Ok(v) ==> (divider_of_code(field(values(answers)[0], 0, 3) as int) matches Some(d)
                    && v == time_of_ticks(boundary_code(timing as int, d, old(self).clock_hz() as int), d, old(self).clock_hz() as int)))
                && ((r matches Err(e) && !is_bus_error(e)) ==> divider_of_code(field(values(answers)[0], 0, 3) as int) is None),
    {
        self.set_boundary(0x10, timing)
    }

    /// Gets the end of the conversion phase of LED3, in nanoseconds.
    pub fn get_led3_conv_end(&mut self) -> (r: Result<i64, AfeError<B::Error>>)
        requires
            old(self).clock_hz() > 0,
        ensures
            final(self).same_device(old(self)),
            r matches Err(e) ==> (e == AfeError::<B::Error>::InvalidRegisterValue { reg_addr: 0x39 }
                || is_bus_error(e)),
            exists|answers: Seq<Seq<u8>>|
                #[trigger] exchanged(
                    old(self).log(),
                    final(self).log(),
                    old(self).address_spec(),
                    two_regs(0x10u8, 0x39u8),
                    answers,
                    Seq::empty(),
                    finished(r),
                ) && (r matches Ok(v) ==> (divider_of_code(field(values(answers)[1], 0, 3) as int) matches Some(d)
                    && v == time_of_ticks(field(values(answers)[0], 0, 16) as int, d, old(self).clock_hz() as int)))
                && ((r matches Err(e) && !is_bus_error(e)) ==> divider_of_code(field(values(answers)[1], 0, 3) as int) is None),
    {
        self.get_boundary(0x10)
    }

    /// Sets the start of the sampling phase of the ambient channel alone, in nanoseconds, on the grid of the divided clock.
    pub fn set_ambient_sample_st(&mut self, timing: i64) -> (r: Result<i64, AfeError<B::Error>>)
        requires
            old(self).clock_hz() > 0,
        ensures
            final(self).same_device(old(self)),
            r matches Err(e) ==> (e == AfeError::<B::Error>::InvalidRegisterValue { reg_addr: 0x39 }
                || is_bus_error(e)),
            exists|answers: Seq<Seq<u8>>|
                #[trigger] exchanged(
                    old(self).log(),
                    final(self).log(),
                    old(self).address_spec(),
                    one_reg(0x39u8),
                    answers,
                    boundary_writes(0x0Bu8, values(answers)[0], timing as int, old(self).clock_hz() as int),
                    finished(r),
                ) && (r matches Ok(v) ==> (divider_of_code(field(values(answers)[0], 0, 3) as int) matches Some(d)
                    && v == time_of_ticks(boundary_code(timing as int, d, old(self).clock_hz() as int), d, old(self).clock_hz() as int)))
                && ((r matches Err(e) && !is_bus_error(e)) ==> divider_of_code(field(values(answers)[0], 0, 3) as int) is None),
    {
        self.set_boundary(0x0B, timing)
    }

    /// Gets the start of the sampling phase of the ambient channel, in nanoseconds.
    pub fn get_ambient_sample_st(&mut self) -> (r: Result<i64, AfeError<B::Error>>)
        requires
            old(self).clock_hz() > 0,
        ensures
            final(self).same_device(old(self)),
            r matches Err(e) ==> (e == AfeError::<B::Error>::InvalidRegisterValue { reg_addr: 0x39 }
                || is_bus_error(e)),
            exists|answers: Seq<Seq<u8>>|
                #[trigger] exchanged(
                    old(self).log(),
                    final(self).log(),
                    old(self).address_spec(),
                    two_regs(0x0Bu8, 0x39u8),
                    answers,
                    Seq::empty(),
                    finished(r),
                ) && (r matches Ok(v) ==> (divider_of_code(field(values(answers)[1], 0, 3) as int) matches Some(d)
                    && v == time_of_ticks(field(values(answers)[0], 0, 16) as int, d, old(self).clock_hz() as int)))
                && ((r matches Err(e) && !is_bus_error(e)) ==> divider_of_code(field(values(answers)[1], 0, 3) as int) is None),
    {
        self.get_boundary(0x0B)
    }

    /// Sets the end of the sampling phase of the ambient channel alone, in nanoseconds, on the grid of the divided clock.
    pub fn set_ambient_sample_end(&mut self, timing: i64) -> (r: Result<i64, AfeError<B::Error>>)
        requires
            old(self).clock_hz() > 0,
        ensures
            final(self).same_device(old(self)),
            r matches Err(e) ==> (e == AfeError::<B::Error>::InvalidRegisterValue { reg_addr: 0x39 }
                || is_bus_error(e)),
            exists|answers: Seq<Seq<u8>>|
                #[trigger] exchanged(
                    old(self).log(),
                    final(self).log(),
                    old(self).address_spec(),
                    one_reg(0x39u8),
                    answers,
                    boundary_writes(0x0Cu8, values(answers)[0], timing as int, old(self).clock_hz() as int),
                    finished(r),
                ) && (r matches Ok(v) ==> (divider_of_code(field(values(answers)[0], 0, 3) as int) matches Some(d)
                    && v == time_of_ticks(boundary_code(timing as int, d, old(self).clock_hz() as int), d, old(self).clock_hz() as int)))
                && ((r matches Err(e) && !is_bus_error(e)) ==> divider_of_code(field(values(answers)[0], 0, 3) as int) is None),
    {
        self.set_boundary(0x0C, timing)
    }

    /// Gets the end of the sampling phase of the ambient channel, in nanoseconds.
    pub fn get_ambient_sample_end(&mut self) -> (r: Result<i64, AfeError<B::Error>>)
        requires
            old(self).clock_hz() > 0,
        ensures
            final(self).same_device(old(self)),
            r matches Err(e) ==> (e == AfeError::<B::Error>::InvalidRegisterValue { reg_addr: 0x39 }
                || is_bus_error(e)),
            exists|answers: Seq<Seq<u8>>|
                #[trigger] exchanged(
                    old(self).log(),
                    final(self).log(),
                    old(self).address_spec(),
                    two_regs(0x0Cu8, 0x39u8),
                    answers,
                    Seq::empty(),
                    finished(r),
                ) && (r matches Ok(v) ==> (divider_of_code(field(values(answers)[1], 0, 3) as int) matches Some(d)
                    && v == time_of_ticks(field(values(answers)[0], 0, 16) as int, d, old(self).clock_hz() as int)))
                && ((r matches Err(e) && !is_bus_error(e)) ==> divider_of_code(field(values(answers)[1], 0, 3) as int) is None),
    {
        self.get_boundary(0x0C)
    }

    /// Sets the start of the ADC reset phase of the ambient channel alone, in nanoseconds, on the grid of the divided clock.
    pub fn set_ambient_reset_st(&mut self, timing: i64) -> (r: Result<i64, AfeError<B::Error>>)
        requires
            old(self).clock_hz() > 0,
        ensures
            final(self).same_device(old(self)),
            r matches Err(e) ==> (e == AfeError::<B::Error>::InvalidRegisterValue { reg_addr: 0x39 }
                || is_bus_error(e)),
            exists|answers: Seq<Seq<u8>>|
                #[trigger] exchanged(
                    old(self).log(),
                    final(self).log(),
                    old(self).address_spec(),
                    one_reg(0x39u8),
                    answers,
                    boundary_writes(0x1Bu8, values(answers)[0], timing as int, old(self).clock_hz() as int),
                    finished(r),
                ) && (r matches Ok(v) ==> (divider_of_code(field(values(answers)[0], 0, 3) as int) matches Some(d)
                    && v == time_of_ticks(boundary_code(timing as int, d, old(self).clock_hz() as int), d, old(self).clock_hz() as int)))
                && ((r matches Err(e) && !is_bus_error(e)) ==> divider_of_code(field(values(answers)[0], 0, 3) as int) is None),
    {
        self.set_boundary(0x1B, timing)
    }

    /// Gets the start of the ADC reset phase of the ambient channel, in nanoseconds.
    pub fn get_ambient_reset_st(&mut self) -> (r: Result<i64, AfeError<B::Error>>)
        requires
            old(self).clock_hz() > 0,
        ensures
            final(self).same_device(old(self)),
            r matches Err(e) ==> (e == AfeError::<B::Error>::InvalidRegisterValue { reg_addr: 0x39 }
                || is_bus_error(e)),
            exists|answers: Seq<Seq<u8>>|
                #[trigger] exchanged(
                    old(self).log(),
                    final(self).log(),
                    old(self).address_spec(),
                    two_regs(0x1Bu8, 0x39u8),
                    answers,
                    Seq::empty(),
                    finished(r),
                ) && (r matches Ok(v) ==> (divider_of_code(field(values(answers)[1], 0, 3) as int) matches Some(d)
                    && v == time_of_ticks(field(values(answers)[0], 0, 16) as int, d, old(self).clock_hz() as int)))
                && ((r matches Err(e) && !is_bus_error(e)) ==> divider_of_code(field(values(answers)[1], 0, 3) as int) is None),
    {
        self.get_boundary(0x1B)
    }

    /// Sets the end of the ADC reset phase of the ambient channel alone, in nanoseconds, on the grid of the divided clock.
    pub fn set_ambient_reset_end(&mut self, timing: i64) -> (r: Result<i64, AfeError<B::Error>>)
        requires
            old(self).clock_hz() > 0,
        ensures
            final(self).same_device(old(self)),
            r matches Err(e) ==> (e == AfeError::<B::Error>::InvalidRegisterValue { reg_addr: 0x39 }
                || is_bus_error(e)),
            exists|answers: Seq<Seq<u8>>|
                #[trigger] exchanged(
                    old(self).log(),
                    final(self).log(),
                    old(self).address_spec(),
                    one_reg(0x39u8),
                    answers,
                    boundary_writes(0x1Cu8, values(answers)[0], timing as int, old(self).clock_hz() as int),
                    finished(r),
                ) && (r matches Ok(v) ==> (divider_of_code(field(values(answers)[0], 0, 3) as int) matches Some(d)
                    && v == time_of_ticks(boundary_code(timing as int, d, old(self).clock_hz() as int), d, old(self).clock_hz() as int)))
                && ((r matches Err(e) && !is_bus_error(e)) ==> divider_of_code(field(values(answers)[0], 0, 3) as int) is None),
    {
        self.set_boundary(0x1C, timing)
    }

    /// Gets the end of the ADC reset phase of the ambient channel, in nanoseconds.
    pub fn get_ambient_reset_end(&mut self) -> (r: Result<i64, AfeError<B::Error>>)
        requires
            old(self).clock_hz() > 0,
        ensures
            final(self).same_device(old(self)),
            r matches Err(e) ==> (e == AfeError::<B::Error>::InvalidRegisterValue { reg_addr: 0x39 }
                || is_bus_error(e)),
            exists|answers: Seq<Seq<u8>>|
                #[trigger] exchanged(
                    old(self).log(),
                    final(self).log(),
                    old(self).address_spec(),
                    two_regs(0x1Cu8, 0x39u8),
                    answers,
                    Seq::empty(),
                    finished(r),
                ) && (r matches Ok(v) ==> (divider_of_code(field(values(answers)[1], 0, 3) as int) matches Some(d)
                    && v == time_of_ticks(field(values(answers)[0], 0, 16) as int, d, old(self).clock_hz() as int)))
                && ((r matches Err(e) && !is_bus_error(e)) ==> divider_of_code(field(values(answers)[1], 0, 3) as int) is None),
    {
        self.get_boundary(0x1C)
    }

    /// Sets the start of the conversion phase of the ambient channel alone, in nanoseconds, on the grid of the divided clock.
    pub fn set_ambient_conv_st(&mut self, timing: i64) -> (r: Result<i64, AfeError<B::Error>>)
        requires
            old(self).clock_hz() > 0,
        ensures
            final(self).same_device(old(self)),
            r matches Err(e) ==> (e == AfeError::<B::Error>::InvalidRegisterValue { reg_addr: 0x39 }
                || is_bus_error(e)),
            exists|answers: Seq<Seq<u8>>|
                #[trigger] exchanged(
                    old(self).log(),
                    final(self).log(),
                    old(self).address_spec(),
                    one_reg(0x39u8),
                    answers,
                    boundary_writes(0x13u8, values(answers)[0], timing as int, old(self).clock_hz() as int),
                    finished(r),
                ) && (r matches Ok(v) ==> (divider_of_code(field(values(answers)[0], 0, 3) as int) matches Some(d)
                    && v == time_of_ticks(boundary_code(timing as int, d, old(self).clock_hz() as int), d, old(self).clock_hz() as int)))
                && ((r matches Err(e) && !is_bus_error(e)) ==> divider_of_code(field(values(answers)[0], 0, 3) as int) is None),
    {
        self.set_boundary(0x13, timing)
    }

    /// Gets the start of the conversion phase of the ambient channel, in nanoseconds.
    pub fn get_ambient_conv_st(&mut self) -> (r: Result<i64, AfeError<B::Error>>)
        requires
            old(self).clock_hz() > 0,
        ensures
            final(self).same_device(old(self)),
            r matches Err(e) ==> (e == AfeError::<B::Error>::InvalidRegisterValue { reg_addr: 0x39 }
                || is_bus_error(e)),
            exists|answers: Seq<Seq<u8>>|
                #[trigger] exchanged(
                    old(self).log(),
                    final(self).log(),
                    old(self).address_spec(),
                    two_regs(0x13u8, 0x39u8),
                    answers,
                    Seq::empty(),
                    finished(r),
                ) && (r matches Ok(v) ==> (divider_of_code(field(values(answers)[1], 0, 3) as int) matches Some(d)
                    && v == time_of_ticks(field(values(answers)[0], 0, 16) as int, d, old(self).clock_hz() as int)))
                && ((r matches Err(e) && !is_bus_error(e)) ==> divider_of_code(field(values(answers)[1], 0, 3) as int) is None),
    {
        self.get_boundary(0x13)
    }

    /// Sets the end of the conversion phase of the ambient channel alone, in nanoseconds, on the grid of the divided clock.
    pub fn set_ambient_conv_end(&mut self, timing: i64) -> (r: Result<i64, AfeError<B::Error>>)
        requires
            old(self).clock_hz() > 0,
        ensures
            final(self).same_device(old(self)),
            r matches Err(e) ==> (e == AfeError::<B::Error>::InvalidRegisterValue { reg_addr: 0x39 }
                || is_bus_error(e)),
            exists|answers: Seq<Seq<u8>>|
                #[trigger] exchanged(
                    old(self).log(),
                    final(self).log(),
                    old(self).address_spec(),
                    one_reg(0x39u8),
                    answers,
                    boundary_writes(0x14u8, values(answers)[0], timing as int, old(self).clock_hz() as int),
                    finished(r),
                ) && (r matches Ok(v) ==> (divider_of_code(field(values(answers)[0], 0, 3) as int) matches Some(d)
                    && v == time_of_ticks(boundary_code(timing as int, d, old(self).clock_hz() as int), d, old(self).clock_hz() as int)))
                && ((r matches Err(e) && !is_bus_error(e)) ==> divider_of_code(field(values(answers)[0], 0, 3) as int) is None),
    {
        self.set_boundary(0x14, timing)
    }

    /// Gets the end of the conversion phase of the ambient channel, in nanoseconds.
    pub fn get_ambient_conv_end(&mut self) -> (r: Result<i64, AfeError<B::Error>>)
        requires
            old(self).clock_hz() > 0,
        ensures
            final(self).same_device(old(self)),
            r matches Err(e) ==> (e == AfeError::<B::Error>::InvalidRegisterValue { reg_addr: 0x39 }
                || is_bus_error(e)),
            exists|answers: Seq<Seq<u8>>|
                #[trigger] exchanged(
                    old(self).log(),
                    final(self).log(),
                    old(self).address_spec(),
                    two_regs(0x14u8, 0x39u8),
                    answers,
                    Seq::empty(),
                    finished(r),
                ) && (r matches Ok(v) ==> (divider_of_code(field(values(answers)[1], 0, 3) as int) matches Some(d)
                    && v == time_of_ticks(field(values(answers)[0], 0, 16) as int, d, old(self).clock_hz() as int)))
                && ((r matches Err(e) && !is_bus_error(e)) ==> divider_of_code(field(values(answers)[1], 0, 3) as int) is None),
    {
        self.get_boundary(0x14)
    }
}

impl<B: I2cBus> AFE4404<B, TwoLedsMode> {
    /// Sets the start of the sampling phase of the first ambient channel alone, in nanoseconds, on the grid of the divided clock.
    pub fn set_ambient1_sample_st(&mut self, timing: i64) -> (r: Result<i64, AfeError<B::Error>>)
        requires
            old(self).clock_hz() > 0,
        ensures
            final(self).same_device(old(self)),
            r matches Err(e) ==> (e == AfeError::<B::Error>::InvalidRegisterValue { reg_addr: 0x39 }
                || is_bus_error(e)),
            exists|answers: Seq<Seq<u8>>|
                #[trigger] exchanged(
                    old(self).log(),
                    final(self).log(),
                    old(self).address_spec(),
                    one_reg(0x39u8),
                    answers,
                    boundary_writes(0x0Bu8, values(answers)[0], timing as int, old(self).clock_hz() as int),
                    finished(r),
                ) && (r matches Ok(v) ==> (divider_of_code(field(values(answers)[0], 0, 3) as int) matches Some(d)
                    && v == time_of_ticks(boundary_code(timing as int, d, old(self).clock_hz() as int), d, old(self).clock_hz() as int)))
                && ((r matches Err(e) && !is_bus_error(e)) ==> divider_of_code(field(values(answers)[0], 0, 3) as int) is None),
    {
        self.set_boundary(0x0B, timing)
    }

    /// Gets the start of the sampling phase of the first ambient channel, in nanoseconds.
    pub fn get_ambient1_sample_st(&mut self) -> (r: Result<i64, AfeError<B::Error>>)
        requires
            old(self).clock_hz() > 0,
        ensures
            final(self).same_device(old(self)),
            r matches Err(e) ==> (e == AfeError::<B::Error>::InvalidRegisterValue { reg_addr: 0x39 }
                || is_bus_error(e)),
            exists|answers: Seq<Seq<u8>>|
                #[trigger] exchanged(
                    old(self).log(),
                    final(self).log(),
                    old(self).address_spec(),
                    two_regs(0x0Bu8, 0x39u8),
                    answers,
                    Seq::empty(),
                    finished(r),
                ) && (r matches Ok(v) ==> (divider_of_code(field(values(answers)[1], 0, 3) as int) matches Some(d)
                    && v == time_of_ticks(field(values(answers)[0], 0, 16) as int, d, old(self).clock_hz() as int)))
                && ((r matches Err(e) && !is_bus_error(e)) ==> divider_of_code(field(values(answers)[1], 0, 3) as int) is None),
    {
        self.get_boundary(0x0B)
    }

    /// Sets the end of the sampling phase of the first ambient channel alone, in nanoseconds, on the grid of the divided clock.
    pub fn set_ambient1_sample_end(&mut self, timing: i64) -> (r: Result<i64, AfeError<B::Error>>)
        requires
            old(self).clock_hz() > 0,
        ensures
            final(self).same_device(old(self)),
            r matches Err(e) ==> (e == AfeError::<B::Error>::InvalidRegisterValue { reg_addr: 0x39 }
                || is_bus_error(e)),
            exists|answers: Seq<Seq<u8>>|
                #[trigger] exchanged(
                    old(self).log(),
                    final(self).log(),
                    old(self).address_spec(),
                    one_reg(0x39u8),
                    answers,
                    boundary_writes(0x0Cu8, values(answers)[0], timing as int, old(self).clock_hz() as int),
                    finished(r),
                ) && (r matches Ok(v) ==> (divider_of_code(field(values(answers)[0], 0, 3) as int) matches Some(d)
                    && v == time_of_ticks(boundary_code(timing as int, d, old(self).clock_hz() as int), d, old(self).clock_hz() as int)))
                && ((r matches Err(e) && !is_bus_error(e)) ==> divider_of_code(field(values(answers)[0], 0, 3) as int) is None),
    {
        self.set_boundary(0x0C, timing)
    }

    /// Gets the end of the sampling phase of the first ambient channel, in nanoseconds.
    pub fn get_ambient1_sample_end(&mut self) -> (r: Result<i64, AfeError<B::Error>>)
        requires
            old(self).clock_hz() > 0,
        ensures
            final(self).same_device(old(self)),
            r matches Err(e) ==> (e == AfeError::<B::Error>::InvalidRegisterValue { reg_addr: 0x39 }
                || is_bus_error(e)),
            exists|answers: Seq<Seq<u8>>|
                #[trigger] exchanged(
                    old(self).log(),
                    final(self).log(),
                    old(self).address_spec(),
                    two_regs(0x0Cu8, 0x39u8),
                    answers,
                    Seq::empty(),
                    finished(r),
                ) && (r matches Ok(v) ==> (divider_of_code(field(values(answers)[1], 0, 3) as int) matches Some(d)
                    && v == time_of_ticks(field(values(answers)[0], 0, 16) as int, d, old(self).clock_hz() as int)))
                && ((r matches Err(e) && !is_bus_error(e)) ==> divider_of_code(field(values(answers)[1], 0, 3) as int) is None),
    {
        self.get_boundary(0x0C)
    }

    /// Sets the start of the ADC reset phase of the first ambient channel alone, in nanoseconds, on the grid of the divided clock.
    pub fn set_ambient1_reset_st(&mut self, timing: i64) -> (r: Result<i64, AfeError<B::Error>>)
        requires
            old(self).clock_hz() > 0,
        ensures
            final(self).same_device(old(self)),
            r matches Err(e) ==> (e == AfeError::<B::Error>::InvalidRegisterValue { reg_addr: 0x39 }
                || is_bus_error(e)),
            exists|answers: Seq<Seq<u8>>|
                #[trigger] exchanged(
                    old(self).log(),
                    final(self).log(),
                    old(self).address_spec(),
                    one_reg(0x39u8),
                    answers,
                    boundary_writes(0x1Bu8, values(answers)[0], timing as int, old(self).clock_hz() as int),
                    finished(r),
                ) && (r matches Ok(v) ==> (divider_of_code(field(values(answers)[0], 0, 3) as int) matches Some(d)
                    && v == time_of_ticks(boundary_code(timing as int, d, old(self).clock_hz() as int), d, old(self).clock_hz() as int)))
                && ((r matches Err(e) && !is_bus_error(e)) ==> divider_of_code(field(values(answers)[0], 0, 3) as int) is None),
    {
        self.set_boundary(0x1B, timing)
    }

    /// Gets the start of the ADC reset phase of the first ambient channel, in nanoseconds.
    pub fn get_ambient1_reset_st(&mut self) -> (r: Result<i64, AfeError<B::Error>>)
        requires
            old(self).clock_hz() > 0,
        ensures
            final(self).same_device(old(self)),
            r matches Err(e) ==> (e == AfeError::<B::Error>::InvalidRegisterValue { reg_addr: 0x39 }
                || is_bus_error(e)),
            exists|answers: Seq<Seq<u8>>|
                #[trigger] exchanged(
                    old(self).log(),
                    final(self).log(),
                    old(self).address_spec(),
                    two_regs(0x1Bu8, 0x39u8),
                    answers,
                    Seq::empty(),
                    finished(r),
                ) && (r matches Ok(v) ==> (divider_of_code(field(values(answers)[1], 0, 3) as int) matches Some(d)
                    && v == time_of_ticks(field(values(answers)[0], 0, 16) as int, d, old(self).clock_hz() as int)))
                && ((r matches Err(e) && !is_bus_error(e)) ==> divider_of_code(field(values(answers)[1], 0, 3) as int) is None),
    {
        self.get_boundary(0x1B)
    }

    /// Sets the end of the ADC reset phase of the first ambient channel alone, in nanoseconds, on the grid of the divided clock.
    pub fn set_ambient1_reset_end(&mut self, timing: i64) -> (r: Result<i64, AfeError<B::Error>>)
        requires
            old(self).clock_hz() > 0,
        ensures
            final(self).same_device(old(self)),
            r matches Err(e) ==> (e == AfeError::<B::Error>::InvalidRegisterValue { reg_addr: 0x39 }
                || is_bus_error(e)),
            exists|answers: Seq<Seq<u8>>|
                #[trigger] exchanged(
                    old(self).log(),
                    final(self).log(),
                    old(self).address_spec(),
                    one_reg(0x39u8),
                    answers,
                    boundary_writes(0x1Cu8, values(answers)[0], timing as int, old(self).clock_hz() as int),
                    finished(r),
                ) && (r matches Ok(v) ==> (divider_of_code(field(values(answers)[0], 0, 3) as int) matches Some(d)
                    && v == time_of_ticks(boundary_code(timing as int, d, old(self).clock_hz() as int), d, old(self).clock_hz() as int)))
                && ((r matches Err(e) && !is_bus_error(e)) ==> divider_of_code(field(values(answers)[0], 0, 3) as int) is None),
    {
        self.set_boundary(0x1C, timing)
    }

    /// Gets the end of the ADC reset phase of the first ambient channel, in nanoseconds.
    pub fn get_ambient1_reset_end(&mut self) -> (r: Result<i64, AfeError<B::Error>>)
        requires
            old(self).clock_hz() > 0,
        ensures
            final(self).same_device(old(self)),
            r matches Err(e) ==> (e == AfeError::<B::Error>::InvalidRegisterValue { reg_addr: 0x39 }
                || is_bus_error(e)),
            exists|answers: Seq<Seq<u8>>|
                #[trigger] exchanged(
                    old(self).log(),
                    final(self).log(),
                    old(self).address_spec(),
                    two_regs(0x1Cu8, 0x39u8),
                    answers,
                    Seq::empty(),
                    finished(r),
                ) && (r matches Ok(v) ==> (divider_of_code(field(values(answers)[1], 0, 3) as int) matches Some(d)
                    && v == time_of_ticks(field(values(answers)[0], 0, 16) as int, d, old(self).clock_hz() as int)))
                && ((r matches Err(e) && !is_bus_error(e)) ==> divider_of_code(field(values(answers)[1], 0, 3) as int) is None),
    {
        self.get_boundary(0x1C)
    }

    /// Sets the start of the conversion phase of the first ambient channel alone, in nanoseconds, on the grid of the divided clock.
    pub fn set_ambient1_conv_st(&mut self, timing: i64) -> (r: Result<i64, AfeError<B::Error>>)
        requires
            old(self).clock_hz() > 0,
        ensures
            final(self).same_device(old(self)),
            r matches Err(e) ==> (e == AfeError::<B::Error>::InvalidRegisterValue { reg_addr: 0x39 }
                || is_bus_error(e)),
            exists|answers: Seq<Seq<u8>>|
                #[trigger] exchanged(
                    old(self).log(),
                    final(self).log(),
                    old(self).address_spec(),
                    one_reg(0x39u8),
                    answers,
                    boundary_writes(0x13u8, values(answers)[0], timing as int, old(self).clock_hz() as int),
                    finished(r),
                ) && (r matches Ok(v) ==> (divider_of_code(field(values(answers)[0], 0, 3) as int) matches Some(d)
                    && v == time_of_ticks(boundary_code(timing as int, d, old(self).clock_hz() as int), d, old(self).clock_hz() as int)))
                && ((r matches Err(e) && !is_bus_error(e)) ==> divider_of_code(field(values(answers)[0], 0, 3) as int) is None),
    {
        self.set_boundary(0x13, timing)
    }

    /// Gets the start of the conversion phase of the first ambient channel, in nanoseconds.
    pub fn get_ambient1_conv_st(&mut self) -> (r: Result<i64, AfeError<B::Error>>)
        requires
            old(self).clock_hz() > 0,
        ensures
            final(self).same_device(old(self)),
            r matches Err(e) ==> (e == AfeError::<B::Error>::InvalidRegisterValue { reg_addr: 0x39 }
                || is_bus_error(e)),
            exists|answers: Seq<Seq<u8>>|
                #[trigger] exchanged(
                    old(self).log(),
                    final(self).log(),
                    old(self).address_spec(),
                    two_regs(0x13u8, 0x39u8),
                    answers,
                    Seq::empty(),
                    finished(r),
                ) && (r matches Ok(v) ==> (divider_of_code(field(values(answers)[1], 0, 3) as int) matches Some(d)
                    && v == time_of_ticks(field(values(answers)[0], 0, 16) as int, d, old(self).clock_hz() as int)))
                && ((r matches Err(e) && !is_bus_error(e)) ==> divider_of_code(field(values(answers)[1], 0, 3) as int) is None),
    {
        self.get_boundary(0x13)
    }

    /// Sets the end of the conversion phase of the first ambient channel alone, in nanoseconds, on the grid of the divided clock.
    pub fn set_ambient1_conv_end(&mut self, timing: i64) -> (r: Result<i64, AfeError<B::Error>>)
        requires
            old(self).clock_hz() > 0,
        ensures
            final(self).same_device(old(self)),
            r matches Err(e) ==> (e == AfeError::<B::Error>::InvalidRegisterValue { reg_addr: 0x39 }
                || is_bus_error(e)),
            exists|answers: Seq<Seq<u8>>|
                #[trigger] exchanged(
                    old(self).log(),
                    final(self).log(),
                    old(self).address_spec(),
                    one_reg(0x39u8),
                    answers,
                    boundary_writes(0x14u8, values(answers)[0], timing as int, old(self).clock_hz() as int),
                    finished(r),
                ) && (r matches Ok(v) ==> (divider_of_code(field(values(answers)[0], 0, 3) as int) matches Some(d)
                    && v == time_of_ticks(boundary_code(timing as int, d, old(self).clock_hz() as int), d, old(self).clock_hz() as int)))
                && ((r matches Err(e) && !is_bus_error(e)) ==> divider_of_code(field(values(answers)[0], 0, 3) as int) is None),
    {
        self.set_boundary(0x14, timing)
    }

    /// Gets the end of the conversion phase of the first ambient channel, in nanoseconds.
    pub fn get_ambient1_conv_end(&mut self) -> (r: Result<i64, AfeError<B::Error>>)
        requires
            old(self).clock_hz() > 0,
        ensures
            final(self).same_device(old(self)),
            r matches Err(e) ==> (e == AfeError::<B::Error>::InvalidRegisterValue { reg_addr: 0x39 }
                || is_bus_error(e)),
            exists|answers: Seq<Seq<u8>>|
                #[trigger] exchanged(
                    old(self).log(),
                    final(self).log(),
                    old(self).address_spec(),
                    two_regs(0x14u8, 0x39u8),
                    answers,
                    Seq::empty(),
                    finished(r),
                ) && (r matches Ok(v) ==> (divider_of_code(field(values(answers)[1], 0, 3) as int) matches Some(d)
                    && v == time_of_ticks(field(values(answers)[0], 0, 16) as int, d, old(self).clock_hz() as int)))
                && ((r matches Err(e) && !is_bus_error(e)) ==> divider_of_code(field(values(answers)[1], 0, 3) as int) is None),
    {
        self.get_boundary(0x14)
    }

    /// Sets the start of the sampling phase of the second ambient channel alone, in nanoseconds, on the grid of the divided clock.
    pub fn set_ambient2_sample_st(&mut self, timing: i64) -> (r: Result<i64, AfeError<B::Error>>)
        requires
            old(self).clock_hz() > 0,
        ensures
            final(self).same_device(old(self)),
            r matches Err(e) ==> (e == AfeError::<B::Error>::InvalidRegisterValue { reg_addr: 0x39 }
                || is_bus_error(e)),
            exists|answers: Seq<Seq<u8>>|
                #[trigger] exchanged(
                    old(self).log(),
                    final(self).log(),
                    old(self).address_spec(),
                    one_reg(0x39u8),
                    answers,
                    boundary_writes(0x05u8, values(answers)[0], timing as int, old(self).clock_hz() as int),
                    finished(r),
                ) && (r matches Ok(v) ==> (divider_of_code(field(values(answers)[0], 0, 3) as int) matches Some(d)
                    && v == time_of_ticks(boundary_code(timing as int, d, old(self).clock_hz() as int), d, old(self).clock_hz() as int)))
                && ((r matches Err(e) && !is_bus_error(e)) ==> divider_of_code(field(values(answers)[0], 0, 3) as int) is None),
    {
        self.set_boundary(0x05, timing)
    }

    /// Gets the start of the sampling phase of the second ambient channel, in nanoseconds.
    pub fn get_ambient2_sample_st(&mut self) -> (r: Result<i64, AfeError<B::Error>>)
        requires
            old(self).clock_hz() > 0,
        ensures
            final(self).same_device(old(self)),
            r matches Err(e) ==> (e == AfeError::<B::Error>::InvalidRegisterValue { reg_addr: 0x39 }
                || is_bus_error(e)),
            exists|answers: Seq<Seq<u8>>|
                #[trigger] exchanged(
                    old(self).log(),
                    final(self).log(),
                    old(self).address_spec(),
                    two_regs(0x05u8, 0x39u8),
                    answers,
                    Seq::empty(),
                    finished(r),
                ) && (r matches Ok(v) ==> (divider_of_code(field(values(answers)[1], 0, 3) as int) matches Some(d)
                    && v == time_of_ticks(field(values(answers)[0], 0, 16) as int, d, old(self).clock_hz() as int)))
                && ((r matches Err(e) && !is_bus_error(e)) ==> divider_of_code(field(values(answers)[1], 0, 3) as int) is None),
    {
        self.get_boundary(0x05)
    }

    /// Sets the end of the sampling phase of the second ambient channel alone, in nanoseconds, on the grid of the divided clock.
    pub fn set_ambient2_sample_end(&mut self, timing: i64) -> (r: Result<i64, AfeError<B::Error>>)
        requires
            old(self).clock_hz() > 0,
        ensures
            final(self).same_device(old(self)),
            r matches Err(e) ==> (e == AfeError::<B::Error>::InvalidRegisterValue { reg_addr: 0x39 }
                || is_bus_error(e)),
            exists|answers: Seq<Seq<u8>>|
                #[trigger] exchanged(
                    old(self).log(),
                    final(self).log(),
                    old(self).address_spec(),
                    one_reg(0x39u8),
                    answers,
                    boundary_writes(0x06u8, values(answers)[0], timing as int, old(self).clock_hz() as int),
                    finished(r),
                ) && (r matches Ok(v) ==> (divider_of_code(field(values(answers)[0], 0, 3) as int) matches Some(d)
                    && v == time_of_ticks(boundary_code(timing as int, d, old(self).clock_hz() as int), d, old(self).clock_hz() as int)))
                && ((r matches Err(e) && !is_bus_error(e)) ==> divider_of_code(field(values(answers)[0], 0, 3) as int) is None),
    {
        self.set_boundary(0x06, timing)
    }

    /// Gets the end of the sampling phase of the second ambient channel, in nanoseconds.
    pub fn get_ambient2_sample_end(&mut self) -> (r: Result<i64, AfeError<B::Error>>)
        requires
            old(self).clock_hz() > 0,
        ensures
            final(self).same_device(old(self)),
            r matches Err(e) ==> (e == AfeError::<B::Error>::InvalidRegisterValue { reg_addr: 0x39 }
                || is_bus_error(e)),
            exists|answers: Seq<Seq<u8>>|
                #[trigger] exchanged(
                    old(self).log(),
                    final(self).log(),
                    old(self).address_spec(),
                    two_regs(0x06u8, 0x39u8),
                    answers,
                    Seq::empty(),
                    finished(r),
                ) && (r matches Ok(v) ==> (divider_of_code(field(values(answers)[1], 0, 3) as int) matches Some(d)
                    && v == time_of_ticks(field(values(answers)[0], 0, 16) as int, d, old(self).clock_hz() as int)))
                && ((r matches Err(e) && !is_bus_error(e)) ==> divider_of_code(field(values(answers)[1], 0, 3) as int) is None),
    {
        self.get_boundary(0x06)
    }

    /// Sets the start of the ADC reset phase of the second ambient channel alone, in nanoseconds, on the grid of the divided clock.
    pub fn set_ambient2_reset_st(&mut self, timing: i64) -> (r: Result<i64, AfeError<B::Error>>)
        requires
            old(self).clock_hz() > 0,
        ensures
            final(self).same_device(old(self)),
            r matches Err(e) ==> (e == AfeError::<B::Error>::InvalidRegisterValue { reg_addr: 0x39 }
                || is_bus_error(e)),
            exists|answers: Seq<Seq<u8>>|
                #[trigger] exchanged(
                    old(self).log(),
                    final(self).log(),
                    old(self).address_spec(),
                    one_reg(0x39u8),
                    answers,
                    boundary_writes(0x17u8, values(answers)[0], timing as int, old(self).clock_hz() as int),
                    finished(r),
                ) && (r matches Ok(v) ==> (divider_of_code(field(values(answers)[0], 0, 3) as int) matches Some(d)
                    && v == time_of_ticks(boundary_code(timing as int, d, old(self).clock_hz() as int), d, old(self).clock_hz() as int)))
                && ((r matches Err(e) && !is_bus_error(e)) ==> divider_of_code(field(values(answers)[0], 0, 3) as int) is None),
    {
        self.set_boundary(0x17, timing)
    }

    /// Gets the start of the ADC reset phase of the second ambient channel, in nanoseconds.
    pub fn get_ambient2_reset_st(&mut self) -> (r: Result<i64, AfeError<B::Error>>)
        requires
            old(self).clock_hz() > 0,
        ensures
            final(self).same_device(old(self)),
            r matches Err(e) ==> (e == AfeError::<B::Error>::InvalidRegisterValue { reg_addr: 0x39 }
                || is_bus_error(e)),
            exists|answers: Seq<Seq<u8>>|
                #[trigger] exchanged(
                    old(self).log(),
                    final(self).log(),
                    old(self).address_spec(),
                    two_regs(0x17u8, 0x39u8),
                    answers,
                    Seq::empty(),
                    finished(r),
                ) && (r matches Ok(v) ==> (divider_of_code(field(values(answers)[1], 0, 3) as int) matches Some(d)
                    && v == time_of_ticks(field(values(answers)[0], 0, 16) as int, d, old(self).clock_hz() as int)))
                && ((r matches Err(e) && !is_bus_error(e)) ==> divider_of_code(field(values(answers)[1], 0, 3) as int) is None),
    {
        self.get_boundary(0x17)
    }

    /// Sets the end of the ADC reset phase of the second ambient channel alone, in nanoseconds, on the grid of the divided clock.
    pub fn set_ambient2_reset_end(&mut self, timing: i64) -> (r: Result<i64, AfeError<B::Error>>)
        requires
            old(self).clock_hz() > 0,
        ensures
            final(self).same_device(old(self)),
            r matches Err(e) ==> (e == AfeError::<B::Error>::InvalidRegisterValue { reg_addr: 0x39 }
                || is_bus_error(e)),
            exists|answers: Seq<Seq<u8>>|
                #[trigger] exchanged(
                    old(self).log(),
                    final(self).log(),
                    old(self).address_spec(),
                    one_reg(0x39u8),
                    answers,
                    boundary_writes(0x18u8, values(answers)[0], timing as int, old(self).clock_hz() as int),
                    finished(r),
                ) && (r matches Ok(v) ==> (divider_of_code(field(values(answers)[0], 0, 3) as int) matches Some(d)
                    && v == time_of_ticks(boundary_code(timing as int, d, old(self).clock_hz() as int), d, old(self).clock_hz() as int)))
                && ((r matches Err(e) && !is_bus_error(e)) ==> divider_of_code(field(values(answers)[0], 0, 3) as int) is None),
    {
        self.set_boundary(0x18, timing)
    }

    /// Gets the end of the ADC reset phase of the second ambient channel, in nanoseconds.
    pub fn get_ambient2_reset_end(&mut self) -> (r: Result<i64, AfeError<B::Error>>)
        requires
            old(self).clock_hz() > 0,
        ensures
            final(self).same_device(old(self)),
            r matches Err(e) ==> (e == AfeError::<B::Error>::InvalidRegisterValue { reg_addr: 0x39 }
                || is_bus_error(e)),
            exists|answers: Seq<Seq<u8>>|
                #[trigger] exchanged(
                    old(self).log(),
                    final(self).log(),
                    old(self).address_spec(),
                    two_regs(0x18u8, 0x39u8),
                    answers,
                    Seq::empty(),
                    finished(r),
                ) && (r matches Ok(v) ==> (divider_of_code(field(values(answers)[1], 0, 3) as int) matches Some(d)
                    && v == time_of_ticks(field(values(answers)[0], 0, 16) as int, d, old(self).clock_hz() as int)))
                && ((r matches Err(e) && !is_bus_error(e)) ==> divider_of_code(field(values(answers)[1], 0, 3) as int) is None),
    {
        self.get_boundary(0x18)
    }

    /// Sets the start of the conversion phase of the second ambient channel alone, in nanoseconds, on the grid of the divided clock.
    pub fn set_ambient2_conv_st(&mut self, timing: i64) -> (r: Result<i64, AfeError<B::Error>>)
        requires
            old(self).clock_hz() > 0,
        ensures
            final(self).same_device(old(self)),
            r matches Err(e) ==> (e == AfeError::<B::Error>::InvalidRegisterValue { reg_addr: 0x39 }
                || is_bus_error(e)),
            exists|answers: Seq<Seq<u8>>|
                #[trigger] exchanged(
                    old(self).log(),
                    final(self).log(),
                    old(self).address_spec(),
                    one_reg(0x39u8),
                    answers,
                    boundary_writes(0x0Fu8, values(answers)[0], timing as int, old(self).clock_hz() as int),
                    finished(r),
                ) && (r matches Ok(v) ==> (divider_of_code(field(values(answers)[0], 0, 3) as int) matches Some(d)
                    && v == time_of_ticks(boundary_code(timing as int, d, old(self).clock_hz() as int), d, old(self).clock_hz() as int)))
                && ((r matches Err(e) && !is_bus_error(e)) ==> divider_of_code(field(values(answers)[0], 0, 3) as int) is None),
    {
        self.set_boundary(0x0F, timing)
    }

    /// Gets the start of the conversion phase of the second ambient channel, in nanoseconds.
    pub fn get_ambient2_conv_st(&mut self) -> (r: Result<i64, AfeError<B::Error>>)
        requires
            old(self).clock_hz() > 0,
        ensures
            final(self).same_device(old(self)),
            r matches Err(e) ==> (e == AfeError::<B::Error>::InvalidRegisterValue { reg_addr: 0x39 }
                || is_bus_error(e)),
            exists|answers: Seq<Seq<u8>>|
                #[trigger] exchanged(
                    old(self).log(),
                    final(self).log(),
                    old(self).address_spec(),
                    two_regs(0x0Fu8, 0x39u8),
                    answers,
                    Seq::empty(),
                    finished(r),
                ) && (r matches Ok(v) ==> (divider_of_code(field(values(answers)[1], 0, 3) as int) matches Some(d)
                    && v == time_of_ticks(field(values(answers)[0], 0, 16) as int, d, old(self).clock_hz() as int)))
                && ((r matches Err(e) && !is_bus_error(e)) ==> divider_of_code(field(values(answers)[1], 0, 3) as int) is None),
    {
        self.get_boundary(0x0F)
    }

    /// Sets the end of the conversion phase of the second ambient channel alone, in nanoseconds, on the grid of the divided clock.
    pub fn set_ambient2_conv_end(&mut self, timing: i64) -> (r: Result<i64, AfeError<B::Error>>)
        requires
            old(self).clock_hz() > 0,
        ensures
            final(self).same_device(old(self)),
            r matches Err(e) ==> (e == AfeError::<B::Error>::InvalidRegisterValue { reg_addr: 0x39 }
                || is_bus_error(e)),
            exists|answers: Seq<Seq<u8>>|
                #[trigger] exchanged(
                    old(self).log(),
                    final(self).log(),
                    old(self).address_spec(),
                    one_reg(0x39u8),
                    answers,
                    boundary_writes(0x10u8, values(answers)[0], timing as int, old(self).clock_hz() as int),
                    finished(r),
                ) && (r matches Ok(v) ==> (divider_of_code(field(values(answers)[0], 0, 3) as int) matches Some(d)
                    && v == time_of_ticks(boundary_code(timing as int, d, old(self).clock_hz() as int), d, old(self).clock_hz() as int)))
                && ((r matches Err(e) && !is_bus_error(e)) ==> divider_of_code(field(values(answers)[0], 0, 3) as int) is None),
    {
        self.set_boundary(0x10, timing)
    }

    /// Gets the end of the conversion phase of the second ambient channel, in nanoseconds.
    pub fn get_ambient2_conv_end(&mut self) -> (r: Result<i64, AfeError<B::Error>>)
        requires
            old(self).clock_hz() > 0,
        ensures
            final(self).same_device(old(self)),
            r matches Err(e) ==> (e == AfeError::<B::Error>::InvalidRegisterValue { reg_addr: 0x39 }
                || is_bus_error(e)),
            exists|answers: Seq<Seq<u8>>|
                #[trigger] exchanged(
                    old(self).log(),
                    final(self).log(),
                    old(self).address_spec(),
                    two_regs(0x10u8, 0x39u8),
                    answers,
                    Seq::empty(),
                    finished(r),
                ) && (r matches Ok(v) ==> (divider_of_code(field(values(answers)[1], 0, 3) as int) matches Some(d)
                    && v == time_of_ticks(field(values(answers)[0], 0, 16) as int, d, old(self).clock_hz() as int)))
                && ((r matches Err(e) && !is_bus_error(e)) ==> divider_of_code(field(values(answers)[1], 0, 3) as int) is None),
    {
        self.get_boundary(0x10)
    }
}

} // verus!
