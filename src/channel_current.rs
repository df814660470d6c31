//! Setting and reading the current of one channel at a time.
use vstd::prelude::*;

use crate::device::{
    exchanged, finished, is_bus_error, lemma_exchange, one_reg, two_regs, values, AFE4404,
};
use crate::error::AfeError;
use crate::led_current::{
    led_code, led_current_from_code, led_current_in_range, led_current_of_code, led_range_na,
    offset_code, offset_code_of, offset_current_from_code, offset_in_range, offset_of_code,
    ILED_2X_OFFSET, LED_RANGE_HIGH_NA, LED_RANGE_LOW_NA,
};
use crate::modes::{LedMode, ThreeLedsMode, TwoLedsMode};
use crate::quantize::{lemma_linear_quantization, lemma_round_div_range};
use crate::register::{field, get_field, set_field, with_field, I2cBus, REGISTER_MAX};

verus! {

/// Offset of the ILED1 field of register 22h.
pub const ILED1_OFFSET: u32 = 0;

/// Offset of the ILED2 field of register 22h.
pub const ILED2_OFFSET: u32 = 6;

/// Offset of the ILED3 field of register 22h.
pub const ILED3_OFFSET: u32 = 12;

/// Offset of the LED1 offset fields (magnitude, then sign) of register 3Ah.
pub const OFFDAC_LED1_OFFSET: u32 = 5;

/// Offset of the LED2 offset fields of register 3Ah.
pub const OFFDAC_LED2_OFFSET: u32 = 15;

/// Offset of the first ambient offset fields of register 3Ah.
pub const OFFDAC_AMB1_OFFSET: u32 = 10;

/// Offset of the fields of register 3Ah shared by the second ambient and LED3.
pub const OFFDAC_AMB2_OR_LED3_OFFSET: u32 = 0;

/// An LED code kept for the same current when the shared range doubles or halves.
pub open spec fn rescaled_code(code: int, prev_high: bool, high: bool) -> int {
    if prev_high == high {
        code
    } else if high {
        code / 2
    } else {
        code * 2
    }
}

/// The two other ILED fields of register 22h, for the ILED field at `offset`.
pub open spec fn other_iled_offsets(offset: u32) -> (u32, u32) {
    if offset == ILED1_OFFSET {
        (ILED2_OFFSET, ILED3_OFFSET)
    } else if offset == ILED2_OFFSET {
        (ILED1_OFFSET, ILED3_OFFSET)
    } else {
        (ILED1_OFFSET, ILED2_OFFSET)
    }
}

/// Whether the shared range is the high one once the LED at `offset` is set to `current`: the
/// current is above 50 mA, or the range was high and one of the two other codes is above 31, so
/// that halving it would lose it.
pub open spec fn single_led_high(r22h: u32, r23h: u32, offset: u32, current: int) -> bool {
    let (o1, o2) = other_iled_offsets(offset);
    current > LED_RANGE_LOW_NA || (field(r23h, ILED_2X_OFFSET, 1) == 1 && (field(r22h, o1, 6) > 31
        || field(r22h, o2, 6) > 31))
}

/// Registers 22h and 23h, and the current returned, once the LED at `offset` is set to
/// `current`: its code is the nearest step of the chosen range, the two other codes are halved
/// or doubled when the range changes, and the range bit is written.
pub open spec fn single_led_update(r22h: u32, r23h: u32, offset: u32, current: int) -> (u32, u32, int) {
    let (o1, o2) = other_iled_offsets(offset);
    let prev_high = field(r23h, ILED_2X_OFFSET, 1) == 1;
    let high = single_led_high(r22h, r23h, offset, current);
    let code = led_code(current, high);
    (
        with_field(
            with_field(
                with_field(r22h, offset, 6, code as u32),
                o1,
                6,
                rescaled_code(field(r22h, o1, 6) as int, prev_high, high) as u32,
            ),
            o2,
            6,
            rescaled_code(field(r22h, o2, 6) as int, prev_high, high) as u32,
        ),
        with_field(r23h, ILED_2X_OFFSET, 1, if high { 1 } else { 0 }),
        led_current_of_code(code, high),
    )
}

/// Computes registers 22h and 23h, and the current returned, for setting the LED at `offset`.
pub fn plan_single_led(r22h: u32, r23h: u32, offset: u32, current: i64) -> (r: (u32, u32, i64))
    requires
        offset == ILED1_OFFSET || offset == ILED2_OFFSET || offset == ILED3_OFFSET,
        r22h <= REGISTER_MAX,
        r23h <= REGISTER_MAX,
        led_current_in_range(current as int),
    ensures
        r.0 == single_led_update(r22h, r23h, offset, current as int).0,
        r.1 == single_led_update(r22h, r23h, offset, current as int).1,
        r.2 == single_led_update(r22h, r23h, offset, current as int).2,
        r.0 <= REGISTER_MAX && r.1 <= REGISTER_MAX,
{
    proof {
        crate::register::lemma_low_mask_values();
    }
    let prev_high = get_field(r23h, ILED_2X_OFFSET, 1) == 1;
    let (o1, o2) = if offset == ILED1_OFFSET {
        (ILED2_OFFSET, ILED3_OFFSET)
    } else if offset == ILED2_OFFSET {
        (ILED1_OFFSET, ILED3_OFFSET)
    } else {
        (ILED1_OFFSET, ILED2_OFFSET)
    };
    let c1 = get_field(r22h, o1, 6);
    let c2 = get_field(r22h, o2, 6);
    let high = current > LED_RANGE_LOW_NA || (prev_high && (c1 > 31 || c2 > 31));
    let range: i64 = if high {
        LED_RANGE_HIGH_NA
    } else {
        LED_RANGE_LOW_NA
    };
    proof {
        lemma_round_div_range(current * 63, range as int, 63);
    }
    let code = crate::quantize::round_div_u64((current * 63) as u64, range as u64) as u32;
    let v = set_field(r22h, offset, 6, code);
    let v = set_field(v, o1, 6, rescale(c1, prev_high, high));
    let v = set_field(v, o2, 6, rescale(c2, prev_high, high));
    let b: u32 = if high {
        1
    } else {
        0
    };
    (v, set_field(r23h, ILED_2X_OFFSET, 1, b), led_current_from_code(code as u8, high))
}

/// The register writes that set the LED at `offset` alone, registers 22h and 23h having held
/// `r22h` and `r23h`: 22h, then 23h.
pub open spec fn single_led_writes(r22h: u32, r23h: u32, offset: u32, current: int) -> Seq<(u8, u32)> {
    let (a, b, v) = single_led_update(r22h, r23h, offset, current);
    seq![(0x22u8, a), (0x23u8, b)]
}

/// Register 3Ah with the offset code of one channel, whose fields start at `offset`, written;
/// the other channels are kept.
pub open spec fn single_offset_register(r3ah: u32, offset: u32, current: int) -> u32 {
    with_field(
        with_field(r3ah, offset, 4, offset_code(current) as u32),
        (offset + 4) as u32,
        1,
        if current < 0 { 1 } else { 0 },
    )
}

/// Computes register 3Ah with the offset code of one channel written.
pub fn plan_single_offset(r3ah: u32, offset: u32, current: i64) -> (r: u32)
    requires
        offset <= 15,
        r3ah <= REGISTER_MAX,
        offset_in_range(current as int),
    ensures
        r == single_offset_register(r3ah, offset, current as int),
        field(r, offset, 4) == offset_code(current as int),
        field(r, (offset + 4) as u32, 1) == (if current < 0 { 1u32 } else { 0u32 }),
        r <= REGISTER_MAX,
{
    proof {
        crate::register::lemma_low_mask_values();
    }
    let code = offset_code_of(current);
    let sign: u32 = if code.negative {
        1
    } else {
        0
    };
    let v = set_field(r3ah, offset, 4, code.magnitude as u32);
    proof {
        crate::register::lemma_field_of_other(v, (offset + 4) as u32, 1, sign, offset, 4);
    }
    set_field(v, offset + 4, 1, sign)
}

fn rescale(code: u32, prev_high: bool, high: bool) -> (r: u32)
    requires
        code <= 63,
        prev_high && !high ==> code <= 31,
    ensures
        r == rescaled_code(code as int, prev_high, high),
        r <= 63,
{
    if prev_high == high {
        code
    } else if high {
        code / 2
    } else {
        code * 2
    }
}

/// A current set alone comes back within one step of the range that was used.
pub proof fn lemma_single_led_error(current: int, high: bool)
    requires
        led_current_in_range(current),
        current > LED_RANGE_LOW_NA ==> high,
    ensures
        63 * (led_current_of_code(led_code(current, high), high) - current) <= led_range_na(high),
        63 * (current - led_current_of_code(led_code(current, high), high)) <= led_range_na(high),
{
    lemma_linear_quantization(current, led_range_na(high), 63);
}

impl<B: I2cBus, MODE: LedMode> AFE4404<B, MODE> {
    /// Sets the LED current of the field at `offset` of register 22h, keeping the currents of
    /// the two other LEDs: when the shared range changes, their codes are doubled or halved.
    fn set_single_led_current(&mut self, offset: u32, current: i64) -> (r: Result<i64, AfeError<B::Error>>)
        requires
            offset == ILED1_OFFSET || offset == ILED2_OFFSET || offset == ILED3_OFFSET,
        ensures
            final(self).same_device(old(self)),
            !led_current_in_range(current as int) ==> r == Err::<i64, AfeError<B::Error>>(
                AfeError::LedCurrentOutsideAllowedRange,
            ) && *final(self) == *old(self),
            (r matches Err(e) && e is LedCurrentOutsideAllowedRange) ==> !led_current_in_range(current as int),
            r matches Err(e) ==> (e is LedCurrentOutsideAllowedRange || is_bus_error(e)),
            (r is Ok || (r matches Err(e) && is_bus_error(e))) ==> exists|answers: Seq<Seq<u8>>|
                #[trigger] exchanged(
                    old(self).log(),
                    final(self).log(),
                    old(self).address_spec(),
                    two_regs(0x22u8, 0x23u8),
                    answers,
                    single_led_writes(values(answers)[0], values(answers)[1], offset, current as int),
                    r is Ok,
                ) && (r matches Ok(v) ==> v == single_led_update(values(answers)[0], values(answers)[1], offset, current as int).2),
    {
        if current < 0 || current > LED_RANGE_HIGH_NA {
            return Err(AfeError::LedCurrentOutsideAllowedRange);
        }
        let ghost before = self.log();
        let ghost address = self.address_spec();
        let regs = vec![0x22u8, 0x23u8];
        assert(regs@ =~= two_regs(0x22u8, 0x23u8));
        let (res, got) = self.read_regs(&regs);
        let ghost answers = got@;
        let ghost target = single_led_writes(values(answers)[0], values(answers)[1], offset, current as int);
        let vals = match res {
            Ok(v) => v,
            Err(e) => {
                assert(exchanged(before, self.log(), address, regs@, answers, target, false));
                return Err(e);
            },
        };
        let (a, b, v) = plan_single_led(vals[0], vals[1], offset, current);
        let mut writes: Vec<(u8, u32)> = Vec::new();
        writes.push((0x22, a));
        writes.push((0x23, b));
        assert(writes@ =~= target);
        let ghost mid = self.log();
        let wr = self.run_writes(&writes);
        proof {
            lemma_exchange(before, mid, self.log(), address, regs@, answers, writes@, wr is Ok);
        }
        match wr {
            Ok(()) => Ok(v),
            Err(e) => Err(e),
        }
    }

    fn get_single_led_current(&mut self, offset: u32) -> (r: Result<i64, AfeError<B::Error>>)
        requires
            offset == ILED1_OFFSET || offset == ILED2_OFFSET || offset == ILED3_OFFSET,
        ensures
            final(self).same_device(old(self)),
            r matches Err(e) ==> is_bus_error(e),
            exists|answers: Seq<Seq<u8>>|
                #[trigger] exchanged(
                    old(self).log(),
                    final(self).log(),
                    old(self).address_spec(),
                    two_regs(0x22u8, 0x23u8),
                    answers,
                    Seq::empty(),
                    finished(r),
                ) && (r matches Ok(v) ==> v == led_current_of_code(
                    field(values(answers)[0], offset, 6) as int,
                    field(values(answers)[1], ILED_2X_OFFSET, 1) == 1,
                )),
    {
        proof {
            crate::register::lemma_low_mask_values();
        }
        let ghost before = self.log();
        let ghost address = self.address_spec();
        let regs = vec![0x22u8, 0x23u8];
        assert(regs@ =~= two_regs(0x22u8, 0x23u8));
        let (res, got) = self.read_regs(&regs);
        let ghost answers = got@;
        let r = match res {
            Ok(vals) => Ok(led_current_from_code(
                get_field(vals[0], offset, 6) as u8,
                get_field(vals[1], ILED_2X_OFFSET, 1) == 1,
            )),
            Err(e) => Err(e),
        };
        assert(exchanged(before, self.log(), address, regs@, answers, Seq::empty(), finished(r)));
        r
    }

    /// Sets the offset current of the fields at `offset` of register 3Ah.
    fn set_single_offset_current(&mut self, offset: u32, current: i64) -> (r: Result<i64, AfeError<B::Error>>)
        requires
            offset <= 15,
        ensures
            final(self).same_device(old(self)),
            !offset_in_range(current as int) ==> r == Err::<i64, AfeError<B::Error>>(
                AfeError::OffsetCurrentOutsideAllowedRange,
            ) && *final(self) == *old(self),
            r matches Ok(v) ==> v == offset_of_code(offset_code(current as int), current < 0),
            (r matches Err(e) && e is OffsetCurrentOutsideAllowedRange) ==> !offset_in_range(current as int),
            r matches Err(e) ==> (e is OffsetCurrentOutsideAllowedRange || is_bus_error(e)),
            (r is Ok || (r matches Err(e) && is_bus_error(e))) ==> exists|answers: Seq<Seq<u8>>|
                #[trigger] exchanged(
                    old(self).log(),
                    final(self).log(),
                    old(self).address_spec(),
                    one_reg(0x3Au8),
                    answers,
                    seq![(0x3Au8, single_offset_register(values(answers)[0], offset, current as int))],
                    r is Ok,
                ),
    {
        if current < -crate::led_current::OFFSET_RANGE_NA || current > crate::led_current::OFFSET_RANGE_NA {
            return Err(AfeError::OffsetCurrentOutsideAllowedRange);
        }
        let ghost before = self.log();
        let ghost address = self.address_spec();
        let regs = vec![0x3Au8];
        assert(regs@ =~= one_reg(0x3Au8));
        let (res, got) = self.read_regs(&regs);
        let ghost answers = got@;
        let ghost target = seq![(0x3Au8, single_offset_register(values(answers)[0], offset, current as int))];
        let vals = match res {
            Ok(v) => v,
            Err(e) => {
                assert(exchanged(before, self.log(), address, regs@, answers, target, false));
                return Err(e);
            },
        };
        let mut writes: Vec<(u8, u32)> = Vec::new();
        writes.push((0x3A, plan_single_offset(vals[0], offset, current)));
        assert(writes@ =~= target);
        let ghost mid = self.log();
        let wr = self.run_writes(&writes);
        proof {
            lemma_exchange(before, mid, self.log(), address, regs@, answers, writes@, wr is Ok);
        }
        match wr {
            Ok(()) => Ok(offset_current_from_code(offset_code_of(current))),
            Err(e) => Err(e),
        }
    }

    fn get_single_offset_current(&mut self, offset: u32) -> (r: Result<i64, AfeError<B::Error>>)
        requires
            offset <= 15,
        ensures
            final(self).same_device(old(self)),
            r matches Err(e) ==> is_bus_error(e),
            exists|answers: Seq<Seq<u8>>|
                #[trigger] exchanged(
                    old(self).log(),
                    final(self).log(),
                    old(self).address_spec(),
                    one_reg(0x3Au8),
                    answers,
                    Seq::empty(),
                    finished(r),
                ) && (r matches Ok(v) ==> v == offset_of_code(
                    field(values(answers)[0], offset, 4) as int,
                    field(values(answers)[0], (offset + 4) as u32, 1) == 1,
                )),
    {
        proof {
            crate::register::lemma_low_mask_values();
        }
        let ghost before = self.log();
        let ghost address = self.address_spec();
        let regs = vec![0x3Au8];
        assert(regs@ =~= one_reg(0x3Au8));
        let (res, got) = self.read_regs(&regs);
        let ghost answers = got@;
        let r = match res {
            Ok(vals) => {
                let code = crate::led_current::OffsetCode {
                    magnitude: get_field(vals[0], offset, 4) as u8,
                    negative: get_field(vals[0], offset + 4, 1) == 1,
                };
                Ok(offset_current_from_code(code))
            },
            Err(e) => Err(e),
        };
        assert(exchanged(before, self.log(), address, regs@, answers, Seq::empty(), finished(r)));
        r
    }

    /// Sets the LED1 current alone, in nanoamperes, and returns the current that now holds.
    pub fn set_led1_current(&mut self, current: i64) -> (r: Result<i64, AfeError<B::Error>>)
        ensures
            final(self).same_device(old(self)),
            !led_current_in_range(current as int) ==> r == Err::<i64, AfeError<B::Error>>(
                AfeError::LedCurrentOutsideAllowedRange,
            ) && *final(self) == *old(self),
            (r matches Err(e) && e is LedCurrentOutsideAllowedRange) ==> !led_current_in_range(current as int),
            r matches Err(e) ==> (e is LedCurrentOutsideAllowedRange || is_bus_error(e)),
            (r is Ok || (r matches Err(e) && is_bus_error(e))) ==> exists|answers: Seq<Seq<u8>>|
                #[trigger] exchanged(
                    old(self).log(),
                    final(self).log(),
                    old(self).address_spec(),
                    two_regs(0x22u8, 0x23u8),
                    answers,
                    single_led_writes(values(answers)[0], values(answers)[1], ILED1_OFFSET, current as int),
                    r is Ok,
                ) && (r matches Ok(v) ==> v == single_led_update(values(answers)[0], values(answers)[1], ILED1_OFFSET, current as int).2),
    {
        self.set_single_led_current(ILED1_OFFSET, current)
    }

    /// Gets the LED1 current, in nanoamperes.
    pub fn get_led1_current(&mut self) -> (r: Result<i64, AfeError<B::Error>>)
        ensures
            final(self).same_device(old(self)),
            r matches Err(e) ==> is_bus_error(e),
            exists|answers: Seq<Seq<u8>>|
                #[trigger] exchanged(
                    old(self).log(),
                    final(self).log(),
                    old(self).address_spec(),
                    two_regs(0x22u8, 0x23u8),
                    answers,
                    Seq::empty(),
                    finished(r),
                ) && (r matches Ok(v) ==> v == led_current_of_code(
                    field(values(answers)[0], ILED1_OFFSET, 6) as int,
                    field(values(answers)[1], ILED_2X_OFFSET, 1) == 1,
                )),
    {
        self.get_single_led_current(ILED1_OFFSET)
    }

    /// Sets the LED2 current alone, in nanoamperes, and returns the current that now holds.
    pub fn set_led2_current(&mut self, current: i64) -> (r: Result<i64, AfeError<B::Error>>)
        ensures
            final(self).same_device(old(self)),
            !led_current_in_range(current as int) ==> r == Err::<i64, AfeError<B::Error>>(
                AfeError::LedCurrentOutsideAllowedRange,
            ) && *final(self) == *old(self),
            (r matches Err(e) && e is LedCurrentOutsideAllowedRange) ==> !led_current_in_range(current as int),
            r matches Err(e) ==> (e is LedCurrentOutsideAllowedRange || is_bus_error(e)),
            (r is Ok || (r matches Err(e) && is_bus_error(e))) ==> exists|answers: Seq<Seq<u8>>|
                #[trigger] exchanged(
                    old(self).log(),
                    final(self).log(),
                    old(self).address_spec(),
                    two_regs(0x22u8, 0x23u8),
                    answers,
                    single_led_writes(values(answers)[0], values(answers)[1], ILED2_OFFSET, current as int),
                    r is Ok,
                ) && (r matches Ok(v) ==> v == single_led_update(values(answers)[0], values(answers)[1], ILED2_OFFSET, current as int).2),
    {
        self.set_single_led_current(ILED2_OFFSET, current)
    }

    /// Gets the LED2 current, in nanoamperes.
    pub fn get_led2_current(&mut self) -> (r: Result<i64, AfeError<B::Error>>)
        ensures
            final(self).same_device(old(self)),
            r matches Err(e) ==> is_bus_error(e),
            exists|answers: Seq<Seq<u8>>|
                #[trigger] exchanged(
                    old(self).log(),
                    final(self).log(),
                    old(self).address_spec(),
                    two_regs(0x22u8, 0x23u8),
                    answers,
                    Seq::empty(),
                    finished(r),
                ) && (r matches Ok(v) ==> v == led_current_of_code(
                    field(values(answers)[0], ILED2_OFFSET, 6) as int,
                    field(values(answers)[1], ILED_2X_OFFSET, 1) == 1,
                )),
    {
        self.get_single_led_current(ILED2_OFFSET)
    }

    /// Sets the LED1 offset current alone, in nanoamperes.
    pub fn set_offset_led1_current(&mut self, current: i64) -> (r: Result<i64, AfeError<B::Error>>)
        ensures
            final(self).same_device(old(self)),
            !offset_in_range(current as int) ==> r == Err::<i64, AfeError<B::Error>>(
                AfeError::OffsetCurrentOutsideAllowedRange,
            ) && *final(self) == *old(self),
            r matches Ok(v) ==> v == offset_of_code(offset_code(current as int), current < 0),
            (r matches Err(e) && e is OffsetCurrentOutsideAllowedRange) ==> !offset_in_range(current as int),
            r matches Err(e) ==> (e is OffsetCurrentOutsideAllowedRange || is_bus_error(e)),
            (r is Ok || (r matches Err(e) && is_bus_error(e))) ==> exists|answers: Seq<Seq<u8>>|
                #[trigger] exchanged(
                    old(self).log(),
                    final(self).log(),
                    old(self).address_spec(),
                    one_reg(0x3Au8),
                    answers,
                    seq![(0x3Au8, single_offset_register(values(answers)[0], OFFDAC_LED1_OFFSET, current as int))],
                    r is Ok,
                ),
    {
        self.set_single_offset_current(OFFDAC_LED1_OFFSET, current)
    }

    /// Gets the LED1 offset current, in nanoamperes.
    pub fn get_offset_led1_current(&mut self) -> (r: Result<i64, AfeError<B::Error>>)
        ensures
            final(self).same_device(old(self)),
            r matches Err(e) ==> is_bus_error(e),
            exists|answers: Seq<Seq<u8>>|
                #[trigger] exchanged(
                    old(self).log(),
                    final(self).log(),
                    old(self).address_spec(),
                    one_reg(0x3Au8),
                    answers,
                    Seq::empty(),
                    finished(r),
                ) && (r matches Ok(v) ==> v == offset_of_code(
                    field(values(answers)[0], OFFDAC_LED1_OFFSET, 4) as int,
                    field(values(answers)[0], (OFFDAC_LED1_OFFSET + 4) as u32, 1) == 1,
                )),
    {
        self.get_single_offset_current(OFFDAC_LED1_OFFSET)
    }

    /// Sets the LED2 offset current alone, in nanoamperes.
    pub fn set_offset_led2_current(&mut self, current: i64) -> (r: Result<i64, AfeError<B::Error>>)
        ensures
            final(self).same_device(old(self)),
            !offset_in_range(current as int) ==> r == Err::<i64, AfeError<B::Error>>(
                AfeError::OffsetCurrentOutsideAllowedRange,
            ) && *final(self) == *old(self),
            r matches Ok(v) ==> v == offset_of_code(offset_code(current as int), current < 0),
            (r matches Err(e) && e is OffsetCurrentOutsideAllowedRange) ==> !offset_in_range(current as int),
            r matches Err(e) ==> (e is OffsetCurrentOutsideAllowedRange || is_bus_error(e)),
            (r is Ok || (r matches Err(e) && is_bus_error(e))) ==> exists|answers: Seq<Seq<u8>>|
                #[trigger] exchanged(
                    old(self).log(),
                    final(self).log(),
                    old(self).address_spec(),
                    one_reg(0x3Au8),
                    answers,
                    seq![(0x3Au8, single_offset_register(values(answers)[0], OFFDAC_LED2_OFFSET, current as int))],
                    r is Ok,
                ),
    {
        self.set_single_offset_current(OFFDAC_LED2_OFFSET, current)
    }

    /// Gets the LED2 offset current, in nanoamperes.
    pub fn get_offset_led2_current(&mut self) -> (r: Result<i64, AfeError<B::Error>>)
        ensures
            final(self).same_device(old(self)),
            r matches Err(e) ==> is_bus_error(e),
            exists|answers: Seq<Seq<u8>>|
                #[trigger] exchanged(
                    old(self).log(),
                    final(self).log(),
                    old(self).address_spec(),
                    one_reg(0x3Au8),
                    answers,
                    Seq::empty(),
                    finished(r),
                ) && (r matches Ok(v) ==> v == offset_of_code(
                    field(values(answers)[0], OFFDAC_LED2_OFFSET, 4) as int,
                    field(values(answers)[0], (OFFDAC_LED2_OFFSET + 4) as u32, 1) == 1,
                )),
    {
        self.get_single_offset_current(OFFDAC_LED2_OFFSET)
    }
}

impl<B: I2cBus> AFE4404<B, ThreeLedsMode> {
    /// Sets the LED3 current alone, in nanoamperes, and returns the current that now holds.
    pub fn set_led3_current(&mut self, current: i64) -> (r: Result<i64, AfeError<B::Error>>)
        ensures
            final(self).same_device(old(self)),
            !led_current_in_range(current as int) ==> r == Err::<i64, AfeError<B::Error>>(
                AfeError::LedCurrentOutsideAllowedRange,
            ) && *final(self) == *old(self),
            (r matches Err(e) && e is LedCurrentOutsideAllowedRange) ==> !led_current_in_range(current as int),
            r matches Err(e) ==> (e is LedCurrentOutsideAllowedRange || is_bus_error(e)),
            (r is Ok || (r matches Err(e) && is_bus_error(e))) ==> exists|answers: Seq<Seq<u8>>|
                #[trigger] exchanged(
                    old(self).log(),
                    final(self).log(),
                    old(self).address_spec(),
                    two_regs(0x22u8, 0x23u8),
                    answers,
                    single_led_writes(values(answers)[0], values(answers)[1], ILED3_OFFSET, current as int),
                    r is Ok,
                ) && (r matches Ok(v) ==> v == single_led_update(values(answers)[0], values(answers)[1], ILED3_OFFSET, current as int).2),
    {
        self.set_single_led_current(ILED3_OFFSET, current)
    }

    /// Gets the LED3 current, in nanoamperes.
    pub fn get_led3_current(&mut self) -> (r: Result<i64, AfeError<B::Error>>)
        ensures
            final(self).same_device(old(self)),
            r matches Err(e) ==> is_bus_error(e),
            exists|answers: Seq<Seq<u8>>|
                #[trigger] exchanged(
                    old(self).log(),
                    final(self).log(),
                    old(self).address_spec(),
                    two_regs(0x22u8, 0x23u8),
                    answers,
                    Seq::empty(),
                    finished(r),
                ) && (r matches Ok(v) ==> v == led_current_of_code(
                    field(values(answers)[0], ILED3_OFFSET, 6) as int,
                    field(values(answers)[1], ILED_2X_OFFSET, 1) == 1,
                )),
    {
        self.get_single_led_current(ILED3_OFFSET)
    }

    /// Sets the LED3 offset current alone, in nanoamperes.
    pub fn set_offset_led3_current(&mut self, current: i64) -> (r: Result<i64, AfeError<B::Error>>)
        ensures
            final(self).same_device(old(self)),
            !offset_in_range(current as int) ==> r == Err::<i64, AfeError<B::Error>>(
                AfeError::OffsetCurrentOutsideAllowedRange,
            ) && *final(self) == *old(self),
            r matches Ok(v) ==> v == offset_of_code(offset_code(current as int), current < 0),
            (r matches Err(e) && e is OffsetCurrentOutsideAllowedRange) ==> !offset_in_range(current as int),
            r matches Err(e) ==> (e is OffsetCurrentOutsideAllowedRange || is_bus_error(e)),
            (r is Ok || (r matches Err(e) && is_bus_error(e))) ==> exists|answers: Seq<Seq<u8>>|
                #[trigger] exchanged(
                    old(self).log(),
                    final(self).log(),
                    old(self).address_spec(),
                    one_reg(0x3Au8),
                    answers,
                    seq![(0x3Au8, single_offset_register(values(answers)[0], OFFDAC_AMB2_OR_LED3_OFFSET, current as int))],
                    r is Ok,
                ),
    {
        self.set_single_offset_current(OFFDAC_AMB2_OR_LED3_OFFSET, current)
    }

    /// Sets the ambient offset current alone, in nanoamperes.
    pub fn set_offset_amb_current(&mut self, current: i64) -> (r: Result<i64, AfeError<B::Error>>)
        ensures
            final(self).same_device(old(self)),
            !offset_in_range(current as int) ==> r == Err::<i64, AfeError<B::Error>>(
                AfeError::OffsetCurrentOutsideAllowedRange,
            ) && *final(self) == *old(self),
            r matches Ok(v) ==> v == offset_of_code(offset_code(current as int), current < 0),
            (r matches Err(e) && e is OffsetCurrentOutsideAllowedRange) ==> !offset_in_range(current as int),
            r matches Err(e) ==> (e is OffsetCurrentOutsideAllowedRange || is_bus_error(e)),
            (r is Ok || (r matches Err(e) && is_bus_error(e))) ==> exists|answers: Seq<Seq<u8>>|
                #[trigger] exchanged(
                    old(self).log(),
                    final(self).log(),
                    old(self).address_spec(),
                    one_reg(0x3Au8),
                    answers,
                    seq![(0x3Au8, single_offset_register(values(answers)[0], OFFDAC_AMB1_OFFSET, current as int))],
                    r is Ok,
                ),
    {
        self.set_single_offset_current(OFFDAC_AMB1_OFFSET, current)
    }

    /// Gets the LED3 offset current, in nanoamperes.
    pub fn get_offset_led3_current(&mut self) -> (r: Result<i64, AfeError<B::Error>>)
        ensures
            final(self).same_device(old(self)),
            r matches Err(e) ==> is_bus_error(e),
            exists|answers: Seq<Seq<u8>>|
                #[trigger] exchanged(
                    old(self).log(),
                    final(self).log(),
                    old(self).address_spec(),
                    one_reg(0x3Au8),
                    answers,
                    Seq::empty(),
                    finished(r),
                ) && (r matches Ok(v) ==> v == offset_of_code(
                    field(values(answers)[0], OFFDAC_AMB2_OR_LED3_OFFSET, 4) as int,
                    field(values(answers)[0], (OFFDAC_AMB2_OR_LED3_OFFSET + 4) as u32, 1) == 1,
                )),
    {
        self.get_single_offset_current(OFFDAC_AMB2_OR_LED3_OFFSET)
    }

    /// Gets the ambient offset current, in nanoamperes.
    pub fn get_offset_amb_current(&mut self) -> (r: Result<i64, AfeError<B::Error>>)
        ensures
            final(self).same_device(old(self)),
            r matches Err(e) ==> is_bus_error(e),
            exists|answers: Seq<Seq<u8>>|
                #[trigger] exchanged(
                    old(self).log(),
                    final(self).log(),
                    old(self).address_spec(),
                    one_reg(0x3Au8),
                    answers,
                    Seq::empty(),
                    finished(r),
                ) && (r matches Ok(v) ==> v == offset_of_code(
                    field(values(answers)[0], OFFDAC_AMB1_OFFSET, 4) as int,
                    field(values(answers)[0], (OFFDAC_AMB1_OFFSET + 4) as u32, 1) == 1,
                )),
    {
        self.get_single_offset_current(OFFDAC_AMB1_OFFSET)
    }
}

impl<B: I2cBus> AFE4404<B, TwoLedsMode> {
    /// Sets the offset current of the first ambient phase alone, in nanoamperes.
    pub fn set_offset_amb1_current(&mut self, current: i64) -> (r: Result<i64, AfeError<B::Error>>)
        ensures
            final(self).same_device(old(self)),
            !offset_in_range(current as int) ==> r == Err::<i64, AfeError<B::Error>>(
                AfeError::OffsetCurrentOutsideAllowedRange,
            ) && *final(self) == *old(self),
            r matches Ok(v) ==> v == offset_of_code(offset_code(current as int), current < 0),
            (r matches Err(e) && e is OffsetCurrentOutsideAllowedRange) ==> !offset_in_range(current as int),
            r matches Err(e) ==> (e is OffsetCurrentOutsideAllowedRange || is_bus_error(e)),
            (r is Ok || (r matches Err(e) && is_bus_error(e))) ==> exists|answers: Seq<Seq<u8>>|
                #[trigger] exchanged(
                    old(self).log(),
                    final(self).log(),
                    old(self).address_spec(),
                    one_reg(0x3Au8),
                    answers,
                    seq![(0x3Au8, single_offset_register(values(answers)[0], OFFDAC_AMB1_OFFSET, current as int))],
                    r is Ok,
                ),
    {
        self.set_single_offset_current(OFFDAC_AMB1_OFFSET, current)
    }

    /// Sets the offset current of the second ambient phase alone, in nanoamperes.
    pub fn set_offset_amb2_current(&mut self, current: i64) -> (r: Result<i64, AfeError<B::Error>>)
        ensures
            final(self).same_device(old(self)),
            !offset_in_range(current as int) ==> r == Err::<i64, AfeError<B::Error>>(
                AfeError::OffsetCurrentOutsideAllowedRange,
            ) && *final(self) == *old(self),
            r matches Ok(v) ==> v == offset_of_code(offset_code(current as int), current < 0),
            (r matches Err(e) && e is OffsetCurrentOutsideAllowedRange) ==> !offset_in_range(current as int),
            r matches Err(e) ==> (e is OffsetCurrentOutsideAllowedRange || is_bus_error(e)),
            (r is Ok || (r matches Err(e) && is_bus_error(e))) ==> exists|answers: Seq<Seq<u8>>|
                #[trigger] exchanged(
                    old(self).log(),
                    final(self).log(),
                    old(self).address_spec(),
                    one_reg(0x3Au8),
                    answers,
                    seq![(0x3Au8, single_offset_register(values(answers)[0], OFFDAC_AMB2_OR_LED3_OFFSET, current as int))],
                    r is Ok,
                ),
    {
        self.set_single_offset_current(OFFDAC_AMB2_OR_LED3_OFFSET, current)
    }

    /// Gets the offset current of the first ambient phase, in nanoamperes.
    pub fn get_offset_amb1_current(&mut self) -> (r: Result<i64, AfeError<B::Error>>)
        ensures
            final(self).same_device(old(self)),
            r matches Err(e) ==> is_bus_error(e),
            exists|answers: Seq<Seq<u8>>|
                #[trigger] exchanged(
                    old(self).log(),
                    final(self).log(),
                    old(self).address_spec(),
                    one_reg(0x3Au8),
                    answers,
                    Seq::empty(),
                    finished(r),
                ) && (r matches Ok(v) ==> v == offset_of_code(
                    field(values(answers)[0], OFFDAC_AMB1_OFFSET, 4) as int,
                    field(values(answers)[0], (OFFDAC_AMB1_OFFSET + 4) as u32, 1) == 1,
                )),
    {
        self.get_single_offset_current(OFFDAC_AMB1_OFFSET)
    }

    /// Gets the offset current of the second ambient phase, in nanoamperes.
    pub fn get_offset_amb2_current(&mut self) -> (r: Result<i64, AfeError<B::Error>>)
        ensures
            final(self).same_device(old(self)),
            r matches Err(e) ==> is_bus_error(e),
            exists|answers: Seq<Seq<u8>>|
                #[trigger] exchanged(
                    old(self).log(),
                    final(self).log(),
                    old(self).address_spec(),
                    one_reg(0x3Au8),
                    answers,
                    Seq::empty(),
                    finished(r),
                ) && (r matches Ok(v) ==> v == offset_of_code(
                    field(values(answers)[0], OFFDAC_AMB2_OR_LED3_OFFSET, 4) as int,
                    field(values(answers)[0], (OFFDAC_AMB2_OR_LED3_OFFSET + 4) as u32, 1) == 1,
                )),
    {
        self.get_single_offset_current(OFFDAC_AMB2_OR_LED3_OFFSET)
    }
}

} // verus!

verus! {

/// Reading an LED current back right after setting it alone gives the current that the setter
/// returned.
pub proof fn lemma_single_led_get_after_set(r22h: u32, r23h: u32, offset: u32, current: int)
    requires
        offset == ILED1_OFFSET || offset == ILED2_OFFSET || offset == ILED3_OFFSET,
        led_current_in_range(current),
    ensures
        ({
            let (a, b, v) = single_led_update(r22h, r23h, offset, current);
            led_current_of_code(field(a, offset, 6) as int, field(b, ILED_2X_OFFSET, 1) == 1) == v
        }),
{
    crate::register::lemma_low_mask_values();
    let (o1, o2) = other_iled_offsets(offset);
    let prev_high = field(r23h, ILED_2X_OFFSET, 1) == 1;
    let high = single_led_high(r22h, r23h, offset, current);
    let code = led_code(current, high);
    lemma_round_div_range(current * 63, led_range_na(high), 63);
    let x1 = rescaled_code(field(r22h, o1, 6) as int, prev_high, high) as u32;
    let x2 = rescaled_code(field(r22h, o2, 6) as int, prev_high, high) as u32;
    let v0 = with_field(r22h, offset, 6, code as u32);
    let v1 = with_field(v0, o1, 6, x1);
    crate::register::lemma_field_of_with_field(r22h, offset, 6, code as u32);
    crate::register::lemma_field_of_other(v0, o1, 6, x1, offset, 6);
    crate::register::lemma_field_of_other(v1, o2, 6, x2, offset, 6);
    crate::register::lemma_field_of_with_field(r23h, ILED_2X_OFFSET, 1, if high { 1 } else { 0 });
}

} // verus!
