//! Decoding of the ADC readings.
use vstd::prelude::*;

use crate::device::{exchanged, finished, is_bus_error, one_reg, values, AFE4404};
use crate::error::AfeError;
use crate::register::I2cBus;

use crate::modes::{LedMode, ThreeLedsMode, TwoLedsMode};
use crate::quantize::{lemma_round_div_range, round_div, round_div_u64};

verus! {

/// Full scale of the ADC: 1.2 V, in nanovolts.
pub const FULL_SCALE_NV: u64 = 1_200_000_000;

/// The code of the full scale: 2^21 - 1.
pub const FULL_SCALE_CODE: u64 = 2_097_151;

/// The signed ADC code that a 24-bit reading stands for: its bits 21 to 23 must all be clear
/// (a positive reading) or all set (a negative one, sign-extended); any other pattern means
/// the reading saturated past full scale.
pub open spec fn adc_code(raw: int) -> Option<int> {
    let v = raw % 0x100_0000;
    if v / 0x20_0000 == 0 {
        Some(v)
    } else if v / 0x20_0000 == 7 {
        Some(v - 0x100_0000)
    } else {
        None
    }
}

/// The potential, in nanovolts, of an ADC code: `code * 1.2 V / 2097151`, rounded half away
/// from zero.
pub open spec fn potential_of_code(code: int) -> int {
    if code < 0 {
        -round_div(-code * FULL_SCALE_NV, FULL_SCALE_CODE as int)
    } else {
        round_div(code * FULL_SCALE_NV, FULL_SCALE_CODE as int)
    }
}

/// The potential of a reading, if it did not saturate.
pub open spec fn potential_of_reading(raw: int) -> Option<int> {
    match adc_code(raw) {
        Some(c) => Some(potential_of_code(c)),
        None => None,
    }
}

/// The result registers, in address order: 2Ah to 2Fh.
pub open spec fn result_registers() -> Seq<u8> {
    seq![0x2Au8, 0x2Bu8, 0x2Cu8, 0x2Du8, 0x2Eu8, 0x2Fu8]
}

/// Decodes a 24-bit reading into a potential in nanovolts; `None` when it saturated.
pub fn decode_reading(raw: u32) -> (r: Option<i64>)
    ensures
        r is None <==> potential_of_reading(raw as int) is None,
        r matches Some(p) ==> potential_of_reading(raw as int) == Some(p as int),
{
    let v = raw % 0x100_0000;
    let top = v / 0x20_0000;
    if top == 0 {
        proof {
            lemma_round_div_range(v * FULL_SCALE_NV, FULL_SCALE_CODE as int, FULL_SCALE_NV as int);
        }
        Some(round_div_u64(v as u64 * FULL_SCALE_NV, FULL_SCALE_CODE) as i64)
    } else if top == 7 {
        let m = 0x100_0000 - v;
        proof {
            lemma_round_div_range(m * FULL_SCALE_NV, FULL_SCALE_CODE as int, 2 * FULL_SCALE_NV);
        }
        Some(-(round_div_u64(m as u64 * FULL_SCALE_NV, FULL_SCALE_CODE) as i64))
    } else {
        None
    }
}

/// A reading whose top three bits are clear gives a potential of zero or more; one whose top
/// three bits are set gives a negative potential; any other reading has none.
pub proof fn lemma_reading_sign(raw: int)
    requires
        0 <= raw < 0x100_0000,
    ensures
        raw / 0x20_0000 == 0 ==> (potential_of_reading(raw) matches Some(p) && p >= 0),
        raw / 0x20_0000 == 7 ==> (potential_of_reading(raw) matches Some(p) && p < 0),
        raw / 0x20_0000 != 0 && raw / 0x20_0000 != 7 ==> potential_of_reading(raw) is None,
{
    if raw / 0x20_0000 == 0 {
        lemma_round_div_range(raw * FULL_SCALE_NV, FULL_SCALE_CODE as int, FULL_SCALE_NV as int);
    } else if raw / 0x20_0000 == 7 {
        let m = 0x100_0000 - raw;
        assert(1 <= m <= 0x20_0000);
        lemma_round_div_range(m * FULL_SCALE_NV, FULL_SCALE_CODE as int, 2 * FULL_SCALE_NV);
        crate::quantize::lemma_round_div_bounds(m * FULL_SCALE_NV, FULL_SCALE_CODE as int);
        let q = round_div(m * FULL_SCALE_NV, FULL_SCALE_CODE as int);
        assert(q >= 1) by (nonlinear_arith)
            requires
                2 * m * FULL_SCALE_NV + FULL_SCALE_CODE < 2 * FULL_SCALE_CODE * q + 2 * FULL_SCALE_CODE,
                m >= 1,
        ;
    }
}

/// The decoded readings of one window, in nanovolts.
#[derive(Debug)]
pub struct Readings<MODE: LedMode> {
    led1: i64,
    led2: i64,
    ambient1: i64,
    ambient2_or_led3: i64,
    led1_minus_ambient1: i64,
    led2_minus_ambient2: i64,
    mode: core::marker::PhantomData<MODE>,
}

impl<MODE: LedMode> Readings<MODE> {
    /// The six potentials: LED1, LED2, first ambient, second ambient or LED3, LED1 minus the
    /// first ambient, LED2 minus the second ambient.
    pub closed spec fn values(&self) -> Seq<int> {
        seq![
            self.led1 as int,
            self.led2 as int,
            self.ambient1 as int,
            self.ambient2_or_led3 as int,
            self.led1_minus_ambient1 as int,
            self.led2_minus_ambient2 as int,
        ]
    }

    pub(crate) fn from_values(v: &[i64; 6]) -> (r: Self)
        ensures
            r.values() == v@.map_values(|x: i64| x as int),
    {
        let r = Readings {
            led1: v[0],
            led2: v[1],
            ambient1: v[2],
            ambient2_or_led3: v[3],
            led1_minus_ambient1: v[4],
            led2_minus_ambient2: v[5],
            mode: core::marker::PhantomData,
        };
        assert(r.values() =~= v@.map_values(|x: i64| x as int));
        r
    }

    /// The potential of LED1, in nanovolts.
    pub fn led1(&self) -> (r: i64)
        ensures
            r == self.values()[0],
    {
        self.led1
    }

    /// The potential of LED2, in nanovolts.
    pub fn led2(&self) -> (r: i64)
        ensures
            r == self.values()[1],
    {
        self.led2
    }
}

impl Readings<ThreeLedsMode> {
    /// The potential of LED3, in nanovolts.
    pub fn led3(&self) -> (r: i64)
        ensures
            r == self.values()[3],
    {
        self.ambient2_or_led3
    }

    /// The ambient potential, in nanovolts.
    pub fn ambient(&self) -> (r: i64)
        ensures
            r == self.values()[2],
    {
        self.ambient1
    }

    /// LED1 minus the ambient, in nanovolts.
    pub fn led1_minus_ambient(&self) -> (r: i64)
        ensures
            r == self.values()[4],
    {
        self.led1_minus_ambient1
    }
}

impl Readings<TwoLedsMode> {
    /// The potential of the first ambient phase, in nanovolts.
    pub fn ambient1(&self) -> (r: i64)
        ensures
            r == self.values()[2],
    {
        self.ambient1
    }

    /// The potential of the second ambient phase, in nanovolts.
    pub fn ambient2(&self) -> (r: i64)
        ensures
            r == self.values()[3],
    {
        self.ambient2_or_led3
    }

    /// LED1 minus the first ambient, in nanovolts.
    pub fn led1_minus_ambient1(&self) -> (r: i64)
        ensures
            r == self.values()[4],
    {
        self.led1_minus_ambient1
    }

    /// LED2 minus the second ambient, in nanovolts.
    pub fn led2_minus_ambient2(&self) -> (r: i64)
        ensures
            r == self.values()[5],
    {
        self.led2_minus_ambient2
    }
}

} // verus!

verus! {

/// The six potentials that the result registers 2Ah to 2Fh, listed in address order, stand
/// for: LED1 from 2Ch, LED2 from 2Ah, the first ambient from 2Dh, the second ambient or LED3
/// from 2Bh, LED1 minus the first ambient from 2Fh, LED2 minus the second ambient from 2Eh.
/// `None` when one of them saturated.
pub open spec fn readings_of_registers(regs: Seq<u32>) -> Option<Seq<int>> {
    let p = |i: int| potential_of_reading(regs[i] as int);
    if p(0) is Some && p(1) is Some && p(2) is Some && p(3) is Some && p(4) is Some && p(5) is Some {
        Some(seq![p(2)->0, p(0)->0, p(3)->0, p(1)->0, p(5)->0, p(4)->0])
    } else {
        None
    }
}

fn decode_or_fail<E>(raw: u32) -> (r: Result<i64, AfeError<E>>)
    ensures
        r matches Ok(p) ==> potential_of_reading(raw as int) == Some(p as int),
        r matches Err(e) ==> e is AdcReadingOutsideAllowedRange,
        r is Err <==> potential_of_reading(raw as int) is None,
{
    match decode_reading(raw) {
        Some(p) => Ok(p),
        None => Err(AfeError::AdcReadingOutsideAllowedRange),
    }
}

impl<B: I2cBus, MODE: LedMode> AFE4404<B, MODE> {
    /// Reads the six results of the last window: LED1, LED2, the first ambient, the second
    /// ambient or LED3, and the two differences LED minus ambient. A result that saturated past
    /// full scale makes the whole reading fail.
    pub fn read(&mut self) -> (r: Result<Readings<MODE>, AfeError<B::Error>>)
        ensures
            final(self).same_device(old(self)),
            r matches Err(e) ==> (e is AdcReadingOutsideAllowedRange || is_bus_error(e)),
            exists|answers: Seq<Seq<u8>>|
                #[trigger] exchanged(
                    old(self).log(),
                    final(self).log(),
                    old(self).address_spec(),
                    result_registers(),
                    answers,
                    Seq::empty(),
                    finished(r),
                ) && (r matches Ok(rd) ==> readings_of_registers(values(answers)) == Some(rd.values()))
                && ((r matches Err(e) && e is AdcReadingOutsideAllowedRange) ==> readings_of_registers(values(answers)) is None),
    {
        let ghost before = self.log();
        let ghost address = self.address_spec();
        let regs_read = vec![0x2Au8, 0x2B, 0x2C, 0x2D, 0x2E, 0x2F];
        assert(regs_read@ =~= result_registers());
        let (res, got) = self.read_regs(&regs_read);
        let ghost answers = got@;
        let vals = match res {
            Ok(v) => v,
            Err(e) => {
                let r = Err(e);
                assert(exchanged(before, self.log(), address, regs_read@, answers, Seq::empty(), finished(r)));
                return r;
            },
        };
        let r2a = vals[0];
        let r2b = vals[1];
        let r2c = vals[2];
        let r2d = vals[3];
        let r2e = vals[4];
        let r2f = vals[5];
        let ghost regs = seq![r2a, r2b, r2c, r2d, r2e, r2f];
        let led1 = decode_reading(r2c);
        let led2 = decode_reading(r2a);
        let ambient1 = decode_reading(r2d);
        let ambient2_or_led3 = decode_reading(r2b);
        let led1_minus_ambient1 = decode_reading(r2f);
        let led2_minus_ambient2 = decode_reading(r2e);
        if led1.is_none() || led2.is_none() || ambient1.is_none() || ambient2_or_led3.is_none()
            || led1_minus_ambient1.is_none() || led2_minus_ambient2.is_none() {
            assert(readings_of_registers(regs) is None);
            assert(regs =~= values(answers));
            let r = Err(AfeError::AdcReadingOutsideAllowedRange);
            assert(exchanged(before, self.log(), address, regs_read@, answers, Seq::empty(), finished(r)));
            return r;
        }
        let led1 = led1.unwrap();
        let led2 = led2.unwrap();
        let ambient1 = ambient1.unwrap();
        let ambient2_or_led3 = ambient2_or_led3.unwrap();
        let led1_minus_ambient1 = led1_minus_ambient1.unwrap();
        let led2_minus_ambient2 = led2_minus_ambient2.unwrap();
        let rd = Readings::from_values(
            &[led1, led2, ambient1, ambient2_or_led3, led1_minus_ambient1, led2_minus_ambient2],
        );
        assert(readings_of_registers(regs) == Some(rd.values())) by {
            assert(readings_of_registers(regs)->0 =~= rd.values());
        }
        assert(regs =~= values(answers));
        let r = Ok(rd);
        assert(exchanged(before, self.log(), address, regs_read@, answers, Seq::empty(), finished(r)));
        r
    }
}

} // verus!

verus! {

impl<B: I2cBus, MODE: LedMode> AFE4404<B, MODE> {
    /// Reads the result register at `reg_addr` and decodes it into nanovolts.
    fn read_potential(&mut self, reg_addr: u8) -> (r: Result<i64, AfeError<B::Error>>)
        ensures
            final(self).same_device(old(self)),
            r matches Err(e) ==> (e is AdcReadingOutsideAllowedRange || is_bus_error(e)),
            exists|answers: Seq<Seq<u8>>|
                #[trigger] exchanged(
                    old(self).log(),
                    final(self).log(),
                    old(self).address_spec(),
                    one_reg(reg_addr),
                    answers,
                    Seq::empty(),
                    finished(r),
                ) && (r matches Ok(p) ==> potential_of_reading(values(answers)[0] as int) == Some(p as int))
                && ((r matches Err(e) && e is AdcReadingOutsideAllowedRange) ==> potential_of_reading(
                    values(answers)[0] as int,
                ) is None),
    {
        let ghost before = self.log();
        let ghost address = self.address_spec();
        let regs = vec![reg_addr];
        assert(regs@ =~= one_reg(reg_addr));
        let (res, got) = self.read_regs(&regs);
        let ghost answers = got@;
        let r = match res {
            Ok(vals) => decode_or_fail(vals[0]),
            Err(e) => Err(e),
        };
        assert(exchanged(before, self.log(), address, regs@, answers, Seq::empty(), finished(r)));
        r
    }

    /// Reads the LED1 result, in nanovolts.
    pub fn read_led1(&mut self) -> (r: Result<i64, AfeError<B::Error>>)
        ensures
            final(self).same_device(old(self)),
            r matches Err(e) ==> (e is AdcReadingOutsideAllowedRange || is_bus_error(e)),
            exists|answers: Seq<Seq<u8>>|
                #[trigger] exchanged(
                    old(self).log(),
                    final(self).log(),
                    old(self).address_spec(),
                    one_reg(0x2Cu8),
                    answers,
                    Seq::empty(),
                    finished(r),
                ) && (r matches Ok(p) ==> potential_of_reading(values(answers)[0] as int) == Some(p as int))
                && ((r matches Err(e) && e is AdcReadingOutsideAllowedRange) ==> potential_of_reading(
                    values(answers)[0] as int,
                ) is None),
    {
        self.read_potential(0x2C)
    }

    /// Reads the LED2 result, in nanovolts.
    pub fn read_led2(&mut self) -> (r: Result<i64, AfeError<B::Error>>)
        ensures
            final(self).same_device(old(self)),
            r matches Err(e) ==> (e is AdcReadingOutsideAllowedRange || is_bus_error(e)),
            exists|answers: Seq<Seq<u8>>|
                #[trigger] exchanged(
                    old(self).log(),
                    final(self).log(),
                    old(self).address_spec(),
                    one_reg(0x2Au8),
                    answers,
                    Seq::empty(),
                    finished(r),
                ) && (r matches Ok(p) ==> potential_of_reading(values(answers)[0] as int) == Some(p as int))
                && ((r matches Err(e) && e is AdcReadingOutsideAllowedRange) ==> potential_of_reading(
                    values(answers)[0] as int,
                ) is None),
    {
        self.read_potential(0x2A)
    }
}

impl<B: I2cBus> AFE4404<B, ThreeLedsMode> {
    /// Reads the LED3 result, in nanovolts.
    pub fn read_led3(&mut self) -> (r: Result<i64, AfeError<B::Error>>)
        ensures
            final(self).same_device(old(self)),
            r matches Err(e) ==> (e is AdcReadingOutsideAllowedRange || is_bus_error(e)),
            exists|answers: Seq<Seq<u8>>|
                #[trigger] exchanged(
                    old(self).log(),
                    final(self).log(),
                    old(self).address_spec(),
                    one_reg(0x2Bu8),
                    answers,
                    Seq::empty(),
                    finished(r),
                ) && (r matches Ok(p) ==> potential_of_reading(values(answers)[0] as int) == Some(p as int))
                && ((r matches Err(e) && e is AdcReadingOutsideAllowedRange) ==> potential_of_reading(
                    values(answers)[0] as int,
                ) is None),
    {
        self.read_potential(0x2B)
    }

    /// Reads the ambient result, in nanovolts.
    pub fn read_ambient(&mut self) -> (r: Result<i64, AfeError<B::Error>>)
        ensures
            final(self).same_device(old(self)),
            r matches Err(e) ==> (e is AdcReadingOutsideAllowedRange || is_bus_error(e)),
            exists|answers: Seq<Seq<u8>>|
                #[trigger] exchanged(
                    old(self).log(),
                    final(self).log(),
                    old(self).address_spec(),
                    one_reg(0x2Du8),
                    answers,
                    Seq::empty(),
                    finished(r),
                ) && (r matches Ok(p) ==> potential_of_reading(values(answers)[0] as int) == Some(p as int))
                && ((r matches Err(e) && e is AdcReadingOutsideAllowedRange) ==> potential_of_reading(
                    values(answers)[0] as int,
                ) is None),
    {
        self.read_potential(0x2D)
    }

    /// Reads LED1 minus the ambient, in nanovolts.
    pub fn read_led1_minus_ambient(&mut self) -> (r: Result<i64, AfeError<B::Error>>)
        ensures
            final(self).same_device(old(self)),
            r matches Err(e) ==> (e is AdcReadingOutsideAllowedRange || is_bus_error(e)),
            exists|answers: Seq<Seq<u8>>|
                #[trigger] exchanged(
                    old(self).log(),
                    final(self).log(),
                    old(self).address_spec(),
                    one_reg(0x2Fu8),
                    answers,
                    Seq::empty(),
                    finished(r),
                ) && (r matches Ok(p) ==> potential_of_reading(values(answers)[0] as int) == Some(p as int))
                && ((r matches Err(e) && e is AdcReadingOutsideAllowedRange) ==> potential_of_reading(
                    values(answers)[0] as int,
                ) is None),
    {
        self.read_potential(0x2F)
    }

    /// Reads LED1 minus the ambient averaged over the decimation factor, in nanovolts.
    pub fn read_averaged_led1_minus_ambient(&mut self) -> (r: Result<i64, AfeError<B::Error>>)
        ensures
            final(self).same_device(old(self)),
            r matches Err(e) ==> (e is AdcReadingOutsideAllowedRange || is_bus_error(e)),
            exists|answers: Seq<Seq<u8>>|
                #[trigger] exchanged(
                    old(self).log(),
                    final(self).log(),
                    old(self).address_spec(),
                    one_reg(0x40u8),
                    answers,
                    Seq::empty(),
                    finished(r),
                ) && (r matches Ok(p) ==> potential_of_reading(values(answers)[0] as int) == Some(p as int))
                && ((r matches Err(e) && e is AdcReadingOutsideAllowedRange) ==> potential_of_reading(
                    values(answers)[0] as int,
                ) is None),
    {
        self.read_potential(0x40)
    }
}

impl<B: I2cBus> AFE4404<B, TwoLedsMode> {
    /// Reads the result of the first ambient phase, in nanovolts.
    pub fn read_ambient1(&mut self) -> (r: Result<i64, AfeError<B::Error>>)
        ensures
            final(self).same_device(old(self)),
            r matches Err(e) ==> (e is AdcReadingOutsideAllowedRange || is_bus_error(e)),
            exists|answers: Seq<Seq<u8>>|
                #[trigger] exchanged(
                    old(self).log(),
                    final(self).log(),
                    old(self).address_spec(),
                    one_reg(0x2Du8),
                    answers,
                    Seq::empty(),
                    finished(r),
                ) && (r matches Ok(p) ==> potential_of_reading(values(answers)[0] as int) == Some(p as int))
                && ((r matches Err(e) && e is AdcReadingOutsideAllowedRange) ==> potential_of_reading(
                    values(answers)[0] as int,
                ) is None),
    {
        self.read_potential(0x2D)
    }

    /// Reads the result of the second ambient phase, in nanovolts.
    pub fn read_ambient2(&mut self) -> (r: Result<i64, AfeError<B::Error>>)
        ensures
            final(self).same_device(old(self)),
            r matches Err(e) ==> (e is AdcReadingOutsideAllowedRange || is_bus_error(e)),
            exists|answers: Seq<Seq<u8>>|
                #[trigger] exchanged(
                    old(self).log(),
                    final(self).log(),
                    old(self).address_spec(),
                    one_reg(0x2Bu8),
                    answers,
                    Seq::empty(),
                    finished(r),
                ) && (r matches Ok(p) ==> potential_of_reading(values(answers)[0] as int) == Some(p as int))
                && ((r matches Err(e) && e is AdcReadingOutsideAllowedRange) ==> potential_of_reading(
                    values(answers)[0] as int,
                ) is None),
    {
        self.read_potential(0x2B)
    }

    /// Reads LED1 minus the first ambient, in nanovolts.
    pub fn read_led1_minus_ambient1(&mut self) -> (r: Result<i64, AfeError<B::Error>>)
        ensures
            final(self).same_device(old(self)),
            r matches Err(e) ==> (e is AdcReadingOutsideAllowedRange || is_bus_error(e)),
            exists|answers: Seq<Seq<u8>>|
                #[trigger] exchanged(
                    old(self).log(),
                    final(self).log(),
                    old(self).address_spec(),
                    one_reg(0x2Fu8),
                    answers,
                    Seq::empty(),
                    finished(r),
                ) && (r matches Ok(p) ==> potential_of_reading(values(answers)[0] as int) == Some(p as int))
                && ((r matches Err(e) && e is AdcReadingOutsideAllowedRange) ==> potential_of_reading(
                    values(answers)[0] as int,
                ) is None),
    {
        self.read_potential(0x2F)
    }

    /// Reads LED2 minus the second ambient, in nanovolts.
    pub fn read_led2_minus_ambient2(&mut self) -> (r: Result<i64, AfeError<B::Error>>)
        ensures
            final(self).same_device(old(self)),
            r matches Err(e) ==> (e is AdcReadingOutsideAllowedRange || is_bus_error(e)),
            exists|answers: Seq<Seq<u8>>|
                #[trigger] exchanged(
                    old(self).log(),
                    final(self).log(),
                    old(self).address_spec(),
                    one_reg(0x2Eu8),
                    answers,
                    Seq::empty(),
                    finished(r),
                ) && (r matches Ok(p) ==> potential_of_reading(values(answers)[0] as int) == Some(p as int))
                && ((r matches Err(e) && e is AdcReadingOutsideAllowedRange) ==> potential_of_reading(
                    values(answers)[0] as int,
                ) is None),
    {
        self.read_potential(0x2E)
    }

    /// Reads LED1 minus the first ambient averaged over the decimation factor, in nanovolts.
    pub fn read_averaged_led1_minus_ambient1(&mut self) -> (r: Result<i64, AfeError<B::Error>>)
        ensures
            final(self).same_device(old(self)),
            r matches Err(e) ==> (e is AdcReadingOutsideAllowedRange || is_bus_error(e)),
            exists|answers: Seq<Seq<u8>>|
                #[trigger] exchanged(
                    old(self).log(),
                    final(self).log(),
                    old(self).address_spec(),
                    one_reg(0x40u8),
                    answers,
                    Seq::empty(),
                    finished(r),
                ) && (r matches Ok(p) ==> potential_of_reading(values(answers)[0] as int) == Some(p as int))
                && ((r matches Err(e) && e is AdcReadingOutsideAllowedRange) ==> potential_of_reading(
                    values(answers)[0] as int,
                ) is None),
    {
        self.read_potential(0x40)
    }

    /// Reads LED2 minus the second ambient averaged over the decimation factor, in nanovolts.
    pub fn read_averaged_led2_minus_ambient2(&mut self) -> (r: Result<i64, AfeError<B::Error>>)
        ensures
            final(self).same_device(old(self)),
            r matches Err(e) ==> (e is AdcReadingOutsideAllowedRange || is_bus_error(e)),
            exists|answers: Seq<Seq<u8>>|
                #[trigger] exchanged(
                    old(self).log(),
                    final(self).log(),
                    old(self).address_spec(),
                    one_reg(0x3Fu8),
                    answers,
                    Seq::empty(),
                    finished(r),
                ) && (r matches Ok(p) ==> potential_of_reading(values(answers)[0] as int) == Some(p as int))
                && ((r matches Err(e) && e is AdcReadingOutsideAllowedRange) ==> potential_of_reading(
                    values(answers)[0] as int,
                ) is None),
    {
        self.read_potential(0x3F)
    }
}

} // verus!
