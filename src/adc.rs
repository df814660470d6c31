//! ADC averaging and decimation.
use vstd::prelude::*;

use crate::device::{
    exchanged, finished, is_bus_error, lemma_exchange, lemma_exchange_writes, one_reg, values, AFE4404,
};
use crate::error::AfeError;
use crate::modes::LedMode;
use crate::register::{field, get_field, set_field, with_field, I2cBus};

verus! {

/// Offset of the NUMAV field of register 1Eh.
pub const NUMAV_OFFSET: u32 = 0;

/// Offset of the DEC_EN bit of register 3Dh.
pub const DEC_EN_OFFSET: u32 = 5;

/// Offset of the DEC_FACTOR field of register 3Dh.
pub const DEC_FACTOR_OFFSET: u32 = 1;

/// Whether a number of averages is accepted: 1 to 16.
pub open spec fn averages_in_range(n: int) -> bool {
    1 <= n <= 16
}

/// The DEC_FACTOR code of a decimation factor of {1, 2, 4, 8, 16}.
pub open spec fn decimation_code(factor: int) -> Option<int> {
    if factor == 1 {
        Some(0)
    } else if factor == 2 {
        Some(1)
    } else if factor == 4 {
        Some(2)
    } else if factor == 8 {
        Some(3)
    } else if factor == 16 {
        Some(4)
    } else {
        None
    }
}

/// The decimation factor of a DEC_FACTOR code; the codes above 4 have none.
pub open spec fn decimation_of_code(code: int) -> Option<int> {
    if 0 <= code <= 4 {
        Some(if code == 0 {
            1
        } else if code == 1 {
            2
        } else if code == 2 {
            4
        } else if code == 3 {
            8
        } else {
            16
        })
    } else {
        None
    }
}

/// The DEC_FACTOR code of a decimation factor, if it has one.
pub fn decimation_code_of(factor: u8) -> (r: Option<u8>)
    ensures
        r is None <==> decimation_code(factor as int) is None,
        r matches Some(c) ==> decimation_code(factor as int) == Some(c as int) && c <= 4,
{
    match factor {
        1 => Some(0),
        2 => Some(1),
        4 => Some(2),
        8 => Some(3),
        16 => Some(4),
        _ => None,
    }
}

/// The decimation factor of a DEC_FACTOR code, if it has one.
pub fn decimation_from_code(code: u32) -> (r: Option<u8>)
    ensures
        r is None <==> decimation_of_code(code as int) is None,
        r matches Some(f) ==> decimation_of_code(code as int) == Some(f as int),
{
    match code {
        0 => Some(1),
        1 => Some(2),
        2 => Some(4),
        3 => Some(8),
        4 => Some(16),
        _ => None,
    }
}

/// Every decimation factor that has a code gets itself back from that code.
pub proof fn lemma_decimation_round_trip(factor: int)
    requires
        decimation_code(factor) is Some,
    ensures
        decimation_of_code(decimation_code(factor)->0) == Some(factor),
{
}

} // verus!

verus! {

/// Register 1Eh with NUMAV set for `averages` averages, its other bits kept.
pub fn averaging_register(r1eh: u32, averages: u8) -> (r: u32)
    requires
        r1eh <= crate::register::REGISTER_MAX,
        averages_in_range(averages as int),
    ensures
        r == with_field(r1eh, NUMAV_OFFSET, 4, (averages - 1) as u32),
        field(r, NUMAV_OFFSET, 4) == averages - 1,
        r <= crate::register::REGISTER_MAX,
{
    proof {
        crate::register::lemma_low_mask_values();
    }
    set_field(r1eh, NUMAV_OFFSET, 4, (averages - 1) as u32)
}

/// Register 3Dh for a decimation code: DEC_EN set when the factor is not 1, DEC_FACTOR the code.
pub fn decimation_register(code: u8) -> (r: u32)
    requires
        code <= 4,
    ensures
        r == with_field(with_field(0, DEC_EN_OFFSET, 1, if code != 0 { 1 } else { 0 }), DEC_FACTOR_OFFSET, 3, code as u32),
        field(r, DEC_FACTOR_OFFSET, 3) == code,
        field(r, DEC_EN_OFFSET, 1) == (if code != 0 { 1u32 } else { 0u32 }),
        r <= crate::register::REGISTER_MAX,
{
    proof {
        crate::register::lemma_low_mask_values();
    }
    let enable: u32 = if code != 0 {
        1
    } else {
        0
    };
    let v = set_field(0, DEC_EN_OFFSET, 1, enable);
    proof {
        crate::register::lemma_field_of_other(v, DEC_FACTOR_OFFSET, 3, code as u32, DEC_EN_OFFSET, 1);
    }
    set_field(v, DEC_FACTOR_OFFSET, 3, code as u32)
}

/// The value of register 3Dh for a decimation code.
pub open spec fn decimation_register_spec(code: int) -> u32 {
    with_field(with_field(0, DEC_EN_OFFSET, 1, if code != 0 { 1 } else { 0 }), DEC_FACTOR_OFFSET, 3, code as u32)
}

impl<B: I2cBus, MODE: LedMode> AFE4404<B, MODE> {
    /// Sets the number of ADC averages, 1 to 16: register 1Eh is read and written back with
    /// NUMAV set to the number less one. Another number is refused before any bus transfer.
    pub fn set_averaging(&mut self, averages: u8) -> (r: Result<u8, AfeError<B::Error>>)
        ensures
            final(self).same_device(old(self)),
            !averages_in_range(averages as int) ==> r == Err::<u8, AfeError<B::Error>>(
                AfeError::NumberOfAveragesOutsideAllowedRange,
            ) && *final(self) == *old(self),
            r matches Ok(n) ==> n == averages,
            (r matches Err(e) && e is NumberOfAveragesOutsideAllowedRange) ==> !averages_in_range(averages as int),
            r matches Err(e) ==> (e is NumberOfAveragesOutsideAllowedRange || is_bus_error(e)),
            (r is Ok || (r matches Err(e) && is_bus_error(e))) ==> exists|answers: Seq<Seq<u8>>|
                #[trigger] exchanged(
                    old(self).log(),
                    final(self).log(),
                    old(self).address_spec(),
                    one_reg(0x1Eu8),
                    answers,
                    seq![(0x1Eu8, with_field(values(answers)[0], NUMAV_OFFSET, 4, (averages - 1) as u32))],
                    r is Ok,
                ),
    {
        if averages < 1 || averages > 16 {
            return Err(AfeError::NumberOfAveragesOutsideAllowedRange);
        }
        let ghost before = self.log();
        let ghost address = self.address_spec();
        let regs = vec![0x1Eu8];
        assert(regs@ =~= one_reg(0x1Eu8));
        let (res, got) = self.read_regs(&regs);
        let ghost answers = got@;
        let ghost target = seq![(0x1Eu8, with_field(values(answers)[0], NUMAV_OFFSET, 4, (averages - 1) as u32))];
        let vals = match res {
            Ok(v) => v,
            Err(e) => {
                assert(exchanged(before, self.log(), address, regs@, answers, target, false));
                return Err(e);
            },
        };
        let mut writes: Vec<(u8, u32)> = Vec::new();
        writes.push((0x1E, averaging_register(vals[0], averages)));
        assert(writes@ =~= target);
        let ghost mid = self.log();
        let wr = self.run_writes(&writes);
        proof {
            lemma_exchange(before, mid, self.log(), address, regs@, answers, writes@, wr is Ok);
        }
        match wr {
            Ok(()) => Ok(averages),
            Err(e) => Err(e),
        }
    }

    /// Gets the number of ADC averages: NUMAV of register 1Eh, plus one.
    pub fn get_averaging(&mut self) -> (r: Result<u8, AfeError<B::Error>>)
        ensures
            final(self).same_device(old(self)),
            r matches Err(e) ==> is_bus_error(e),
            exists|answers: Seq<Seq<u8>>|
                #[trigger] exchanged(
                    old(self).log(),
                    final(self).log(),
                    old(self).address_spec(),
                    one_reg(0x1Eu8),
                    answers,
                    Seq::empty(),
                    finished(r),
                ) && (r matches Ok(n) ==> n == field(values(answers)[0], NUMAV_OFFSET, 4) + 1),
    {
        proof {
            crate::register::lemma_low_mask_values();
        }
        let ghost before = self.log();
        let ghost address = self.address_spec();
        let regs = vec![0x1Eu8];
        assert(regs@ =~= one_reg(0x1Eu8));
        let (res, got) = self.read_regs(&regs);
        let ghost answers = got@;
        let r = match res {
            Ok(vals) => Ok((get_field(vals[0], NUMAV_OFFSET, 4) + 1) as u8),
            Err(e) => Err(e),
        };
        assert(exchanged(before, self.log(), address, regs@, answers, Seq::empty(), finished(r)));
        r
    }

    /// Sets the decimation factor, one of 1, 2, 4, 8 and 16: register 3Dh is written with
    /// DEC_EN set when the factor is not 1 and DEC_FACTOR its code. Another factor is refused
    /// before any bus transfer.
    pub fn set_decimation(&mut self, decimation_factor: u8) -> (r: Result<u8, AfeError<B::Error>>)
        ensures
            final(self).same_device(old(self)),
            decimation_code(decimation_factor as int) is None ==> r == Err::<u8, AfeError<B::Error>>(
                AfeError::DecimationFactorOutsideAllowedRange,
            ) && *final(self) == *old(self),
            r matches Ok(f) ==> f == decimation_factor,
            (r matches Err(e) && e is DecimationFactorOutsideAllowedRange) ==> decimation_code(
                decimation_factor as int,
            ) is None,
            r matches Err(e) ==> (e is DecimationFactorOutsideAllowedRange || is_bus_error(e)),
            (r is Ok || (r matches Err(e) && is_bus_error(e))) ==> exchanged(
                old(self).log(),
                final(self).log(),
                old(self).address_spec(),
                Seq::empty(),
                Seq::empty(),
                seq![(0x3Du8, decimation_register_spec(decimation_code(decimation_factor as int)->0))],
                r is Ok,
            ),
    {
        let code = match decimation_code_of(decimation_factor) {
            Some(c) => c,
            None => {
                return Err(AfeError::DecimationFactorOutsideAllowedRange);
            },
        };
        let ghost before = self.log();
        let mut writes: Vec<(u8, u32)> = Vec::new();
        writes.push((0x3D, decimation_register(code)));
        assert(writes@ =~= seq![(0x3Du8, decimation_register_spec(decimation_code(decimation_factor as int)->0))]);
        let wr = self.run_writes(&writes);
        proof {
            lemma_exchange_writes(before, self.log(), self.address_spec(), writes@, wr is Ok);
        }
        match wr {
            Ok(()) => Ok(decimation_factor),
            Err(e) => Err(e),
        }
    }

    /// Gets the decimation factor from DEC_FACTOR of register 3Dh.
    pub fn get_decimation(&mut self) -> (r: Result<u8, AfeError<B::Error>>)
        ensures
            final(self).same_device(old(self)),
            r matches Err(e) ==> (e == AfeError::<B::Error>::InvalidRegisterValue { reg_addr: 0x3D }
                || is_bus_error(e)),
            exists|answers: Seq<Seq<u8>>|
                #[trigger] exchanged(
                    old(self).log(),
                    final(self).log(),
                    old(self).address_spec(),
                    one_reg(0x3Du8),
                    answers,
                    Seq::empty(),
                    finished(r),
                ) && (r matches Ok(f) ==> decimation_of_code(field(values(answers)[0], DEC_FACTOR_OFFSET, 3) as int)
                    == Some(f as int)) && ((r matches Err(e) && !is_bus_error(e)) ==> decimation_of_code(
                    field(values(answers)[0], DEC_FACTOR_OFFSET, 3) as int,
                ) is None),
    {
        let ghost before = self.log();
        let ghost address = self.address_spec();
        let regs = vec![0x3Du8];
        assert(regs@ =~= one_reg(0x3Du8));
        let (res, got) = self.read_regs(&regs);
        let ghost answers = got@;
        let r = match res {
            Ok(vals) => match decimation_from_code(get_field(vals[0], DEC_FACTOR_OFFSET, 3)) {
                Some(f) => Ok(f),
                None => Err(AfeError::InvalidRegisterValue { reg_addr: 0x3D }),
            },
            Err(e) => Err(e),
        };
        assert(exchanged(before, self.log(), address, regs@, answers, Seq::empty(), finished(r)));
        r
    }
}

} // verus!
