//! Gain resistors and feedback capacitors of the trans-impedance amplifier.
use vstd::prelude::*;

use crate::device::{
    exchanged, finished, is_bus_error, lemma_exchange, one_reg, two_regs, values, AFE4404,
};
use crate::error::AfeError;
use crate::modes::LedMode;
use crate::register::I2cBus;
use crate::register::{field, get_field, set_field, with_field, REGISTER_MAX};

verus! {

/// Offset of the ENSEPGAIN bit of register 20h.
pub const ENSEPGAIN_OFFSET: u32 = 15;

/// Offset of the capacitor fields (TIA_CF_SEP, TIA_CF) of registers 20h and 21h.
pub const CF_OFFSET: u32 = 3;

/// Offset of the resistor fields (TIA_GAIN_SEP, TIA_GAIN) of registers 20h and 21h.
pub const GAIN_OFFSET: u32 = 0;

/// The catalog resistor, in ohms, and its register code, that a requested resistance selects:
/// each catalog value covers the resistances from the half-way point below it up to the
/// half-way point above it; below 10 kΩ or above 2 MΩ there is none.
pub open spec fn resistor_bucket(r: int) -> Option<(int, int)> {
    if r < 10_000 {
        None
    } else if r < 18_000 {
        Some((10_000, 5))
    } else if r < 38_000 {
        Some((25_000, 4))
    } else if r < 75_000 {
        Some((50_000, 3))
    } else if r < 175_000 {
        Some((100_000, 2))
    } else if r < 375_000 {
        Some((250_000, 1))
    } else if r < 750_000 {
        Some((500_000, 0))
    } else if r < 1_500_000 {
        Some((1_000_000, 6))
    } else if r <= 2_000_000 {
        Some((2_000_000, 7))
    } else {
        None
    }
}

/// The resistor, in ohms, that a register code selects.
pub open spec fn resistor_of_code(code: int) -> int {
    if code == 0 {
        500_000
    } else if code == 1 {
        250_000
    } else if code == 2 {
        100_000
    } else if code == 3 {
        50_000
    } else if code == 4 {
        25_000
    } else if code == 5 {
        10_000
    } else if code == 6 {
        1_000_000
    } else {
        2_000_000
    }
}

/// The catalog capacitor, in femtofarads, and its register code, that a requested capacitance
/// selects; below 2.5 pF or above 25 pF there is none.
pub open spec fn capacitor_bucket(c: int) -> Option<(int, int)> {
    if c < 2_500 {
        None
    } else if c < 3_750 {
        Some((2_500, 1))
    } else if c < 6_250 {
        Some((5_000, 0))
    } else if c < 8_750 {
        Some((7_500, 3))
    } else if c < 13_750 {
        Some((10_000, 2))
    } else if c < 18_750 {
        Some((17_500, 5))
    } else if c < 21_250 {
        Some((20_000, 4))
    } else if c < 23_750 {
        Some((22_500, 7))
    } else if c <= 25_000 {
        Some((25_000, 6))
    } else {
        None
    }
}

/// The capacitor, in femtofarads, that a register code selects.
pub open spec fn capacitor_of_code(code: int) -> int {
    if code == 0 {
        5_000
    } else if code == 1 {
        2_500
    } else if code == 2 {
        10_000
    } else if code == 3 {
        7_500
    } else if code == 4 {
        20_000
    } else if code == 5 {
        17_500
    } else if code == 6 {
        25_000
    } else {
        22_500
    }
}

/// Selects the catalog resistor for a requested resistance in ohms: its value and its code.
pub fn resistor_code(r: i64) -> (res: Option<(i64, u8)>)
    ensures
        res is None <==> resistor_bucket(r as int) is None,
        res matches Some(p) ==> resistor_bucket(r as int) == Some((p.0 as int, p.1 as int)),
        res matches Some(p) ==> p.1 <= 7 && p.0 == resistor_of_code(p.1 as int),
{
    if r < 10_000 {
        None
    } else if r < 18_000 {
        Some((10_000, 5))
    } else if r < 38_000 {
        Some((25_000, 4))
    } else if r < 75_000 {
        Some((50_000, 3))
    } else if r < 175_000 {
        Some((100_000, 2))
    } else if r < 375_000 {
        Some((250_000, 1))
    } else if r < 750_000 {
        Some((500_000, 0))
    } else if r < 1_500_000 {
        Some((1_000_000, 6))
    } else if r <= 2_000_000 {
        Some((2_000_000, 7))
    } else {
        None
    }
}

/// The resistor, in ohms, that a register code selects.
pub fn resistor_from_code(code: u8) -> (r: i64)
    requires
        code <= 7,
    ensures
        r == resistor_of_code(code as int),
{
    match code {
        0 => 500_000,
        1 => 250_000,
        2 => 100_000,
        3 => 50_000,
        4 => 25_000,
        5 => 10_000,
        6 => 1_000_000,
        _ => 2_000_000,
    }
}

/// Selects the catalog capacitor for a requested capacitance in femtofarads: its value and its
/// code.
pub fn capacitor_code(c: i64) -> (res: Option<(i64, u8)>)
    ensures
        res is None <==> capacitor_bucket(c as int) is None,
        res matches Some(p) ==> capacitor_bucket(c as int) == Some((p.0 as int, p.1 as int)),
        res matches Some(p) ==> p.1 <= 7 && p.0 == capacitor_of_code(p.1 as int),
{
    if c < 2_500 {
        None
    } else if c < 3_750 {
        Some((2_500, 1))
    } else if c < 6_250 {
        Some((5_000, 0))
    } else if c < 8_750 {
        Some((7_500, 3))
    } else if c < 13_750 {
        Some((10_000, 2))
    } else if c < 18_750 {
        Some((17_500, 5))
    } else if c < 21_250 {
        Some((20_000, 4))
    } else if c < 23_750 {
        Some((22_500, 7))
    } else if c <= 25_000 {
        Some((25_000, 6))
    } else {
        None
    }
}

/// The capacitor, in femtofarads, that a register code selects.
pub fn capacitor_from_code(code: u8) -> (c: i64)
    requires
        code <= 7,
    ensures
        c == capacitor_of_code(code as int),
{
    match code {
        0 => 5_000,
        1 => 2_500,
        2 => 10_000,
        3 => 7_500,
        4 => 20_000,
        5 => 17_500,
        6 => 25_000,
        _ => 22_500,
    }
}

/// Registers 20h and 21h after the two resistor codes are written: the first resistor goes to
/// TIA_GAIN of 21h, the second to TIA_GAIN_SEP of 20h, and the separate-gain bit is set when the
/// two resistors or the two capacitors differ.
pub open spec fn resistor_registers(r20h: u32, r21h: u32, code1: u32, code2: u32) -> (u32, u32) {
    let separate = code1 != code2 || field(r21h, CF_OFFSET, 3) != field(r20h, CF_OFFSET, 3);
    (
        with_field(
            with_field(r20h, ENSEPGAIN_OFFSET, 1, if separate { 1 } else { 0 }),
            GAIN_OFFSET,
            3,
            code2,
        ),
        with_field(r21h, GAIN_OFFSET, 3, code1),
    )
}

/// Registers 20h and 21h after the two capacitor codes are written: the first capacitor goes to
/// TIA_CF of 21h, the second to TIA_CF_SEP of 20h, and the separate-gain bit is set when the two
/// capacitors or the two resistors differ.
pub open spec fn capacitor_registers(r20h: u32, r21h: u32, code1: u32, code2: u32) -> (u32, u32) {
    let separate = code1 != code2 || field(r21h, GAIN_OFFSET, 3) != field(r20h, GAIN_OFFSET, 3);
    (
        with_field(
            with_field(r20h, ENSEPGAIN_OFFSET, 1, if separate { 1 } else { 0 }),
            CF_OFFSET,
            3,
            code2,
        ),
        with_field(r21h, CF_OFFSET, 3, code1),
    )
}

/// Computes registers 20h and 21h for two resistor codes.
pub fn write_resistor_codes(r20h: u32, r21h: u32, code1: u8, code2: u8) -> (r: (u32, u32))
    requires
        r20h <= REGISTER_MAX,
        r21h <= REGISTER_MAX,
        code1 <= 7,
        code2 <= 7,
    ensures
        r == resistor_registers(r20h, r21h, code1 as u32, code2 as u32),
        r.0 <= REGISTER_MAX && r.1 <= REGISTER_MAX,
{
    proof {
        crate::register::lemma_low_mask_values();
    }
    let separate = code1 != code2 || get_field(r21h, CF_OFFSET, 3) != get_field(r20h, CF_OFFSET, 3);
    let s: u32 = if separate {
        1
    } else {
        0
    };
    let a = set_field(r20h, ENSEPGAIN_OFFSET, 1, s);
    (set_field(a, GAIN_OFFSET, 3, code2 as u32), set_field(r21h, GAIN_OFFSET, 3, code1 as u32))
}

/// Computes registers 20h and 21h for two capacitor codes.
pub fn write_capacitor_codes(r20h: u32, r21h: u32, code1: u8, code2: u8) -> (r: (u32, u32))
    requires
        r20h <= REGISTER_MAX,
        r21h <= REGISTER_MAX,
        code1 <= 7,
        code2 <= 7,
    ensures
        r == capacitor_registers(r20h, r21h, code1 as u32, code2 as u32),
        r.0 <= REGISTER_MAX && r.1 <= REGISTER_MAX,
{
    proof {
        crate::register::lemma_low_mask_values();
    }
    let separate = code1 != code2 || get_field(r21h, GAIN_OFFSET, 3) != get_field(
        r20h,
        GAIN_OFFSET,
        3,
    );
    let s: u32 = if separate {
        1
    } else {
        0
    };
    let a = set_field(r20h, ENSEPGAIN_OFFSET, 1, s);
    (set_field(a, CF_OFFSET, 3, code2 as u32), set_field(r21h, CF_OFFSET, 3, code1 as u32))
}

/// Writing resistor codes and reading them back gives the same codes, and leaves the capacitor
/// codes as they were.
pub proof fn lemma_resistor_registers_round_trip(r20h: u32, r21h: u32, code1: u32, code2: u32)
    requires
        code1 <= 7,
        code2 <= 7,
    ensures
        ({
            let (a, b) = resistor_registers(r20h, r21h, code1, code2);
            &&& field(b, GAIN_OFFSET, 3) == code1
            &&& field(a, GAIN_OFFSET, 3) == code2
            &&& field(b, CF_OFFSET, 3) == field(r21h, CF_OFFSET, 3)
            &&& field(a, CF_OFFSET, 3) == field(r20h, CF_OFFSET, 3)
        }),
{
    crate::register::lemma_low_mask_values();
    let separate = code1 != code2 || field(r21h, CF_OFFSET, 3) != field(r20h, CF_OFFSET, 3);
    let s: u32 = if separate {
        1
    } else {
        0
    };
    let a0 = with_field(r20h, ENSEPGAIN_OFFSET, 1, s);
    crate::register::lemma_field_of_with_field(a0, GAIN_OFFSET, 3, code2);
    crate::register::lemma_field_of_with_field(r21h, GAIN_OFFSET, 3, code1);
    crate::register::lemma_field_of_other(r21h, GAIN_OFFSET, 3, code1, CF_OFFSET, 3);
    crate::register::lemma_field_of_other(a0, GAIN_OFFSET, 3, code2, CF_OFFSET, 3);
    crate::register::lemma_field_of_other(r20h, ENSEPGAIN_OFFSET, 1, s, CF_OFFSET, 3);
}

/// Writing capacitor codes and reading them back gives the same codes, and leaves the resistor
/// codes as they were.
pub proof fn lemma_capacitor_registers_round_trip(r20h: u32, r21h: u32, code1: u32, code2: u32)
    requires
        code1 <= 7,
        code2 <= 7,
    ensures
        ({
            let (a, b) = capacitor_registers(r20h, r21h, code1, code2);
            &&& field(b, CF_OFFSET, 3) == code1
            &&& field(a, CF_OFFSET, 3) == code2
            &&& field(b, GAIN_OFFSET, 3) == field(r21h, GAIN_OFFSET, 3)
            &&& field(a, GAIN_OFFSET, 3) == field(r20h, GAIN_OFFSET, 3)
        }),
{
    crate::register::lemma_low_mask_values();
    let separate = code1 != code2 || field(r21h, GAIN_OFFSET, 3) != field(r20h, GAIN_OFFSET, 3);
    let s: u32 = if separate {
        1
    } else {
        0
    };
    let a0 = with_field(r20h, ENSEPGAIN_OFFSET, 1, s);
    crate::register::lemma_field_of_with_field(a0, CF_OFFSET, 3, code2);
    crate::register::lemma_field_of_with_field(r21h, CF_OFFSET, 3, code1);
    crate::register::lemma_field_of_other(r21h, CF_OFFSET, 3, code1, GAIN_OFFSET, 3);
    crate::register::lemma_field_of_other(a0, CF_OFFSET, 3, code2, GAIN_OFFSET, 3);
    crate::register::lemma_field_of_other(r20h, ENSEPGAIN_OFFSET, 1, s, GAIN_OFFSET, 3);
}

/// The two gain resistors, in ohms.
#[derive(Debug)]
pub struct ResistorConfiguration<MODE: LedMode> {
    resistor1: i64,
    resistor2: i64,
    mode: core::marker::PhantomData<MODE>,
}

impl<MODE: LedMode> ResistorConfiguration<MODE> {
    /// The first resistor.
    pub closed spec fn resistor1_ohm(&self) -> int {
        self.resistor1 as int
    }

    /// The second resistor.
    pub closed spec fn resistor2_ohm(&self) -> int {
        self.resistor2 as int
    }

    /// A configuration of the two gain resistors, in ohms.
    pub fn new(resistor1: i64, resistor2: i64) -> (r: Self)
        ensures
            r.resistor1_ohm() == resistor1,
            r.resistor2_ohm() == resistor2,
    {
        ResistorConfiguration { resistor1, resistor2, mode: core::marker::PhantomData }
    }

    /// The first resistor, in ohms.
    pub fn resistor1(&self) -> (r: i64)
        ensures
            r == self.resistor1_ohm(),
    {
        self.resistor1
    }

    /// The second resistor, in ohms.
    pub fn resistor2(&self) -> (r: i64)
        ensures
            r == self.resistor2_ohm(),
    {
        self.resistor2
    }
}

/// The two feedback capacitors, in femtofarads.
#[derive(Debug)]
pub struct CapacitorConfiguration<MODE: LedMode> {
    capacitor1: i64,
    capacitor2: i64,
    mode: core::marker::PhantomData<MODE>,
}

impl<MODE: LedMode> CapacitorConfiguration<MODE> {
    /// The first capacitor.
    pub closed spec fn capacitor1_ff(&self) -> int {
        self.capacitor1 as int
    }

    /// The second capacitor.
    pub closed spec fn capacitor2_ff(&self) -> int {
        self.capacitor2 as int
    }

    /// A configuration of the two feedback capacitors, in femtofarads.
    pub fn new(capacitor1: i64, capacitor2: i64) -> (r: Self)
        ensures
            r.capacitor1_ff() == capacitor1,
            r.capacitor2_ff() == capacitor2,
    {
        CapacitorConfiguration { capacitor1, capacitor2, mode: core::marker::PhantomData }
    }

    /// The first capacitor, in femtofarads.
    pub fn capacitor1(&self) -> (r: i64)
        ensures
            r == self.capacitor1_ff(),
    {
        self.capacitor1
    }

    /// The second capacitor, in femtofarads.
    pub fn capacitor2(&self) -> (r: i64)
        ensures
            r == self.capacitor2_ff(),
    {
        self.capacitor2
    }
}

} // verus!

verus! {

/// Which TIA codes a write changes: both when `which` is 0, the first alone when 1, the second
/// alone when 2; the others keep the codes `old1` and `old2` that the registers held.
pub open spec fn tia_codes(which: u8, code1: u32, code2: u32, old1: u32, old2: u32) -> (u32, u32) {
    if which == 1 {
        (code1, old2)
    } else if which == 2 {
        (old1, code2)
    } else {
        (code1, code2)
    }
}

/// The register writes that set TIA codes (capacitor codes when `capacitors`, else resistor
/// codes), registers 20h and 21h having held `r20h` and `r21h`: 20h, then 21h.
pub open spec fn tia_writes(capacitors: bool, which: u8, code1: u32, code2: u32, r20h: u32, r21h: u32) -> Seq<(u8, u32)> {
    let off = if capacitors { CF_OFFSET } else { GAIN_OFFSET };
    let (c1, c2) = tia_codes(which, code1, code2, field(r21h, off, 3), field(r20h, off, 3));
    let (a, b) = if capacitors {
        capacitor_registers(r20h, r21h, c1, c2)
    } else {
        resistor_registers(r20h, r21h, c1, c2)
    };
    seq![(0x20u8, a), (0x21u8, b)]
}

/// The register code of the catalog resistor that a resistance selects (0 when none).
pub open spec fn resistor_code_spec(r: int) -> u32 {
    match resistor_bucket(r) {
        Some(p) => p.1 as u32,
        None => 0,
    }
}

/// The register code of the catalog capacitor that a capacitance selects (0 when none).
pub open spec fn capacitor_code_spec(c: int) -> u32 {
    match capacitor_bucket(c) {
        Some(p) => p.1 as u32,
        None => 0,
    }
}

impl<B: I2cBus, MODE: LedMode> AFE4404<B, MODE> {
    /// Reads registers 20h and 21h and writes them back with new TIA codes.
    fn write_tia(&mut self, capacitors: bool, which: u8, code1: u8, code2: u8) -> (out: (
        Result<(), AfeError<B::Error>>,
        Ghost<Seq<Seq<u8>>>,
    ))
        requires
            code1 <= 7,
            code2 <= 7,
        ensures
            final(self).same_device(old(self)),
            out.0 matches Err(e) ==> is_bus_error(e),
            exchanged(
                old(self).log(),
                final(self).log(),
                old(self).address_spec(),
                two_regs(0x20u8, 0x21u8),
                out.1@,
                tia_writes(capacitors, which, code1 as u32, code2 as u32, values(out.1@)[0], values(out.1@)[1]),
                out.0 is Ok,
            ),
    {
        let ghost before = self.log();
        let ghost address = self.address_spec();
        let regs = vec![0x20u8, 0x21u8];
        assert(regs@ =~= two_regs(0x20u8, 0x21u8));
        let (res, got) = self.read_regs(&regs);
        let ghost answers = got@;
        let ghost target = tia_writes(capacitors, which, code1 as u32, code2 as u32, values(answers)[0], values(answers)[1]);
        let vals = match res {
            Ok(v) => v,
            Err(e) => {
                assert(exchanged(before, self.log(), address, regs@, answers, target, false));
                return (Err(e), Ghost(answers));
            },
        };
        proof {
            crate::register::lemma_low_mask_values();
        }
        let r20h = vals[0];
        let r21h = vals[1];
        let off = if capacitors {
            CF_OFFSET
        } else {
            GAIN_OFFSET
        };
        let old1 = get_field(r21h, off, 3) as u8;
        let old2 = get_field(r20h, off, 3) as u8;
        let (c1, c2) = if which == 1 {
            (code1, old2)
        } else if which == 2 {
            (old1, code2)
        } else {
            (code1, code2)
        };
        let (a, b) = if capacitors {
            write_capacitor_codes(r20h, r21h, c1, c2)
        } else {
            write_resistor_codes(r20h, r21h, c1, c2)
        };
        let mut writes: Vec<(u8, u32)> = Vec::new();
        writes.push((0x20, a));
        writes.push((0x21, b));
        assert(writes@ =~= target);
        let ghost mid = self.log();
        let r = self.run_writes(&writes);
        proof {
            lemma_exchange(before, mid, self.log(), address, regs@, answers, writes@, r is Ok);
        }
        (r, Ghost(answers))
    }

    /// Reads one register and the three-bit TIA code at `offset` in it.
    fn read_code(&mut self, reg_addr: u8, offset: u32) -> (out: (Result<u8, AfeError<B::Error>>, Ghost<Seq<Seq<u8>>>))
        requires
            offset == GAIN_OFFSET || offset == CF_OFFSET,
        ensures
            final(self).same_device(old(self)),
            out.0 matches Ok(c) ==> c <= 7 && c == field(values(out.1@)[0], offset, 3),
            out.0 matches Err(e) ==> is_bus_error(e),
            exchanged(
                old(self).log(),
                final(self).log(),
                old(self).address_spec(),
                one_reg(reg_addr),
                out.1@,
                Seq::empty(),
                out.0 is Ok,
            ),
    {
        let ghost before = self.log();
        let ghost address = self.address_spec();
        let regs = vec![reg_addr];
        assert(regs@ =~= one_reg(reg_addr));
        let (res, got) = self.read_regs(&regs);
        let ghost answers = got@;
        match res {
            Ok(v) => {
                proof {
                    crate::register::lemma_low_mask_values();
                }
                (Ok(get_field(v[0], offset, 3) as u8), Ghost(answers))
            },
            Err(e) => {
                assert(exchanged(before, self.log(), address, regs@, answers, Seq::empty(), false));
                (Err(e), Ghost(answers))
            },
        }
    }

    /// Sets the two gain resistors to the catalog values nearest to the request.
    ///
    /// The first goes to register 21h and the second to register 20h; the separate-gain bit is
    /// set when the two resistors or the two capacitors differ. A value outside the catalog's range is
    /// refused before any bus transfer.
    pub fn set_tia_resistors(&mut self, configuration: &ResistorConfiguration<MODE>) -> (r: Result<
        ResistorConfiguration<MODE>,
        AfeError<B::Error>,
    >)
        ensures
            final(self).same_device(old(self)),
            (resistor_bucket(configuration.resistor1_ohm()) is None || resistor_bucket(
                configuration.resistor2_ohm(),
            ) is None) ==> r == Err::<ResistorConfiguration<MODE>, AfeError<B::Error>>(
                AfeError::ResistorValueOutsideAllowedRange,
            ) && *final(self) == *old(self),
            r matches Ok(c) ==> {
                &&& resistor_bucket(configuration.resistor1_ohm()) matches Some(p1)
                    && c.resistor1_ohm() == p1.0
                &&& resistor_bucket(configuration.resistor2_ohm()) matches Some(p2)
                    && c.resistor2_ohm() == p2.0
            },
            (r matches Err(e) && e is ResistorValueOutsideAllowedRange) ==> (resistor_bucket(
                configuration.resistor1_ohm(),
            ) is None || resistor_bucket(configuration.resistor2_ohm()) is None),
            r matches Err(e) ==> (e is ResistorValueOutsideAllowedRange || is_bus_error(e)),
            (r is Ok || (r matches Err(e) && is_bus_error(e))) ==> exists|answers: Seq<Seq<u8>>|
                #[trigger] exchanged(
                    old(self).log(),
                    final(self).log(),
                    old(self).address_spec(),
                    two_regs(0x20u8, 0x21u8),
                    answers,
                    tia_writes(false, 0, resistor_code_spec(configuration.resistor1_ohm()), resistor_code_spec(configuration.resistor2_ohm()), values(answers)[0], values(answers)[1]),
                    r is Ok,
                ),
    {
        let v1 = match resistor_code(configuration.resistor1()) {
            Some(p) => p,
            None => {
                return Err(AfeError::ResistorValueOutsideAllowedRange);
            },
        };
        let v2 = match resistor_code(configuration.resistor2()) {
            Some(p) => p,
            None => {
                return Err(AfeError::ResistorValueOutsideAllowedRange);
            },
        };
        let (r, got) = self.write_tia(false, 0, v1.1, v2.1);
        assert(exchanged(
            old(self).log(),
            self.log(),
            old(self).address_spec(),
            two_regs(0x20u8, 0x21u8),
            got@,
            tia_writes(
                false,
                0,
                resistor_code_spec(configuration.resistor1_ohm()),
                resistor_code_spec(configuration.resistor2_ohm()),
                values(got@)[0],
                values(got@)[1],
            ),
            r is Ok,
        ));
        match r {
            Ok(()) => Ok(ResistorConfiguration::new(v1.0, v2.0)),
            Err(e) => Err(e),
        }
    }

    /// Gets the two resistors: the first from register 21h, the second from register 20h.
    pub fn get_tia_resistors(&mut self) -> (r: Result<ResistorConfiguration<MODE>, AfeError<B::Error>>)
        ensures
            final(self).same_device(old(self)),
            r matches Err(e) ==> is_bus_error(e),
            exists|answers: Seq<Seq<u8>>|
                #[trigger] exchanged(
                    old(self).log(),
                    final(self).log(),
                    old(self).address_spec(),
                    two_regs(0x21u8, 0x20u8),
                    answers,
                    Seq::empty(),
                    finished(r),
                ) && (r matches Ok(c) ==> c.resistor1_ohm() == resistor_of_code(field(values(answers)[0], GAIN_OFFSET, 3) as int)
                    && c.resistor2_ohm() == resistor_of_code(field(values(answers)[1], GAIN_OFFSET, 3) as int)),
    {
        let ghost before = self.log();
        let ghost address = self.address_spec();
        let regs = vec![0x21u8, 0x20u8];
        assert(regs@ =~= two_regs(0x21u8, 0x20u8));
        let (res, got) = self.read_regs(&regs);
        let ghost answers = got@;
        let vals = match res {
            Ok(v) => v,
            Err(e) => {
                let r = Err(e);
                assert(exchanged(before, self.log(), address, regs@, answers, Seq::empty(), finished(r)));
                return r;
            },
        };
        proof {
            crate::register::lemma_low_mask_values();
        }
        let c1 = get_field(vals[0], GAIN_OFFSET, 3) as u8;
        let c2 = get_field(vals[1], GAIN_OFFSET, 3) as u8;
        let r = Ok(ResistorConfiguration::new(resistor_from_code(c1), resistor_from_code(c2)));
        assert(exchanged(before, self.log(), address, regs@, answers, Seq::empty(), finished(r)));
        r
    }

    /// Sets the two feedback capacitors to the catalog values nearest to the request.
    ///
    /// The first goes to register 21h and the second to register 20h; the separate-gain bit is
    /// set when the two capacitors or the two resistors differ. A value outside the catalog's range is
    /// refused before any bus transfer.
    pub fn set_tia_capacitors(&mut self, configuration: &CapacitorConfiguration<MODE>) -> (r: Result<
        CapacitorConfiguration<MODE>,
        AfeError<B::Error>,
    >)
        ensures
            final(self).same_device(old(self)),
            (capacitor_bucket(configuration.capacitor1_ff()) is None || capacitor_bucket(
                configuration.capacitor2_ff(),
            ) is None) ==> r == Err::<CapacitorConfiguration<MODE>, AfeError<B::Error>>(
                AfeError::CapacitorValueOutsideAllowedRange,
            ) && *final(self) == *old(self),
            r matches Ok(c) ==> {
                &&& capacitor_bucket(configuration.capacitor1_ff()) matches Some(p1)
                    && c.capacitor1_ff() == p1.0
                &&& capacitor_bucket(configuration.capacitor2_ff()) matches Some(p2)
                    && c.capacitor2_ff() == p2.0
            },
            (r matches Err(e) && e is CapacitorValueOutsideAllowedRange) ==> (capacitor_bucket(
                configuration.capacitor1_ff(),
            ) is None || capacitor_bucket(configuration.capacitor2_ff()) is None),
            r matches Err(e) ==> (e is CapacitorValueOutsideAllowedRange || is_bus_error(e)),
            (r is Ok || (r matches Err(e) && is_bus_error(e))) ==> exists|answers: Seq<Seq<u8>>|
                #[trigger] exchanged(
                    old(self).log(),
                    final(self).log(),
                    old(self).address_spec(),
                    two_regs(0x20u8, 0x21u8),
                    answers,
                    tia_writes(true, 0, capacitor_code_spec(configuration.capacitor1_ff()), capacitor_code_spec(configuration.capacitor2_ff()), values(answers)[0], values(answers)[1]),
                    r is Ok,
                ),
    {
        let v1 = match capacitor_code(configuration.capacitor1()) {
            Some(p) => p,
            None => {
                return Err(AfeError::CapacitorValueOutsideAllowedRange);
            },
        };
        let v2 = match capacitor_code(configuration.capacitor2()) {
            Some(p) => p,
            None => {
                return Err(AfeError::CapacitorValueOutsideAllowedRange);
            },
        };
        let (r, got) = self.write_tia(true, 0, v1.1, v2.1);
        assert(exchanged(
            old(self).log(),
            self.log(),
            old(self).address_spec(),
            two_regs(0x20u8, 0x21u8),
            got@,
            tia_writes(
                true,
                0,
                capacitor_code_spec(configuration.capacitor1_ff()),
                capacitor_code_spec(configuration.capacitor2_ff()),
                values(got@)[0],
                values(got@)[1],
            ),
            r is Ok,
        ));
        match r {
            Ok(()) => Ok(CapacitorConfiguration::new(v1.0, v2.0)),
            Err(e) => Err(e),
        }
    }

    /// Gets the two capacitors: the first from register 21h, the second from register 20h.
    pub fn get_tia_capacitors(&mut self) -> (r: Result<CapacitorConfiguration<MODE>, AfeError<B::Error>>)
        ensures
            final(self).same_device(old(self)),
            r matches Err(e) ==> is_bus_error(e),
            exists|answers: Seq<Seq<u8>>|
                #[trigger] exchanged(
                    old(self).log(),
                    final(self).log(),
                    old(self).address_spec(),
                    two_regs(0x21u8, 0x20u8),
                    answers,
                    Seq::empty(),
                    finished(r),
                ) && (r matches Ok(c) ==> c.capacitor1_ff() == capacitor_of_code(field(values(answers)[0], CF_OFFSET, 3) as int)
                    && c.capacitor2_ff() == capacitor_of_code(field(values(answers)[1], CF_OFFSET, 3) as int)),
    {
        let ghost before = self.log();
        let ghost address = self.address_spec();
        let regs = vec![0x21u8, 0x20u8];
        assert(regs@ =~= two_regs(0x21u8, 0x20u8));
        let (res, got) = self.read_regs(&regs);
        let ghost answers = got@;
        let vals = match res {
            Ok(v) => v,
            Err(e) => {
                let r = Err(e);
                assert(exchanged(before, self.log(), address, regs@, answers, Seq::empty(), finished(r)));
                return r;
            },
        };
        proof {
            crate::register::lemma_low_mask_values();
        }
        let c1 = get_field(vals[0], CF_OFFSET, 3) as u8;
        let c2 = get_field(vals[1], CF_OFFSET, 3) as u8;
        let r = Ok(CapacitorConfiguration::new(capacitor_from_code(c1), capacitor_from_code(c2)));
        assert(exchanged(before, self.log(), address, regs@, answers, Seq::empty(), finished(r)));
        r
    }
}

} // verus!

verus! {

impl<B: I2cBus, MODE: LedMode> AFE4404<B, MODE> {
    /// Sets the first gain resistor alone to the catalog value nearest to `resistor` ohms.
    pub fn set_tia_resistor1(&mut self, resistor: i64) -> (r: Result<i64, AfeError<B::Error>>)
        ensures
            final(self).same_device(old(self)),
            resistor_bucket(resistor as int) is None ==> r == Err::<i64, AfeError<B::Error>>(
                AfeError::ResistorValueOutsideAllowedRange,
            ) && *final(self) == *old(self),
            r matches Ok(v) ==> resistor_bucket(resistor as int) matches Some(p) && v == p.0,
            (r matches Err(e) && e is ResistorValueOutsideAllowedRange) ==> resistor_bucket(resistor as int) is None,
            r matches Err(e) ==> (e is ResistorValueOutsideAllowedRange || is_bus_error(e)),
            (r is Ok || (r matches Err(e) && is_bus_error(e))) ==> exists|answers: Seq<Seq<u8>>|
                #[trigger] exchanged(
                    old(self).log(),
                    final(self).log(),
                    old(self).address_spec(),
                    two_regs(0x20u8, 0x21u8),
                    answers,
                    tia_writes(false, 1, resistor_code_spec(resistor as int), resistor_code_spec(resistor as int), values(answers)[0], values(answers)[1]),
                    r is Ok,
                ),
    {
        let p = match resistor_code(resistor) {
            Some(p) => p,
            None => {
                return Err(AfeError::ResistorValueOutsideAllowedRange);
            },
        };
        let (r, got) = self.write_tia(false, 1, p.1, p.1);
        assert(exchanged(
            old(self).log(),
            self.log(),
            old(self).address_spec(),
            two_regs(0x20u8, 0x21u8),
            got@,
            tia_writes(false, 1, resistor_code_spec(resistor as int), resistor_code_spec(resistor as int), values(got@)[0], values(got@)[1]),
            r is Ok,
        ));
        match r {
            Ok(()) => Ok(p.0),
            Err(e) => Err(e),
        }
    }

    /// Sets the second gain resistor alone to the catalog value nearest to `resistor` ohms.
    pub fn set_tia_resistor2(&mut self, resistor: i64) -> (r: Result<i64, AfeError<B::Error>>)
        ensures
            final(self).same_device(old(self)),
            resistor_bucket(resistor as int) is None ==> r == Err::<i64, AfeError<B::Error>>(
                AfeError::ResistorValueOutsideAllowedRange,
            ) && *final(self) == *old(self),
            r matches Ok(v) ==> resistor_bucket(resistor as int) matches Some(p) && v == p.0,
            (r matches Err(e) && e is ResistorValueOutsideAllowedRange) ==> resistor_bucket(resistor as int) is None,
            r matches Err(e) ==> (e is ResistorValueOutsideAllowedRange || is_bus_error(e)),
            (r is Ok || (r matches Err(e) && is_bus_error(e))) ==> exists|answers: Seq<Seq<u8>>|
                #[trigger] exchanged(
                    old(self).log(),
                    final(self).log(),
                    old(self).address_spec(),
                    two_regs(0x20u8, 0x21u8),
                    answers,
                    tia_writes(false, 2, resistor_code_spec(resistor as int), resistor_code_spec(resistor as int), values(answers)[0], values(answers)[1]),
                    r is Ok,
                ),
    {
        let p = match resistor_code(resistor) {
            Some(p) => p,
            None => {
                return Err(AfeError::ResistorValueOutsideAllowedRange);
            },
        };
        let (r, got) = self.write_tia(false, 2, p.1, p.1);
        assert(exchanged(
            old(self).log(),
            self.log(),
            old(self).address_spec(),
            two_regs(0x20u8, 0x21u8),
            got@,
            tia_writes(false, 2, resistor_code_spec(resistor as int), resistor_code_spec(resistor as int), values(got@)[0], values(got@)[1]),
            r is Ok,
        ));
        match r {
            Ok(()) => Ok(p.0),
            Err(e) => Err(e),
        }
    }

    /// Sets the first feedback capacitor alone to the catalog value nearest to `capacitor` femtofarads.
    pub fn set_tia_capacitor1(&mut self, capacitor: i64) -> (r: Result<i64, AfeError<B::Error>>)
        ensures
            final(self).same_device(old(self)),
            capacitor_bucket(capacitor as int) is None ==> r == Err::<i64, AfeError<B::Error>>(
                AfeError::CapacitorValueOutsideAllowedRange,
            ) && *final(self) == *old(self),
            r matches Ok(v) ==> capacitor_bucket(capacitor as int) matches Some(p) && v == p.0,
            (r matches Err(e) && e is CapacitorValueOutsideAllowedRange) ==> capacitor_bucket(capacitor as int) is None,
            r matches Err(e) ==> (e is CapacitorValueOutsideAllowedRange || is_bus_error(e)),
            (r is Ok || (r matches Err(e) && is_bus_error(e))) ==> exists|answers: Seq<Seq<u8>>|
                #[trigger] exchanged(
                    old(self).log(),
                    final(self).log(),
                    old(self).address_spec(),
                    two_regs(0x20u8, 0x21u8),
                    answers,
                    tia_writes(true, 1, capacitor_code_spec(capacitor as int), capacitor_code_spec(capacitor as int), values(answers)[0], values(answers)[1]),
                    r is Ok,
                ),
    {
        let p = match capacitor_code(capacitor) {
            Some(p) => p,
            None => {
                return Err(AfeError::CapacitorValueOutsideAllowedRange);
            },
        };
        let (r, got) = self.write_tia(true, 1, p.1, p.1);
        assert(exchanged(
            old(self).log(),
            self.log(),
            old(self).address_spec(),
            two_regs(0x20u8, 0x21u8),
            got@,
            tia_writes(true, 1, capacitor_code_spec(capacitor as int), capacitor_code_spec(capacitor as int), values(got@)[0], values(got@)[1]),
            r is Ok,
        ));
        match r {
            Ok(()) => Ok(p.0),
            Err(e) => Err(e),
        }
    }

    /// Sets the second feedback capacitor alone to the catalog value nearest to `capacitor` femtofarads.
    pub fn set_tia_capacitor2(&mut self, capacitor: i64) -> (r: Result<i64, AfeError<B::Error>>)
        ensures
            final(self).same_device(old(self)),
            capacitor_bucket(capacitor as int) is None ==> r == Err::<i64, AfeError<B::Error>>(
                AfeError::CapacitorValueOutsideAllowedRange,
            ) && *final(self) == *old(self),
            r matches Ok(v) ==> capacitor_bucket(capacitor as int) matches Some(p) && v == p.0,
            (r matches Err(e) && e is CapacitorValueOutsideAllowedRange) ==> capacitor_bucket(capacitor as int) is None,
            r matches Err(e) ==> (e is CapacitorValueOutsideAllowedRange || is_bus_error(e)),
            (r is Ok || (r matches Err(e) && is_bus_error(e))) ==> exists|answers: Seq<Seq<u8>>|
                #[trigger] exchanged(
                    old(self).log(),
                    final(self).log(),
                    old(self).address_spec(),
                    two_regs(0x20u8, 0x21u8),
                    answers,
                    tia_writes(true, 2, capacitor_code_spec(capacitor as int), capacitor_code_spec(capacitor as int), values(answers)[0], values(answers)[1]),
                    r is Ok,
                ),
    {
        let p = match capacitor_code(capacitor) {
            Some(p) => p,
            None => {
                return Err(AfeError::CapacitorValueOutsideAllowedRange);
            },
        };
        let (r, got) = self.write_tia(true, 2, p.1, p.1);
        assert(exchanged(
            old(self).log(),
            self.log(),
            old(self).address_spec(),
            two_regs(0x20u8, 0x21u8),
            got@,
            tia_writes(true, 2, capacitor_code_spec(capacitor as int), capacitor_code_spec(capacitor as int), values(got@)[0], values(got@)[1]),
            r is Ok,
        ));
        match r {
            Ok(()) => Ok(p.0),
            Err(e) => Err(e),
        }
    }

    /// Gets the first gain resistor, in ohms, from register 21h.
    pub fn get_tia_resistor1(&mut self) -> (r: Result<i64, AfeError<B::Error>>)
        ensures
            final(self).same_device(old(self)),
            r matches Err(e) ==> is_bus_error(e),
            exists|answers: Seq<Seq<u8>>|
                #[trigger] exchanged(
                    old(self).log(),
                    final(self).log(),
                    old(self).address_spec(),
                    one_reg(0x21u8),
                    answers,
                    Seq::empty(),
                    finished(r),
                ) && (r matches Ok(v) ==> v == resistor_of_code(field(values(answers)[0], GAIN_OFFSET, 3) as int)),
    {
        let (res, got) = self.read_code(0x21, GAIN_OFFSET);
        let r = match res {
            Ok(code) => Ok(resistor_from_code(code)),
            Err(e) => Err(e),
        };
        assert(exchanged(old(self).log(), self.log(), old(self).address_spec(), one_reg(0x21u8), got@, Seq::empty(), finished(r)));
        r
    }

    /// Gets the second gain resistor, in ohms, from register 20h.
    pub fn get_tia_resistor2(&mut self) -> (r: Result<i64, AfeError<B::Error>>)
        ensures
            final(self).same_device(old(self)),
            r matches Err(e) ==> is_bus_error(e),
            exists|answers: Seq<Seq<u8>>|
                #[trigger] exchanged(
                    old(self).log(),
                    final(self).log(),
                    old(self).address_spec(),
                    one_reg(0x20u8),
                    answers,
                    Seq::empty(),
                    finished(r),
                ) && (r matches Ok(v) ==> v == resistor_of_code(field(values(answers)[0], GAIN_OFFSET, 3) as int)),
    {
        let (res, got) = self.read_code(0x20, GAIN_OFFSET);
        let r = match res {
            Ok(code) => Ok(resistor_from_code(code)),
            Err(e) => Err(e),
        };
        assert(exchanged(old(self).log(), self.log(), old(self).address_spec(), one_reg(0x20u8), got@, Seq::empty(), finished(r)));
        r
    }

    /// Gets the first feedback capacitor, in femtofarads, from register 21h.
    pub fn get_tia_capacitor1(&mut self) -> (r: Result<i64, AfeError<B::Error>>)
        ensures
            final(self).same_device(old(self)),
            r matches Err(e) ==> is_bus_error(e),
            exists|answers: Seq<Seq<u8>>|
                #[trigger] exchanged(
                    old(self).log(),
                    final(self).log(),
                    old(self).address_spec(),
                    one_reg(0x21u8),
                    answers,
                    Seq::empty(),
                    finished(r),
                ) && (r matches Ok(v) ==> v == capacitor_of_code(field(values(answers)[0], CF_OFFSET, 3) as int)),
    {
        let (res, got) = self.read_code(0x21, CF_OFFSET);
        let r = match res {
            Ok(code) => Ok(capacitor_from_code(code)),
            Err(e) => Err(e),
        };
        assert(exchanged(old(self).log(), self.log(), old(self).address_spec(), one_reg(0x21u8), got@, Seq::empty(), finished(r)));
        r
    }

    /// Gets the second feedback capacitor, in femtofarads, from register 20h.
    pub fn get_tia_capacitor2(&mut self) -> (r: Result<i64, AfeError<B::Error>>)
        ensures
            final(self).same_device(old(self)),
            r matches Err(e) ==> is_bus_error(e),
            exists|answers: Seq<Seq<u8>>|
                #[trigger] exchanged(
                    old(self).log(),
                    final(self).log(),
                    old(self).address_spec(),
                    one_reg(0x20u8),
                    answers,
                    Seq::empty(),
                    finished(r),
                ) && (r matches Ok(v) ==> v == capacitor_of_code(field(values(answers)[0], CF_OFFSET, 3) as int)),
    {
        let (res, got) = self.read_code(0x20, CF_OFFSET);
        let r = match res {
            Ok(code) => Ok(capacitor_from_code(code)),
            Err(e) => Err(e),
        };
        assert(exchanged(old(self).log(), self.log(), old(self).address_spec(), one_reg(0x20u8), got@, Seq::empty(), finished(r)));
        r
    }
}

} // verus!

verus! {

/// The gain resistors that the amplifier offers.
#[derive(Debug, Clone, Copy, PartialEq, Eq, Structural)]
pub enum ResistorValue {
    R10k,
    R25k,
    R50k,
    R100k,
    R250k,
    R500k,
    R1M,
    R2M,
}

/// The feedback capacitors that the amplifier offers.
#[derive(Debug, Clone, Copy, PartialEq, Eq, Structural)]
pub enum CapacitorValue {
    C2p5,
    C5p0,
    C7p5,
    C10p0,
    C17p5,
    C20p0,
    C22p5,
    C25p0,
}

impl ResistorValue {
    /// The register code of the resistor.
    pub open spec fn code_spec(self) -> int {
        match self {
            ResistorValue::R500k => 0,
            ResistorValue::R250k => 1,
            ResistorValue::R100k => 2,
            ResistorValue::R50k => 3,
            ResistorValue::R25k => 4,
            ResistorValue::R10k => 5,
            ResistorValue::R1M => 6,
            ResistorValue::R2M => 7,
        }
    }

    /// The register code of the resistor.
    pub fn code(self) -> (r: u8)
        ensures
            r == self.code_spec(),
    {
        match self {
            ResistorValue::R500k => 0,
            ResistorValue::R250k => 1,
            ResistorValue::R100k => 2,
            ResistorValue::R50k => 3,
            ResistorValue::R25k => 4,
            ResistorValue::R10k => 5,
            ResistorValue::R1M => 6,
            ResistorValue::R2M => 7,
        }
    }

    /// The resistor of a register code; codes above 7 have none.
    pub fn from_code(code: u8) -> (r: Option<ResistorValue>)
        ensures
            r is None <==> code > 7,
            r matches Some(v) ==> v.code_spec() == code,
    {
        match code {
            0 => Some(ResistorValue::R500k),
            1 => Some(ResistorValue::R250k),
            2 => Some(ResistorValue::R100k),
            3 => Some(ResistorValue::R50k),
            4 => Some(ResistorValue::R25k),
            5 => Some(ResistorValue::R10k),
            6 => Some(ResistorValue::R1M),
            7 => Some(ResistorValue::R2M),
            _ => None,
        }
    }

    /// The resistance, in ohms.
    pub fn ohms(self) -> (r: i64)
        ensures
            r == resistor_of_code(self.code_spec()),
    {
        resistor_from_code(self.code())
    }
}

impl CapacitorValue {
    /// The register code of the capacitor.
    pub open spec fn code_spec(self) -> int {
        match self {
            CapacitorValue::C5p0 => 0,
            CapacitorValue::C2p5 => 1,
            CapacitorValue::C10p0 => 2,
            CapacitorValue::C7p5 => 3,
            CapacitorValue::C20p0 => 4,
            CapacitorValue::C17p5 => 5,
            CapacitorValue::C25p0 => 6,
            CapacitorValue::C22p5 => 7,
        }
    }

    /// The register code of the capacitor.
    pub fn code(self) -> (r: u8)
        ensures
            r == self.code_spec(),
    {
        match self {
            CapacitorValue::C5p0 => 0,
            CapacitorValue::C2p5 => 1,
            CapacitorValue::C10p0 => 2,
            CapacitorValue::C7p5 => 3,
            CapacitorValue::C20p0 => 4,
            CapacitorValue::C17p5 => 5,
            CapacitorValue::C25p0 => 6,
            CapacitorValue::C22p5 => 7,
        }
    }

    /// The capacitor of a register code; codes above 7 have none.
    pub fn from_code(code: u8) -> (r: Option<CapacitorValue>)
        ensures
            r is None <==> code > 7,
            r matches Some(v) ==> v.code_spec() == code,
    {
        match code {
            0 => Some(CapacitorValue::C5p0),
            1 => Some(CapacitorValue::C2p5),
            2 => Some(CapacitorValue::C10p0),
            3 => Some(CapacitorValue::C7p5),
            4 => Some(CapacitorValue::C20p0),
            5 => Some(CapacitorValue::C17p5),
            6 => Some(CapacitorValue::C25p0),
            7 => Some(CapacitorValue::C22p5),
            _ => None,
        }
    }

    /// The capacitance, in femtofarads.
    pub fn femtofarads(self) -> (r: i64)
        ensures
            r == capacitor_of_code(self.code_spec()),
    {
        capacitor_from_code(self.code())
    }
}

impl<B: I2cBus, MODE: LedMode> AFE4404<B, MODE> {
    /// Sets the first gain resistor alone to a catalog value.
    pub fn set_tia_resistor1_enum(&mut self, resistor: ResistorValue) -> (r: Result<ResistorValue, AfeError<B::Error>>)
        ensures
            final(self).same_device(old(self)),
            r matches Ok(v) ==> v == resistor,
            r matches Err(e) ==> is_bus_error(e),
            (r is Ok || (r matches Err(e) && is_bus_error(e))) ==> exists|answers: Seq<Seq<u8>>|
                #[trigger] exchanged(
                    old(self).log(),
                    final(self).log(),
                    old(self).address_spec(),
                    two_regs(0x20u8, 0x21u8),
                    answers,
                    tia_writes(false, 1, resistor.code_spec() as u32, resistor.code_spec() as u32, values(answers)[0], values(answers)[1]),
                    r is Ok,
                ),
    {
        let (r, got) = self.write_tia(false, 1, resistor.code(), resistor.code());
        match r {
            Ok(()) => Ok(resistor),
            Err(e) => Err(e),
        }
    }

    /// Sets the second gain resistor alone to a catalog value.
    pub fn set_tia_resistor2_enum(&mut self, resistor: ResistorValue) -> (r: Result<ResistorValue, AfeError<B::Error>>)
        ensures
            final(self).same_device(old(self)),
            r matches Ok(v) ==> v == resistor,
            r matches Err(e) ==> is_bus_error(e),
            (r is Ok || (r matches Err(e) && is_bus_error(e))) ==> exists|answers: Seq<Seq<u8>>|
                #[trigger] exchanged(
                    old(self).log(),
                    final(self).log(),
                    old(self).address_spec(),
                    two_regs(0x20u8, 0x21u8),
                    answers,
                    tia_writes(false, 2, resistor.code_spec() as u32, resistor.code_spec() as u32, values(answers)[0], values(answers)[1]),
                    r is Ok,
                ),
    {
        let (r, got) = self.write_tia(false, 2, resistor.code(), resistor.code());
        match r {
            Ok(()) => Ok(resistor),
            Err(e) => Err(e),
        }
    }

    /// Gets the first gain resistor, from register 21h.
    pub fn get_tia_resistor1_enum(&mut self) -> (r: Result<ResistorValue, AfeError<B::Error>>)
        ensures
            final(self).same_device(old(self)),
            r matches Err(e) ==> is_bus_error(e),
            exists|answers: Seq<Seq<u8>>|
                #[trigger] exchanged(
                    old(self).log(),
                    final(self).log(),
                    old(self).address_spec(),
                    one_reg(0x21u8),
                    answers,
                    Seq::empty(),
                    finished(r),
                ) && (r matches Ok(v) ==> v.code_spec() == field(values(answers)[0], GAIN_OFFSET, 3)),
    {
        let (res, got) = self.read_code(0x21, GAIN_OFFSET);
        let r = match res {
            Ok(code) => match ResistorValue::from_code(code) {
                Some(v) => Ok(v),
                None => Err(AfeError::InvalidRegisterValue { reg_addr: 0x21 }),
            },
            Err(e) => Err(e),
        };
        assert(exchanged(old(self).log(), self.log(), old(self).address_spec(), one_reg(0x21u8), got@, Seq::empty(), finished(r)));
        r
    }

    /// Gets the second gain resistor, from register 20h.
    pub fn get_tia_resistor2_enum(&mut self) -> (r: Result<ResistorValue, AfeError<B::Error>>)
        ensures
            final(self).same_device(old(self)),
            r matches Err(e) ==> is_bus_error(e),
            exists|answers: Seq<Seq<u8>>|
                #[trigger] exchanged(
                    old(self).log(),
                    final(self).log(),
                    old(self).address_spec(),
                    one_reg(0x20u8),
                    answers,
                    Seq::empty(),
                    finished(r),
                ) && (r matches Ok(v) ==> v.code_spec() == field(values(answers)[0], GAIN_OFFSET, 3)),
    {
        let (res, got) = self.read_code(0x20, GAIN_OFFSET);
        let r = match res {
            Ok(code) => match ResistorValue::from_code(code) {
                Some(v) => Ok(v),
                None => Err(AfeError::InvalidRegisterValue { reg_addr: 0x20 }),
            },
            Err(e) => Err(e),
        };
        assert(exchanged(old(self).log(), self.log(), old(self).address_spec(), one_reg(0x20u8), got@, Seq::empty(), finished(r)));
        r
    }

    /// Sets the first feedback capacitor alone to a catalog value.
    pub fn set_tia_capacitor1_enum(&mut self, capacitor: CapacitorValue) -> (r: Result<CapacitorValue, AfeError<B::Error>>)
        ensures
            final(self).same_device(old(self)),
            r matches Ok(v) ==> v == capacitor,
            r matches Err(e) ==> is_bus_error(e),
            (r is Ok || (r matches Err(e) && is_bus_error(e))) ==> exists|answers: Seq<Seq<u8>>|
                #[trigger] exchanged(
                    old(self).log(),
                    final(self).log(),
                    old(self).address_spec(),
                    two_regs(0x20u8, 0x21u8),
                    answers,
                    tia_writes(true, 1, capacitor.code_spec() as u32, capacitor.code_spec() as u32, values(answers)[0], values(answers)[1]),
                    r is Ok,
                ),
    {
        let (r, got) = self.write_tia(true, 1, capacitor.code(), capacitor.code());
        match r {
            Ok(()) => Ok(capacitor),
            Err(e) => Err(e),
        }
    }

    /// Sets the second feedback capacitor alone to a catalog value.
    pub fn set_tia_capacitor2_enum(&mut self, capacitor: CapacitorValue) -> (r: Result<CapacitorValue, AfeError<B::Error>>)
        ensures
            final(self).same_device(old(self)),
            r matches Ok(v) ==> v == capacitor,
            r matches Err(e) ==> is_bus_error(e),
            (r is Ok || (r matches Err(e) && is_bus_error(e))) ==> exists|answers: Seq<Seq<u8>>|
                #[trigger] exchanged(
                    old(self).log(),
                    final(self).log(),
                    old(self).address_spec(),
                    two_regs(0x20u8, 0x21u8),
                    answers,
                    tia_writes(true, 2, capacitor.code_spec() as u32, capacitor.code_spec() as u32, values(answers)[0], values(answers)[1]),
                    r is Ok,
                ),
    {
        let (r, got) = self.write_tia(true, 2, capacitor.code(), capacitor.code());
        match r {
            Ok(()) => Ok(capacitor),
            Err(e) => Err(e),
        }
    }

    /// Gets the first feedback capacitor, from register 21h.
    pub fn get_tia_capacitor1_enum(&mut self) -> (r: Result<CapacitorValue, AfeError<B::Error>>)
        ensures
            final(self).same_device(old(self)),
            r matches Err(e) ==> is_bus_error(e),
            exists|answers: Seq<Seq<u8>>|
                #[trigger] exchanged(
                    old(self).log(),
                    final(self).log(),
                    old(self).address_spec(),
                    one_reg(0x21u8),
                    answers,
                    Seq::empty(),
                    finished(r),
                ) && (r matches Ok(v) ==> v.code_spec() == field(values(answers)[0], CF_OFFSET, 3)),
    {
        let (res, got) = self.read_code(0x21, CF_OFFSET);
        let r = match res {
            Ok(code) => match CapacitorValue::from_code(code) {
                Some(v) => Ok(v),
                None => Err(AfeError::InvalidRegisterValue { reg_addr: 0x21 }),
            },
            Err(e) => Err(e),
        };
        assert(exchanged(old(self).log(), self.log(), old(self).address_spec(), one_reg(0x21u8), got@, Seq::empty(), finished(r)));
        r
    }

    /// Gets the second feedback capacitor, from register 20h.
    pub fn get_tia_capacitor2_enum(&mut self) -> (r: Result<CapacitorValue, AfeError<B::Error>>)
        ensures
            final(self).same_device(old(self)),
            r matches Err(e) ==> is_bus_error(e),
            exists|answers: Seq<Seq<u8>>|
                #[trigger] exchanged(
                    old(self).log(),
                    final(self).log(),
                    old(self).address_spec(),
                    one_reg(0x20u8),
                    answers,
                    Seq::empty(),
                    finished(r),
                ) && (r matches Ok(v) ==> v.code_spec() == field(values(answers)[0], CF_OFFSET, 3)),
    {
        let (res, got) = self.read_code(0x20, CF_OFFSET);
        let r = match res {
            Ok(code) => match CapacitorValue::from_code(code) {
                Some(v) => Ok(v),
                None => Err(AfeError::InvalidRegisterValue { reg_addr: 0x20 }),
            },
            Err(e) => Err(e),
        };
        assert(exchanged(old(self).log(), self.log(), old(self).address_spec(), one_reg(0x20u8), got@, Seq::empty(), finished(r)));
        r
    }
}

} // verus!

verus! {

/// Setting two resistors and reading them back gives exactly the catalog values that the setter
/// returned.
pub proof fn lemma_resistors_get_after_set(r1: int, r2: int, r20h: u32, r21h: u32)
    requires
        resistor_bucket(r1) is Some,
        resistor_bucket(r2) is Some,
    ensures
        ({
            let p1 = resistor_bucket(r1)->0;
            let p2 = resistor_bucket(r2)->0;
            let (a, b) = resistor_registers(r20h, r21h, p1.1 as u32, p2.1 as u32);
            &&& resistor_of_code(field(b, GAIN_OFFSET, 3) as int) == p1.0
            &&& resistor_of_code(field(a, GAIN_OFFSET, 3) as int) == p2.0
        }),
{
    let p1 = resistor_bucket(r1)->0;
    let p2 = resistor_bucket(r2)->0;
    lemma_resistor_registers_round_trip(r20h, r21h, p1.1 as u32, p2.1 as u32);
}

/// Setting two capacitors and reading them back gives exactly the catalog values that the
/// setter returned.
pub proof fn lemma_capacitors_get_after_set(c1: int, c2: int, r20h: u32, r21h: u32)
    requires
        capacitor_bucket(c1) is Some,
        capacitor_bucket(c2) is Some,
    ensures
        ({
            let p1 = capacitor_bucket(c1)->0;
            let p2 = capacitor_bucket(c2)->0;
            let (a, b) = capacitor_registers(r20h, r21h, p1.1 as u32, p2.1 as u32);
            &&& capacitor_of_code(field(b, CF_OFFSET, 3) as int) == p1.0
            &&& capacitor_of_code(field(a, CF_OFFSET, 3) as int) == p2.0
        }),
{
    let p1 = capacitor_bucket(c1)->0;
    let p2 = capacitor_bucket(c2)->0;
    lemma_capacitor_registers_round_trip(r20h, r21h, p1.1 as u32, p2.1 as u32);
}

} // verus!
