//! LED drive currents and offset cancellation currents, in nanoamperes.
use vstd::prelude::*;

use crate::device::{one_reg, two_regs, exchanged, finished, is_bus_error, lemma_exchange, lemma_exchange_writes, values, AFE4404};
use crate::error::AfeError;
use crate::modes::{LedMode, ThreeLedsMode, TwoLedsMode};
use crate::register::I2cBus;
use crate::quantize::{lemma_linear_quantization, lemma_round_div_range, round_div, round_div_u64};
use crate::register::{field, get_field, lemma_pack_fields, pack, set_field, well_laid, with_field};

verus! {

/// Full scale of the LED current in the low range: 50 mA.
pub const LED_RANGE_LOW_NA: i64 = 50_000_000;

/// Full scale of the LED current in the high range: 100 mA.
pub const LED_RANGE_HIGH_NA: i64 = 100_000_000;

/// Number of steps of an LED current code.
pub const LED_STEPS: i64 = 63;

/// Full scale of an offset current: 7 µA, of either sign.
pub const OFFSET_RANGE_NA: i64 = 7_000;

/// Number of steps of an offset current code.
pub const OFFSET_STEPS: i64 = 15;

/// Offset of the ILED_2X bit of register 23h.
pub const ILED_2X_OFFSET: u32 = 17;

/// Whether an LED current can be driven: between 0 and 100 mA.
pub open spec fn led_current_in_range(x: int) -> bool {
    0 <= x <= LED_RANGE_HIGH_NA
}

/// Whether the shared high-current range is needed: some current is above 50 mA.
pub open spec fn high_current(l1: int, l2: int, l3: int) -> bool {
    l1 > LED_RANGE_LOW_NA || l2 > LED_RANGE_LOW_NA || l3 > LED_RANGE_LOW_NA
}

/// Full scale of the LED current range.
pub open spec fn led_range_na(high: bool) -> int {
    if high {
        LED_RANGE_HIGH_NA as int
    } else {
        LED_RANGE_LOW_NA as int
    }
}

/// The register code of an LED current: `round(x / (range / 63))`.
pub open spec fn led_code(x: int, high: bool) -> int {
    round_div(x * LED_STEPS, led_range_na(high))
}

/// The LED current that a register code drives, rounded to the nanoampere.
pub open spec fn led_current_of_code(code: int, high: bool) -> int {
    round_div(code * led_range_na(high), LED_STEPS as int)
}

/// The fields of register 22h: ILED1, ILED2 and ILED3, six bits each.
pub open spec fn r22h_fields(c1: u32, c2: u32, c3: u32) -> Seq<(u32, u32, u32)> {
    seq![(0u32, 6u32, c1), (6u32, 6u32, c2), (12u32, 6u32, c3)]
}

/// The LED currents of one configuration, in nanoamperes.
#[derive(Debug)]
pub struct LedCurrentConfiguration<MODE: LedMode> {
    led1: i64,
    led2: i64,
    led3: i64,
    mode: core::marker::PhantomData<MODE>,
}

impl<MODE: LedMode> LedCurrentConfiguration<MODE> {
    /// The current of LED1.
    pub closed spec fn led1_na(&self) -> int {
        self.led1 as int
    }

    /// The current of LED2.
    pub closed spec fn led2_na(&self) -> int {
        self.led2 as int
    }

    /// The current of LED3; zero in two-LED mode.
    pub closed spec fn led3_na(&self) -> int {
        self.led3 as int
    }

    pub(crate) fn from_currents(led1: i64, led2: i64, led3: i64) -> (r: Self)
        ensures
            r.led1_na() == led1,
            r.led2_na() == led2,
            r.led3_na() == led3,
    {
        LedCurrentConfiguration { led1, led2, led3, mode: core::marker::PhantomData }
    }

    /// The current of LED1, in nanoamperes.
    pub fn led1(&self) -> (r: i64)
        ensures
            r == self.led1_na(),
    {
        self.led1
    }

    /// The current of LED2, in nanoamperes.
    pub fn led2(&self) -> (r: i64)
        ensures
            r == self.led2_na(),
    {
        self.led2
    }

    pub(crate) fn led3_raw(&self) -> (r: i64)
        ensures
            r == self.led3_na(),
    {
        self.led3
    }
}

impl LedCurrentConfiguration<ThreeLedsMode> {
    /// A configuration of the three LED currents, in nanoamperes.
    pub fn new(led1: i64, led2: i64, led3: i64) -> (r: Self)
        ensures
            r.led1_na() == led1,
            r.led2_na() == led2,
            r.led3_na() == led3,
    {
        Self::from_currents(led1, led2, led3)
    }

    /// The current of LED3, in nanoamperes.
    pub fn led3(&self) -> (r: i64)
        ensures
            r == self.led3_na(),
    {
        self.led3
    }
}

impl LedCurrentConfiguration<TwoLedsMode> {
    /// A configuration of the two LED currents, in nanoamperes.
    pub fn new(led1: i64, led2: i64) -> (r: Self)
        ensures
            r.led1_na() == led1,
            r.led2_na() == led2,
            r.led3_na() == 0,
    {
        Self::from_currents(led1, led2, 0)
    }
}

/// The register codes of the LED currents, and the shared range bit.
#[derive(Debug, Clone, Copy, PartialEq, Eq)]
pub struct LedCurrentCodes {
    pub iled1: u8,
    pub iled2: u8,
    pub iled3: u8,
    pub high_current: bool,
}

/// Whether `c` holds the codes of the currents `l1`, `l2`, `l3`.
pub open spec fn codes_of_currents(l1: int, l2: int, l3: int, c: LedCurrentCodes) -> bool {
    &&& c.high_current == high_current(l1, l2, l3)
    &&& c.iled1 == led_code(l1, c.high_current)
    &&& c.iled2 == led_code(l2, c.high_current)
    &&& c.iled3 == led_code(l3, c.high_current)
}

/// The code of one LED current in the chosen range.
fn led_code_of(x: i64, high: bool) -> (r: u8)
    requires
        0 <= x <= led_range_na(high),
    ensures
        r == led_code(x as int, high),
        r <= 63,
{
    let range: i64 = if high {
        LED_RANGE_HIGH_NA
    } else {
        LED_RANGE_LOW_NA
    };
    proof {
        lemma_round_div_range(x * 63, range as int, 63);
    }
    round_div_u64((x * 63) as u64, range as u64) as u8
}

/// The current that an LED code drives in the chosen range, in nanoamperes.
pub fn led_current_from_code(code: u8, high: bool) -> (r: i64)
    requires
        code <= 63,
    ensures
        r == led_current_of_code(code as int, high),
        0 <= r <= led_range_na(high),
{
    let range: i64 = if high {
        LED_RANGE_HIGH_NA
    } else {
        LED_RANGE_LOW_NA
    };
    proof {
        assert(0 <= code * range <= 63 * range) by (nonlinear_arith)
            requires
                code <= 63,
                0 < range,
        ;
        lemma_round_div_range(code * range, 63, range as int);
        assert(code * range <= 63 * LED_RANGE_HIGH_NA) by (nonlinear_arith)
            requires
                code <= 63,
                0 < range <= LED_RANGE_HIGH_NA,
        ;
    }
    round_div_u64(code as u64 * range as u64, 63) as i64
}

/// Picks the shared range and quantizes three LED currents: `None` when one of them is
/// negative or above 100 mA.
pub fn led_current_codes(l1: i64, l2: i64, l3: i64) -> (r: Option<LedCurrentCodes>)
    ensures
        r is None <==> !(led_current_in_range(l1 as int) && led_current_in_range(l2 as int)
            && led_current_in_range(l3 as int)),
        r matches Some(c) ==> codes_of_currents(l1 as int, l2 as int, l3 as int, c),
        r matches Some(c) ==> c.iled1 <= 63 && c.iled2 <= 63 && c.iled3 <= 63,
{
    if l1 < 0 || l2 < 0 || l3 < 0 || l1 > LED_RANGE_HIGH_NA || l2 > LED_RANGE_HIGH_NA || l3
        > LED_RANGE_HIGH_NA {
        return None;
    }
    let high = l1 > LED_RANGE_LOW_NA || l2 > LED_RANGE_LOW_NA || l3 > LED_RANGE_LOW_NA;
    Some(
        LedCurrentCodes {
            iled1: led_code_of(l1, high),
            iled2: led_code_of(l2, high),
            iled3: led_code_of(l3, high),
            high_current: high,
        },
    )
}

/// The value of register 22h that holds the three LED codes.
pub fn r22h_of_codes(c: &LedCurrentCodes) -> (r: u32)
    requires
        c.iled1 <= 63,
        c.iled2 <= 63,
        c.iled3 <= 63,
    ensures
        r == pack(r22h_fields(c.iled1 as u32, c.iled2 as u32, c.iled3 as u32)),
        r <= crate::register::REGISTER_MAX,
{
    proof {
        crate::register::lemma_low_mask_values();
        reveal_with_fuel(pack, 4);
        let fs = r22h_fields(c.iled1 as u32, c.iled2 as u32, c.iled3 as u32);
        assert(fs.drop_last().drop_last().drop_last() =~= Seq::<(u32, u32, u32)>::empty());
        assert(fs.drop_last() =~= seq![(0u32, 6u32, c.iled1 as u32), (6u32, 6u32, c.iled2 as u32)]);
        assert(fs.drop_last().drop_last() =~= seq![(0u32, 6u32, c.iled1 as u32)]);
    }
    let v = set_field(0, 0, 6, c.iled1 as u32);
    let v = set_field(v, 6, 6, c.iled2 as u32);
    set_field(v, 12, 6, c.iled3 as u32)
}

/// Reads the LED codes back from registers 22h and 23h.
pub fn codes_of_registers(r22h: u32, r23h: u32) -> (r: LedCurrentCodes)
    ensures
        r.iled1 == field(r22h, 0, 6),
        r.iled2 == field(r22h, 6, 6),
        r.iled3 == field(r22h, 12, 6),
        r.high_current == (field(r23h, ILED_2X_OFFSET, 1) == 1),
        r.iled1 <= 63 && r.iled2 <= 63 && r.iled3 <= 63,
{
    proof {
        crate::register::lemma_low_mask_values();
    }
    LedCurrentCodes {
        iled1: get_field(r22h, 0, 6) as u8,
        iled2: get_field(r22h, 6, 6) as u8,
        iled3: get_field(r22h, 12, 6) as u8,
        high_current: get_field(r23h, ILED_2X_OFFSET, 1) == 1,
    }
}

/// The currents that a set of codes drives.
pub fn currents_of_codes<MODE: LedMode>(c: &LedCurrentCodes) -> (r: LedCurrentConfiguration<MODE>)
    requires
        c.iled1 <= 63,
        c.iled2 <= 63,
        c.iled3 <= 63,
    ensures
        r.led1_na() == led_current_of_code(c.iled1 as int, c.high_current),
        r.led2_na() == led_current_of_code(c.iled2 as int, c.high_current),
        r.led3_na() == led_current_of_code(c.iled3 as int, c.high_current),
{
    LedCurrentConfiguration::from_currents(
        led_current_from_code(c.iled1, c.high_current),
        led_current_from_code(c.iled2, c.high_current),
        led_current_from_code(c.iled3, c.high_current),
    )
}

/// Setting LED currents within range and reading them back: each current comes back within
/// one quantization step of the one requested, the range bit is set exactly when a current is
/// above 50 mA, and the registers that were written decode to the same codes, hence to the
/// same currents.
pub proof fn lemma_leds_current_round_trip(l1: int, l2: int, l3: int, r23h_prev: u32)
    requires
        led_current_in_range(l1),
        led_current_in_range(l2),
        led_current_in_range(l3),
        r23h_prev <= crate::register::REGISTER_MAX,
    ensures
        ({
            let high = high_current(l1, l2, l3);
            let c1 = led_code(l1, high);
            let c2 = led_code(l2, high);
            let c3 = led_code(l3, high);
            let r22h = pack(r22h_fields(c1 as u32, c2 as u32, c3 as u32));
            let r23h = with_field(r23h_prev, ILED_2X_OFFSET, 1, if high { 1 } else { 0 });
            &&& LED_STEPS * (led_current_of_code(c1, high) - l1) <= led_range_na(high)
            &&& LED_STEPS * (l1 - led_current_of_code(c1, high)) <= led_range_na(high)
            &&& LED_STEPS * (led_current_of_code(c2, high) - l2) <= led_range_na(high)
            &&& LED_STEPS * (l2 - led_current_of_code(c2, high)) <= led_range_na(high)
            &&& LED_STEPS * (led_current_of_code(c3, high) - l3) <= led_range_na(high)
            &&& LED_STEPS * (l3 - led_current_of_code(c3, high)) <= led_range_na(high)
            &&& field(r22h, 0, 6) == c1
            &&& field(r22h, 6, 6) == c2
            &&& field(r22h, 12, 6) == c3
            &&& (field(r23h, ILED_2X_OFFSET, 1) == 1) == high
        }),
{
    let high = high_current(l1, l2, l3);
    let range = led_range_na(high);
    lemma_linear_quantization(l1, range, 63);
    lemma_linear_quantization(l2, range, 63);
    lemma_linear_quantization(l3, range, 63);
    let c1 = led_code(l1, high);
    let c2 = led_code(l2, high);
    let c3 = led_code(l3, high);
    crate::register::lemma_low_mask_values();
    let fs = r22h_fields(c1 as u32, c2 as u32, c3 as u32);
    assert(well_laid(fs));
    lemma_pack_fields(fs);
    assert(fs[0].0 == 0 && fs[1].0 == 6 && fs[2].0 == 12);
    let b: u32 = if high { 1 } else { 0 };
    crate::register::lemma_field_of_with_field(r23h_prev, ILED_2X_OFFSET, 1, b);
}

/// Whether an offset current can be cancelled: between -7 µA and 7 µA.
pub open spec fn offset_in_range(x: int) -> bool {
    -OFFSET_RANGE_NA <= x <= OFFSET_RANGE_NA
}

/// The magnitude code of an offset current: `round(|x| / (7 µA / 15))`.
pub open spec fn offset_code(x: int) -> int {
    round_div((if x < 0 { -x } else { x }) * OFFSET_STEPS, OFFSET_RANGE_NA as int)
}

/// The offset current that a magnitude code and a sign bit stand for, in nanoamperes.
pub open spec fn offset_of_code(magnitude: int, negative: bool) -> int {
    let m = round_div(magnitude * OFFSET_RANGE_NA, OFFSET_STEPS as int);
    if negative {
        -m
    } else {
        m
    }
}

/// The offset cancellation currents of one configuration, in nanoamperes.
#[derive(Debug)]
pub struct OffsetCurrentConfiguration<MODE: LedMode> {
    led1: i64,
    led2: i64,
    ambient1: i64,
    ambient2_or_led3: i64,
    mode: core::marker::PhantomData<MODE>,
}

impl<MODE: LedMode> OffsetCurrentConfiguration<MODE> {
    /// The offset current of LED1.
    pub closed spec fn led1_na(&self) -> int {
        self.led1 as int
    }

    /// The offset current of LED2.
    pub closed spec fn led2_na(&self) -> int {
        self.led2 as int
    }

    /// The offset current of the first ambient phase.
    pub closed spec fn ambient1_na(&self) -> int {
        self.ambient1 as int
    }

    /// The offset current of LED3 in three-LED mode, of the second ambient phase in two-LED
    /// mode.
    pub closed spec fn ambient2_or_led3_na(&self) -> int {
        self.ambient2_or_led3 as int
    }

    pub(crate) fn from_currents(led1: i64, led2: i64, ambient1: i64, ambient2_or_led3: i64) -> (r:
        Self)
        ensures
            r.led1_na() == led1,
            r.led2_na() == led2,
            r.ambient1_na() == ambient1,
            r.ambient2_or_led3_na() == ambient2_or_led3,
    {
        OffsetCurrentConfiguration {
            led1,
            led2,
            ambient1,
            ambient2_or_led3,
            mode: core::marker::PhantomData,
        }
    }

    /// The offset current of LED1, in nanoamperes.
    pub fn led1(&self) -> (r: i64)
        ensures
            r == self.led1_na(),
    {
        self.led1
    }

    /// The offset current of LED2, in nanoamperes.
    pub fn led2(&self) -> (r: i64)
        ensures
            r == self.led2_na(),
    {
        self.led2
    }

    pub(crate) fn ambient1_raw(&self) -> (r: i64)
        ensures
            r == self.ambient1_na(),
    {
        self.ambient1
    }

    pub(crate) fn ambient2_or_led3_raw(&self) -> (r: i64)
        ensures
            r == self.ambient2_or_led3_na(),
    {
        self.ambient2_or_led3
    }
}

impl OffsetCurrentConfiguration<ThreeLedsMode> {
    /// A configuration of the offset currents of the three LEDs and the ambient phase.
    pub fn new(led1: i64, led2: i64, led3: i64, ambient: i64) -> (r: Self)
        ensures
            r.led1_na() == led1,
            r.led2_na() == led2,
            r.ambient2_or_led3_na() == led3,
            r.ambient1_na() == ambient,
    {
        Self::from_currents(led1, led2, ambient, led3)
    }

    /// The offset current of LED3, in nanoamperes.
    pub fn led3(&self) -> (r: i64)
        ensures
            r == self.ambient2_or_led3_na(),
    {
        self.ambient2_or_led3
    }

    /// The offset current of the ambient phase, in nanoamperes.
    pub fn ambient(&self) -> (r: i64)
        ensures
            r == self.ambient1_na(),
    {
        self.ambient1
    }
}

impl OffsetCurrentConfiguration<TwoLedsMode> {
    /// A configuration of the offset currents of the two LEDs and the two ambient phases.
    pub fn new(led1: i64, led2: i64, ambient1: i64, ambient2: i64) -> (r: Self)
        ensures
            r.led1_na() == led1,
            r.led2_na() == led2,
            r.ambient1_na() == ambient1,
            r.ambient2_or_led3_na() == ambient2,
    {
        Self::from_currents(led1, led2, ambient1, ambient2)
    }

    /// The offset current of the first ambient phase, in nanoamperes.
    pub fn ambient1(&self) -> (r: i64)
        ensures
            r == self.ambient1_na(),
    {
        self.ambient1
    }

    /// The offset current of the second ambient phase, in nanoamperes.
    pub fn ambient2(&self) -> (r: i64)
        ensures
            r == self.ambient2_or_led3_na(),
    {
        self.ambient2_or_led3
    }
}

/// The register code of one offset current: a magnitude and a sign bit.
#[derive(Debug, Clone, Copy, PartialEq, Eq)]
pub struct OffsetCode {
    pub magnitude: u8,
    pub negative: bool,
}

/// The codes of the four offset currents.
#[derive(Debug, Clone, Copy, PartialEq, Eq)]
pub struct OffsetCurrentCodes {
    pub led1: OffsetCode,
    pub led2: OffsetCode,
    pub ambient1: OffsetCode,
    pub ambient2_or_led3: OffsetCode,
}

/// Whether `c` is the code of the offset current `x`.
pub open spec fn is_offset_code(x: int, c: OffsetCode) -> bool {
    c.magnitude == offset_code(x) && c.negative == (x < 0)
}

/// The code of one offset current.
pub fn offset_code_of(x: i64) -> (r: OffsetCode)
    requires
        offset_in_range(x as int),
    ensures
        is_offset_code(x as int, r),
        r.magnitude <= 15,
{
    let m: i64 = if x < 0 {
        -x
    } else {
        x
    };
    proof {
        lemma_round_div_range(m * 15, OFFSET_RANGE_NA as int, 15);
    }
    OffsetCode { magnitude: round_div_u64((m * 15) as u64, OFFSET_RANGE_NA as u64) as u8, negative: x < 0 }
}

/// The offset current that a code stands for, in nanoamperes.
pub fn offset_current_from_code(c: OffsetCode) -> (r: i64)
    requires
        c.magnitude <= 15,
    ensures
        r == offset_of_code(c.magnitude as int, c.negative),
        offset_in_range(r as int),
{
    proof {
        lemma_round_div_range(c.magnitude * OFFSET_RANGE_NA, 15, OFFSET_RANGE_NA as int);
    }
    let m = round_div_u64(c.magnitude as u64 * OFFSET_RANGE_NA as u64, 15) as i64;
    if c.negative {
        -m
    } else {
        m
    }
}

/// Quantizes four offset currents: `None` when one of them lies outside ±7 µA.
pub fn offset_current_codes<MODE: LedMode>(config: &OffsetCurrentConfiguration<MODE>) -> (r: Option<
    OffsetCurrentCodes,
>)
    ensures
        r is None <==> !(offset_in_range(config.led1_na()) && offset_in_range(config.led2_na())
            && offset_in_range(config.ambient1_na()) && offset_in_range(
            config.ambient2_or_led3_na(),
        )),
        r matches Some(c) ==> {
            &&& is_offset_code(config.led1_na(), c.led1)
            &&& is_offset_code(config.led2_na(), c.led2)
            &&& is_offset_code(config.ambient1_na(), c.ambient1)
            &&& is_offset_code(config.ambient2_or_led3_na(), c.ambient2_or_led3)
            &&& offset_codes_fit(c)
        },
{
    let l1 = config.led1();
    let l2 = config.led2();
    let a1 = config.ambient1_raw();
    let a2 = config.ambient2_or_led3_raw();
    if l1 < -OFFSET_RANGE_NA || l1 > OFFSET_RANGE_NA || l2 < -OFFSET_RANGE_NA || l2
        > OFFSET_RANGE_NA || a1 < -OFFSET_RANGE_NA || a1 > OFFSET_RANGE_NA || a2
        < -OFFSET_RANGE_NA || a2 > OFFSET_RANGE_NA {
        return None;
    }
    Some(
        OffsetCurrentCodes {
            led1: offset_code_of(l1),
            led2: offset_code_of(l2),
            ambient1: offset_code_of(a1),
            ambient2_or_led3: offset_code_of(a2),
        },
    )
}

/// Whether every magnitude fits in its four bits.
pub open spec fn offset_codes_fit(c: OffsetCurrentCodes) -> bool {
    c.led1.magnitude <= 15 && c.led2.magnitude <= 15 && c.ambient1.magnitude <= 15
        && c.ambient2_or_led3.magnitude <= 15
}

/// A sign bit as a one-bit field.
pub open spec fn bit(b: bool) -> u32 {
    if b {
        1
    } else {
        0
    }
}

/// The fields of register 3Ah, from the least significant: the magnitude and sign of the
/// second ambient (or LED3), of LED1, of the first ambient, and of LED2.
pub open spec fn r3ah_fields(c: OffsetCurrentCodes) -> Seq<(u32, u32, u32)> {
    seq![
        (0u32, 4u32, c.ambient2_or_led3.magnitude as u32),
        (4u32, 1u32, bit(c.ambient2_or_led3.negative)),
        (5u32, 4u32, c.led1.magnitude as u32),
        (9u32, 1u32, bit(c.led1.negative)),
        (10u32, 4u32, c.ambient1.magnitude as u32),
        (14u32, 1u32, bit(c.ambient1.negative)),
        (15u32, 4u32, c.led2.magnitude as u32),
        (19u32, 1u32, bit(c.led2.negative)),
    ]
}

fn bit_of(b: bool) -> (r: u32)
    ensures
        r == bit(b),
{
    if b {
        1
    } else {
        0
    }
}

/// The value of register 3Ah that holds the four offset codes.
pub fn r3ah_of_codes(c: &OffsetCurrentCodes) -> (r: u32)
    requires
        offset_codes_fit(*c),
    ensures
        r == pack(r3ah_fields(*c)),
        r <= crate::register::REGISTER_MAX,
{
    proof {
        crate::register::lemma_low_mask_values();
    }
    let v0 = set_field(0, 0, 4, c.ambient2_or_led3.magnitude as u32);
    let v1 = set_field(v0, 4, 1, bit_of(c.ambient2_or_led3.negative));
    let v2 = set_field(v1, 5, 4, c.led1.magnitude as u32);
    let v3 = set_field(v2, 9, 1, bit_of(c.led1.negative));
    let v4 = set_field(v3, 10, 4, c.ambient1.magnitude as u32);
    let v5 = set_field(v4, 14, 1, bit_of(c.ambient1.negative));
    let v6 = set_field(v5, 15, 4, c.led2.magnitude as u32);
    let v7 = set_field(v6, 19, 1, bit_of(c.led2.negative));
    proof {
        let fs = r3ah_fields(*c);
        assert(pack(fs.take(0)) == 0);
        assert(fs.take(1).drop_last() =~= fs.take(0));
        assert(fs.take(2).drop_last() =~= fs.take(1));
        assert(fs.take(3).drop_last() =~= fs.take(2));
        assert(fs.take(4).drop_last() =~= fs.take(3));
        assert(fs.take(5).drop_last() =~= fs.take(4));
        assert(fs.take(6).drop_last() =~= fs.take(5));
        assert(fs.take(7).drop_last() =~= fs.take(6));
        assert(fs.take(8).drop_last() =~= fs.take(7));
        assert(fs.take(8) =~= fs);
        assert(v0 == pack(fs.take(1)));
        assert(v1 == pack(fs.take(2)));
        assert(v2 == pack(fs.take(3)));
        assert(v3 == pack(fs.take(4)));
        assert(v4 == pack(fs.take(5)));
        assert(v5 == pack(fs.take(6)));
        assert(v6 == pack(fs.take(7)));
        assert(v7 == pack(fs.take(8)));
    }
    v7
}

fn offset_code_at(r3ah: u32, offset: u32) -> (r: OffsetCode)
    requires
        offset <= 19,
    ensures
        r.magnitude == field(r3ah, offset, 4),
        r.negative == (field(r3ah, (offset + 4) as u32, 1) == 1),
        r.magnitude <= 15,
{
    proof {
        crate::register::lemma_low_mask_values();
    }
    OffsetCode {
        magnitude: get_field(r3ah, offset, 4) as u8,
        negative: get_field(r3ah, offset + 4, 1) == 1,
    }
}

/// Reads the offset codes back from register 3Ah.
pub fn offset_codes_of_register(r3ah: u32) -> (r: OffsetCurrentCodes)
    ensures
        r.ambient2_or_led3.magnitude == field(r3ah, 0, 4),
        r.ambient2_or_led3.negative == (field(r3ah, 4, 1) == 1),
        r.led1.magnitude == field(r3ah, 5, 4),
        r.led1.negative == (field(r3ah, 9, 1) == 1),
        r.ambient1.magnitude == field(r3ah, 10, 4),
        r.ambient1.negative == (field(r3ah, 14, 1) == 1),
        r.led2.magnitude == field(r3ah, 15, 4),
        r.led2.negative == (field(r3ah, 19, 1) == 1),
        offset_codes_fit(r),
{
    OffsetCurrentCodes {
        led1: offset_code_at(r3ah, 5),
        led2: offset_code_at(r3ah, 15),
        ambient1: offset_code_at(r3ah, 10),
        ambient2_or_led3: offset_code_at(r3ah, 0),
    }
}

/// The offset currents that a set of codes stands for.
pub fn offset_currents_of_codes<MODE: LedMode>(c: &OffsetCurrentCodes) -> (r:
    OffsetCurrentConfiguration<MODE>)
    requires
        offset_codes_fit(*c),
    ensures
        r.led1_na() == offset_of_code(c.led1.magnitude as int, c.led1.negative),
        r.led2_na() == offset_of_code(c.led2.magnitude as int, c.led2.negative),
        r.ambient1_na() == offset_of_code(c.ambient1.magnitude as int, c.ambient1.negative),
        r.ambient2_or_led3_na() == offset_of_code(
            c.ambient2_or_led3.magnitude as int,
            c.ambient2_or_led3.negative,
        ),
{
    OffsetCurrentConfiguration::from_currents(
        offset_current_from_code(c.led1),
        offset_current_from_code(c.led2),
        offset_current_from_code(c.ambient1),
        offset_current_from_code(c.ambient2_or_led3),
    )
}

/// An offset current within range comes back within one quantization step (7 µA / 15).
pub proof fn lemma_offset_current_error(x: int)
    requires
        offset_in_range(x),
    ensures
        OFFSET_STEPS * (offset_of_code(offset_code(x), x < 0) - x) <= OFFSET_RANGE_NA,
        OFFSET_STEPS * (x - offset_of_code(offset_code(x), x < 0)) <= OFFSET_RANGE_NA,
{
    let m = if x < 0 {
        -x
    } else {
        x
    };
    lemma_linear_quantization(m, OFFSET_RANGE_NA as int, OFFSET_STEPS as int);
}

/// Writing the codes of four offset currents into register 3Ah and reading them back gives the
/// same codes.
pub proof fn lemma_offset_register_round_trip(c: OffsetCurrentCodes)
    requires
        offset_codes_fit(c),
    ensures
        ({
            let v = pack(r3ah_fields(c));
            &&& field(v, 0, 4) == c.ambient2_or_led3.magnitude
            &&& (field(v, 4, 1) == 1) == c.ambient2_or_led3.negative
            &&& field(v, 5, 4) == c.led1.magnitude
            &&& (field(v, 9, 1) == 1) == c.led1.negative
            &&& field(v, 10, 4) == c.ambient1.magnitude
            &&& (field(v, 14, 1) == 1) == c.ambient1.negative
            &&& field(v, 15, 4) == c.led2.magnitude
            &&& (field(v, 19, 1) == 1) == c.led2.negative
        }),
{
    crate::register::lemma_low_mask_values();
    let fs = r3ah_fields(c);
    assert(well_laid(fs));
    lemma_pack_fields(fs);
    assert(fs[0].0 == 0 && fs[1].0 == 4 && fs[2].0 == 5 && fs[3].0 == 9);
    assert(fs[4].0 == 10 && fs[5].0 == 14 && fs[6].0 == 15 && fs[7].0 == 19);
}

} // verus!

verus! {

/// Whether `c` holds the LED currents that registers 22h and 23h stand for.
pub open spec fn leds_current_of_registers<MODE: LedMode>(
    r22h: u32,
    r23h: u32,
    c: LedCurrentConfiguration<MODE>,
) -> bool {
    let high = field(r23h, ILED_2X_OFFSET, 1) == 1;
    &&& c.led1_na() == led_current_of_code(field(r22h, 0, 6) as int, high)
    &&& c.led2_na() == led_current_of_code(field(r22h, 6, 6) as int, high)
    &&& c.led3_na() == led_current_of_code(field(r22h, 12, 6) as int, high)
}

/// Whether `c` holds the offset currents that register 3Ah stands for.
pub open spec fn offset_current_of_register<MODE: LedMode>(
    r3ah: u32,
    c: OffsetCurrentConfiguration<MODE>,
) -> bool {
    &&& c.ambient2_or_led3_na() == offset_of_code(field(r3ah, 0, 4) as int, field(r3ah, 4, 1) == 1)
    &&& c.led1_na() == offset_of_code(field(r3ah, 5, 4) as int, field(r3ah, 9, 1) == 1)
    &&& c.ambient1_na() == offset_of_code(field(r3ah, 10, 4) as int, field(r3ah, 14, 1) == 1)
    &&& c.led2_na() == offset_of_code(field(r3ah, 15, 4) as int, field(r3ah, 19, 1) == 1)
}

/// The register writes that set the LED currents `l1`, `l2`, `l3`, register 23h having held
/// `r23h`: the three codes into 22h, then 23h with its range bit written and its other bits kept.
pub open spec fn leds_current_writes(l1: int, l2: int, l3: int, r23h: u32) -> Seq<(u8, u32)> {
    let high = high_current(l1, l2, l3);
    seq![
        (0x22u8, pack(r22h_fields(led_code(l1, high) as u32, led_code(l2, high) as u32, led_code(l3, high) as u32))),
        (0x23u8, with_field(r23h, ILED_2X_OFFSET, 1, if high { 1 } else { 0 })),
    ]
}

/// The register write that sets four offset currents: their codes into 3Ah.
pub open spec fn offset_current_writes(a: int, b: int, c: int, d: int) -> Seq<(u8, u32)> {
    let code = |x: int| OffsetCode { magnitude: offset_code(x) as u8, negative: x < 0 };
    seq![
        (0x3Au8, pack(
            r3ah_fields(
                OffsetCurrentCodes { led1: code(a), led2: code(b), ambient1: code(c), ambient2_or_led3: code(d) },
            ),
        )),
    ]
}

impl<B: I2cBus, MODE: LedMode> AFE4404<B, MODE> {
    /// Sets the LED currents.
    ///
    /// The 0-100 mA range is chosen when one of the currents is above 50 mA, else the 0-50 mA
    /// one; the range bit is shared by all the LEDs. Each current is rounded to the nearest of
    /// 63 steps of the range, and the currents that now hold are returned. A current that is
    /// negative or above 100 mA is refused before any bus transfer.
    pub fn set_leds_current(&mut self, configuration: &LedCurrentConfiguration<MODE>) -> (r: Result<
        LedCurrentConfiguration<MODE>,
        AfeError<B::Error>,
    >)
        ensures
            final(self).same_device(old(self)),
            ({
                let l1 = configuration.led1_na();
                let l2 = configuration.led2_na();
                let l3 = configuration.led3_na();
                let high = high_current(l1, l2, l3);
                &&& !(led_current_in_range(l1) && led_current_in_range(l2) && led_current_in_range(l3))
                    ==> r == Err::<LedCurrentConfiguration<MODE>, AfeError<B::Error>>(
                    AfeError::LedCurrentOutsideAllowedRange,
                ) && *final(self) == *old(self)
                &&& r matches Ok(c) ==> {
                    &&& c.led1_na() == led_current_of_code(led_code(l1, high), high)
                    &&& c.led2_na() == led_current_of_code(led_code(l2, high), high)
                    &&& c.led3_na() == led_current_of_code(led_code(l3, high), high)
                }
                &&& (r matches Err(e) && e is LedCurrentOutsideAllowedRange) ==> !(led_current_in_range(l1)
                    && led_current_in_range(l2) && led_current_in_range(l3))
                &&& r matches Err(e) ==> (e is LedCurrentOutsideAllowedRange || is_bus_error(e))
                &&& (r is Ok || (r matches Err(e) && is_bus_error(e))) ==> exists|answers: Seq<Seq<u8>>|
                    #[trigger] exchanged(
                        old(self).log(),
                        final(self).log(),
                        old(self).address_spec(),
                        one_reg(0x23u8),
                        answers,
                        leds_current_writes(l1, l2, l3, values(answers)[0]),
                        r is Ok,
                    )
            }),
    {
        let codes = match led_current_codes(
            configuration.led1(),
            configuration.led2(),
            configuration.led3_raw(),
        ) {
            Some(c) => c,
            None => {
                return Err(AfeError::LedCurrentOutsideAllowedRange);
            },
        };
        let ghost before = self.log();
        let ghost address = self.address_spec();
        let regs = vec![0x23u8];
        assert(regs@ =~= one_reg(0x23u8));
        let (res, got) = self.read_regs(&regs);
        let ghost answers = got@;
        let vals = match res {
            Ok(v) => v,
            Err(e) => {
                assert(exchanged(before, self.log(), address, regs@, answers, leds_current_writes(
                    configuration.led1_na(),
                    configuration.led2_na(),
                    configuration.led3_na(),
                    values(answers)[0],
                ), false));
                return Err(e);
            },
        };
        let b: u32 = if codes.high_current {
            1
        } else {
            0
        };
        proof {
            crate::register::lemma_low_mask_values();
        }
        let mut writes: Vec<(u8, u32)> = Vec::new();
        writes.push((0x22, r22h_of_codes(&codes)));
        writes.push((0x23, set_field(vals[0], ILED_2X_OFFSET, 1, b)));
        assert(writes@ =~= leds_current_writes(
            configuration.led1_na(),
            configuration.led2_na(),
            configuration.led3_na(),
            values(answers)[0],
        ));
        let ghost mid = self.log();
        let r = self.run_writes(&writes);
        proof {
            lemma_exchange(before, mid, self.log(), address, regs@, answers, writes@, r is Ok);
            assert(exchanged(before, self.log(), address, regs@, answers, leds_current_writes(
                configuration.led1_na(),
                configuration.led2_na(),
                configuration.led3_na(),
                values(answers)[0],
            ), r is Ok));
        }
        match r {
            Ok(()) => Ok(currents_of_codes(&codes)),
            Err(e) => Err(e),
        }
    }

    /// Gets the LED currents.
    pub fn get_leds_current(&mut self) -> (r: Result<LedCurrentConfiguration<MODE>, AfeError<B::Error>>)
        ensures
            final(self).same_device(old(self)),
            r matches Err(e) ==> is_bus_error(e),
            exists|answers: Seq<Seq<u8>>|
                #[trigger] exchanged(
                    old(self).log(),
                    final(self).log(),
                    old(self).address_spec(),
                    two_regs(0x22u8, 0x23u8),
                    answers,
                    Seq::empty(),
                    finished(r),
                ) && (r matches Ok(c) ==> leds_current_of_registers(values(answers)[0], values(answers)[1], c)),
    {
        let ghost before = self.log();
        let ghost address = self.address_spec();
        let regs = vec![0x22u8, 0x23u8];
        assert(regs@ =~= two_regs(0x22u8, 0x23u8));
        let (res, got) = self.read_regs(&regs);
        let ghost answers = got@;
        let vals = match res {
            Ok(v) => v,
            Err(e) => {
                let r = Err(e);
                assert(exchanged(before, self.log(), address, regs@, answers, Seq::empty(), finished(r)));
                return r;
            },
        };
        let c = currents_of_codes(&codes_of_registers(vals[0], vals[1]));
        assert(leds_current_of_registers(values(answers)[0], values(answers)[1], c));
        let r = Ok(c);
        assert(exchanged(before, self.log(), address, regs@, answers, Seq::empty(), finished(r)));
        r
    }

    /// Sets the offset cancellation currents.
    ///
    /// Each current is rounded to the nearest of 15 steps of 7 µA, with its sign kept apart,
    /// and the currents that now hold are returned. A current outside ±7 µA is refused before
    /// any bus transfer.
    pub fn set_offset_current(&mut self, configuration: &OffsetCurrentConfiguration<MODE>) -> (r:
        Result<OffsetCurrentConfiguration<MODE>, AfeError<B::Error>>)
        ensures
            final(self).same_device(old(self)),
            !(offset_in_range(configuration.led1_na()) && offset_in_range(configuration.led2_na())
                && offset_in_range(configuration.ambient1_na()) && offset_in_range(
                configuration.ambient2_or_led3_na(),
            )) ==> r == Err::<OffsetCurrentConfiguration<MODE>, AfeError<B::Error>>(
                AfeError::OffsetCurrentOutsideAllowedRange,
            ) && *final(self) == *old(self),
            r matches Ok(c) ==> {
                &&& c.led1_na() == offset_of_code(offset_code(configuration.led1_na()), configuration.led1_na() < 0)
                &&& c.led2_na() == offset_of_code(offset_code(configuration.led2_na()), configuration.led2_na() < 0)
                &&& c.ambient1_na() == offset_of_code(
                    offset_code(configuration.ambient1_na()),
                    configuration.ambient1_na() < 0,
                )
                &&& c.ambient2_or_led3_na() == offset_of_code(
                    offset_code(configuration.ambient2_or_led3_na()),
                    configuration.ambient2_or_led3_na() < 0,
                )
            },
            (r matches Err(e) && e is OffsetCurrentOutsideAllowedRange) ==> !(offset_in_range(
                configuration.led1_na(),
            ) && offset_in_range(configuration.led2_na()) && offset_in_range(configuration.ambient1_na())
                && offset_in_range(configuration.ambient2_or_led3_na())),
            r matches Err(e) ==> (e is OffsetCurrentOutsideAllowedRange || is_bus_error(e)),
            (r is Ok || (r matches Err(e) && is_bus_error(e))) ==> exchanged(
                old(self).log(),
                final(self).log(),
                old(self).address_spec(),
                Seq::empty(),
                Seq::empty(),
                offset_current_writes(
                    configuration.led1_na(),
                    configuration.led2_na(),
                    configuration.ambient1_na(),
                    configuration.ambient2_or_led3_na(),
                ),
                r is Ok,
            ),
    {
        let codes = match offset_current_codes(configuration) {
            Some(c) => c,
            None => {
                return Err(AfeError::OffsetCurrentOutsideAllowedRange);
            },
        };
        let ghost before = self.log();
        let mut writes: Vec<(u8, u32)> = Vec::new();
        writes.push((0x3A, r3ah_of_codes(&codes)));
        assert(writes@ =~= offset_current_writes(
            configuration.led1_na(),
            configuration.led2_na(),
            configuration.ambient1_na(),
            configuration.ambient2_or_led3_na(),
        ));
        let r = self.run_writes(&writes);
        proof {
            lemma_exchange_writes(before, self.log(), self.address_spec(), writes@, r is Ok);
        }
        match r {
            Ok(()) => Ok(offset_currents_of_codes(&codes)),
            Err(e) => Err(e),
        }
    }

    /// Gets the offset cancellation currents.
    pub fn get_offset_current(&mut self) -> (r: Result<OffsetCurrentConfiguration<MODE>, AfeError<B::Error>>)
        ensures
            final(self).same_device(old(self)),
            r matches Err(e) ==> is_bus_error(e),
            exists|answers: Seq<Seq<u8>>|
                #[trigger] exchanged(
                    old(self).log(),
                    final(self).log(),
                    old(self).address_spec(),
                    one_reg(0x3Au8),
                    answers,
                    Seq::empty(),
                    finished(r),
                ) && (r matches Ok(c) ==> offset_current_of_register(values(answers)[0], c)),
    {
        let ghost before = self.log();
        let ghost address = self.address_spec();
        let regs = vec![0x3Au8];
        assert(regs@ =~= one_reg(0x3Au8));
        let (res, got) = self.read_regs(&regs);
        let ghost answers = got@;
        let vals = match res {
            Ok(v) => v,
            Err(e) => {
                let r = Err(e);
                assert(exchanged(before, self.log(), address, regs@, answers, Seq::empty(), finished(r)));
                return r;
            },
        };
        let c = offset_currents_of_codes(&offset_codes_of_register(vals[0]));
        assert(offset_current_of_register(values(answers)[0], c));
        let r = Ok(c);
        assert(exchanged(before, self.log(), address, regs@, answers, Seq::empty(), finished(r)));
        r
    }
}

} // verus!

verus! {

/// Reading the LED currents back right after setting them gives exactly the currents that the
/// setter returned: whatever configuration registers 22h and 23h, as written, stand for holds
/// those currents.
pub proof fn lemma_leds_current_get_after_set<MODE: LedMode>(
    l1: int,
    l2: int,
    l3: int,
    r23h_prev: u32,
    c: LedCurrentConfiguration<MODE>,
)
    requires
        led_current_in_range(l1),
        led_current_in_range(l2),
        led_current_in_range(l3),
        r23h_prev <= crate::register::REGISTER_MAX,
        ({
            let high = high_current(l1, l2, l3);
            let r22h = pack(
                r22h_fields(
                    led_code(l1, high) as u32,
                    led_code(l2, high) as u32,
                    led_code(l3, high) as u32,
                ),
            );
            let r23h = with_field(r23h_prev, ILED_2X_OFFSET, 1, if high { 1 } else { 0 });
            leds_current_of_registers(r22h, r23h, c)
        }),
    ensures
        ({
            let high = high_current(l1, l2, l3);
            &&& c.led1_na() == led_current_of_code(led_code(l1, high), high)
            &&& c.led2_na() == led_current_of_code(led_code(l2, high), high)
            &&& c.led3_na() == led_current_of_code(led_code(l3, high), high)
        }),
{
    lemma_leds_current_round_trip(l1, l2, l3, r23h_prev);
    let high = high_current(l1, l2, l3);
    lemma_linear_quantization(l1, led_range_na(high), 63);
    lemma_linear_quantization(l2, led_range_na(high), 63);
    lemma_linear_quantization(l3, led_range_na(high), 63);
}

/// Reading the offset currents back right after setting them gives exactly the currents that
/// the setter returned.
pub proof fn lemma_offset_current_get_after_set<MODE: LedMode>(
    codes: OffsetCurrentCodes,
    c: OffsetCurrentConfiguration<MODE>,
)
    requires
        offset_codes_fit(codes),
        offset_current_of_register(pack(r3ah_fields(codes)), c),
    ensures
        c.led1_na() == offset_of_code(codes.led1.magnitude as int, codes.led1.negative),
        c.led2_na() == offset_of_code(codes.led2.magnitude as int, codes.led2.negative),
        c.ambient1_na() == offset_of_code(codes.ambient1.magnitude as int, codes.ambient1.negative),
        c.ambient2_or_led3_na() == offset_of_code(
            codes.ambient2_or_led3.magnitude as int,
            codes.ambient2_or_led3.negative,
        ),
{
    lemma_offset_register_round_trip(codes);
}

} // verus!
