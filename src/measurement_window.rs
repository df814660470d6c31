//! The measurement window: its period, the phase boundaries of each channel, and the
//! synthesis of the clock divider, the window counter and the phase registers.
use vstd::prelude::*;

use crate::device::{
    exchanged, finished, is_bus_error, lemma_exchange, one_reg, values, AFE4404,
};
use crate::error::AfeError;
use crate::register::{field, get_field, set_field, with_field, I2cBus, Transfer};

use crate::modes::{LedMode, ThreeLedsMode, TwoLedsMode};
use crate::quantize::{lemma_round_div_bounds, lemma_round_div_range, round_div, round_div_u128};

verus! {

/// Nanoseconds in a second.
pub const NS_PER_S: u64 = 1_000_000_000;

/// Number of counts of the 16-bit window counter.
pub const COUNTER_SPAN: u64 = 65_536;

/// Largest value of a 16-bit phase register.
pub const PHASE_MAX: u32 = 0xFFFF;

/// Number of phase boundaries of a measurement window.
pub const BOUNDARY_COUNT: usize = 32;

/// The phase boundaries of an LED channel, in nanoseconds from the start of the window.
#[derive(Debug, Clone, Copy, PartialEq, Eq, Default)]
pub struct LedTiming {
    pub lighting_st: i64,
    pub lighting_end: i64,
    pub sample_st: i64,
    pub sample_end: i64,
    pub reset_st: i64,
    pub reset_end: i64,
    pub conv_st: i64,
    pub conv_end: i64,
}

/// The phase boundaries of an ambient channel, in nanoseconds; it has no LED-on phase.
#[derive(Debug, Clone, Copy, PartialEq, Eq, Default)]
pub struct AmbientTiming {
    pub sample_st: i64,
    pub sample_end: i64,
    pub reset_st: i64,
    pub reset_end: i64,
    pub conv_st: i64,
    pub conv_end: i64,
}

/// The dynamic power-down phase of a window, in nanoseconds.
#[derive(Debug, Clone, Copy, PartialEq, Eq, Default)]
pub struct PowerDownTiming {
    pub power_down_st: i64,
    pub power_down_end: i64,
}

impl PowerDownTiming {
    /// A power-down phase from `power_down_st` to `power_down_end`, in nanoseconds.
    pub fn new(power_down_st: i64, power_down_end: i64) -> (r: Self)
        ensures
            r.power_down_st == power_down_st,
            r.power_down_end == power_down_end,
    {
        PowerDownTiming { power_down_st, power_down_end }
    }
}

/// An ambient channel seen as an LED channel whose LED-on phase is empty.
pub open spec fn led_timing_of_ambient(a: AmbientTiming) -> LedTiming {
    LedTiming {
        lighting_st: 0,
        lighting_end: 0,
        sample_st: a.sample_st,
        sample_end: a.sample_end,
        reset_st: a.reset_st,
        reset_end: a.reset_end,
        conv_st: a.conv_st,
        conv_end: a.conv_end,
    }
}

/// The ambient phases of an LED channel.
pub open spec fn ambient_of_led_timing(t: LedTiming) -> AmbientTiming {
    AmbientTiming {
        sample_st: t.sample_st,
        sample_end: t.sample_end,
        reset_st: t.reset_st,
        reset_end: t.reset_end,
        conv_st: t.conv_st,
        conv_end: t.conv_end,
    }
}

fn to_led_timing(a: AmbientTiming) -> (r: LedTiming)
    ensures
        r == led_timing_of_ambient(a),
{
    LedTiming {
        lighting_st: 0,
        lighting_end: 0,
        sample_st: a.sample_st,
        sample_end: a.sample_end,
        reset_st: a.reset_st,
        reset_end: a.reset_end,
        conv_st: a.conv_st,
        conv_end: a.conv_end,
    }
}

fn to_ambient_timing(t: LedTiming) -> (r: AmbientTiming)
    ensures
        r == ambient_of_led_timing(t),
{
    AmbientTiming {
        sample_st: t.sample_st,
        sample_end: t.sample_end,
        reset_st: t.reset_st,
        reset_end: t.reset_end,
        conv_st: t.conv_st,
        conv_end: t.conv_end,
    }
}

/// The timing of the four channels of a window. The third LED channel and the second ambient
/// channel share their registers: in two-LED mode that slot holds the second ambient channel,
/// with an empty LED-on phase.
#[derive(Debug)]
pub struct ActiveTiming<MODE: LedMode> {
    led1: LedTiming,
    led2: LedTiming,
    led3_or_ambient2: LedTiming,
    ambient1: AmbientTiming,
    mode: core::marker::PhantomData<MODE>,
}

impl<MODE: LedMode> ActiveTiming<MODE> {
    pub closed spec fn led1_spec(&self) -> LedTiming {
        self.led1
    }

    pub closed spec fn led2_spec(&self) -> LedTiming {
        self.led2
    }

    /// LED3 in three-LED mode; the second ambient channel, with an empty LED-on phase, in
    /// two-LED mode.
    pub closed spec fn shared_spec(&self) -> LedTiming {
        self.led3_or_ambient2
    }

    pub closed spec fn ambient1_spec(&self) -> AmbientTiming {
        self.ambient1
    }

    pub(crate) fn from_channels(
        led1: LedTiming,
        led2: LedTiming,
        shared: LedTiming,
        ambient1: AmbientTiming,
    ) -> (r: Self)
        ensures
            r.led1_spec() == led1,
            r.led2_spec() == led2,
            r.shared_spec() == shared,
            r.ambient1_spec() == ambient1,
    {
        ActiveTiming {
            led1,
            led2,
            led3_or_ambient2: shared,
            ambient1,
            mode: core::marker::PhantomData,
        }
    }

    /// The timing of LED1.
    pub fn led1(&self) -> (r: LedTiming)
        ensures
            r == self.led1_spec(),
    {
        self.led1
    }

    /// The timing of LED2.
    pub fn led2(&self) -> (r: LedTiming)
        ensures
            r == self.led2_spec(),
    {
        self.led2
    }

    pub(crate) fn shared(&self) -> (r: LedTiming)
        ensures
            r == self.shared_spec(),
    {
        self.led3_or_ambient2
    }

    pub(crate) fn ambient1_raw(&self) -> (r: AmbientTiming)
        ensures
            r == self.ambient1_spec(),
    {
        self.ambient1
    }
}

impl ActiveTiming<ThreeLedsMode> {
    /// The timing of the three LED channels and the ambient channel.
    pub fn new(led1: LedTiming, led2: LedTiming, led3: LedTiming, ambient: AmbientTiming) -> (r:
        Self)
        ensures
            r.led1_spec() == led1,
            r.led2_spec() == led2,
            r.shared_spec() == led3,
            r.ambient1_spec() == ambient,
    {
        Self::from_channels(led1, led2, led3, ambient)
    }

    /// The timing of LED3.
    pub fn led3(&self) -> (r: LedTiming)
        ensures
            r == self.shared_spec(),
    {
        self.led3_or_ambient2
    }

    /// The timing of the ambient channel.
    pub fn ambient(&self) -> (r: AmbientTiming)
        ensures
            r == self.ambient1_spec(),
    {
        self.ambient1
    }
}

impl ActiveTiming<TwoLedsMode> {
    /// The timing of the two LED channels and the two ambient channels.
    pub fn new(
        led1: LedTiming,
        led2: LedTiming,
        ambient1: AmbientTiming,
        ambient2: AmbientTiming,
    ) -> (r: Self)
        ensures
            r.led1_spec() == led1,
            r.led2_spec() == led2,
            r.shared_spec() == led_timing_of_ambient(ambient2),
            r.ambient1_spec() == ambient1,
    {
        Self::from_channels(led1, led2, to_led_timing(ambient2), ambient1)
    }

    /// The timing of the first ambient channel.
    pub fn ambient1(&self) -> (r: AmbientTiming)
        ensures
            r == self.ambient1_spec(),
    {
        self.ambient1
    }

    /// The timing of the second ambient channel.
    pub fn ambient2(&self) -> (r: AmbientTiming)
        ensures
            r == ambient_of_led_timing(self.shared_spec()),
    {
        to_ambient_timing(self.led3_or_ambient2)
    }
}

/// A measurement window: its period, in nanoseconds, and the timing of its phases.
#[derive(Debug)]
pub struct MeasurementWindowConfiguration<MODE: LedMode> {
    period: i64,
    active_timing_configuration: ActiveTiming<MODE>,
    inactive_timing_configuration: PowerDownTiming,
}

impl<MODE: LedMode> MeasurementWindowConfiguration<MODE> {
    pub closed spec fn period_ns(&self) -> int {
        self.period as int
    }

    pub closed spec fn active_spec(&self) -> &ActiveTiming<MODE> {
        &self.active_timing_configuration
    }

    pub closed spec fn inactive_spec(&self) -> PowerDownTiming {
        self.inactive_timing_configuration
    }

    /// A window of `period` nanoseconds with the given phases.
    pub fn new(
        period: i64,
        active_timing_configuration: ActiveTiming<MODE>,
        inactive_timing_configuration: PowerDownTiming,
    ) -> (r: Self)
        ensures
            r.period_ns() == period,
            r.active_spec() == active_timing_configuration,
            r.inactive_spec() == inactive_timing_configuration,
    {
        MeasurementWindowConfiguration {
            period,
            active_timing_configuration,
            inactive_timing_configuration,
        }
    }

    /// The same window with another period, in nanoseconds.
    pub fn with_period(self, period: i64) -> (r: Self)
        ensures
            r.period_ns() == period,
            r.active_spec() == self.active_spec(),
            r.inactive_spec() == self.inactive_spec(),
    {
        MeasurementWindowConfiguration { period, ..self }
    }

    /// The period of the window, in nanoseconds.
    pub fn period(&self) -> (r: i64)
        ensures
            r == self.period_ns(),
    {
        self.period
    }

    /// The timing of the channels.
    pub fn active_timing_configuration(&self) -> (r: &ActiveTiming<MODE>)
        ensures
            r == self.active_spec(),
    {
        &self.active_timing_configuration
    }

    /// The timing of the power-down phase.
    pub fn inactive_timing_configuration(&self) -> (r: PowerDownTiming)
        ensures
            r == self.inactive_spec(),
    {
        self.inactive_timing_configuration
    }
}

/// The boundaries of an LED channel in register order: LED on, sample, reset, conversion.
pub open spec fn led_boundaries(t: LedTiming) -> Seq<i64> {
    seq![t.lighting_st, t.lighting_end, t.sample_st, t.sample_end, t.reset_st, t.reset_end, t.conv_st, t.conv_end]
}

/// The boundaries of an ambient channel in register order: sample, reset, conversion.
pub open spec fn ambient_boundaries(a: AmbientTiming) -> Seq<i64> {
    seq![a.sample_st, a.sample_end, a.reset_st, a.reset_end, a.conv_st, a.conv_end]
}

/// All the boundaries of a window, in the order of `boundary_addresses`: LED2, LED3 or the
/// second ambient channel, LED1, the first ambient channel, and the power-down phase.
pub open spec fn window_boundaries<MODE: LedMode>(a: &ActiveTiming<MODE>, p: PowerDownTiming) -> Seq<i64> {
    led_boundaries(a.led2_spec()) + led_boundaries(a.shared_spec()) + led_boundaries(a.led1_spec())
        + ambient_boundaries(a.ambient1_spec()) + seq![p.power_down_st, p.power_down_end]
}

/// The register that holds each boundary of `window_boundaries`.
pub open spec fn boundary_addresses() -> Seq<u8> {
    seq![
        0x09u8, 0x0A, 0x01, 0x02, 0x15, 0x16, 0x0D, 0x0E,
        0x36, 0x37, 0x05, 0x06, 0x17, 0x18, 0x0F, 0x10,
        0x03, 0x04, 0x07, 0x08, 0x19, 0x1A, 0x11, 0x12,
        0x0B, 0x0C, 0x1B, 0x1C, 0x13, 0x14,
        0x32, 0x33,
    ]
}

/// The register of each boundary, in the order of `window_boundaries`.
pub fn boundary_address_table() -> (r: Vec<u8>)
    ensures
        r@ == boundary_addresses(),
{
    let r = vec![
        0x09u8, 0x0A, 0x01, 0x02, 0x15, 0x16, 0x0D, 0x0E,
        0x36, 0x37, 0x05, 0x06, 0x17, 0x18, 0x0F, 0x10,
        0x03, 0x04, 0x07, 0x08, 0x19, 0x1A, 0x11, 0x12,
        0x0B, 0x0C, 0x1B, 0x1C, 0x13, 0x14,
        0x32, 0x33,
    ];
    assert(r@ =~= boundary_addresses());
    r
}

/// Lists the boundaries of a window in register order.
pub fn boundaries_of<MODE: LedMode>(a: &ActiveTiming<MODE>, p: PowerDownTiming) -> (r: Vec<i64>)
    ensures
        r@ == window_boundaries(a, p),
        r@.len() == BOUNDARY_COUNT,
{
    let l2 = a.led2();
    let s = a.shared();
    let l1 = a.led1();
    let m = a.ambient1_raw();
    let r = vec![
        l2.lighting_st, l2.lighting_end, l2.sample_st, l2.sample_end, l2.reset_st, l2.reset_end, l2.conv_st, l2.conv_end,
        s.lighting_st, s.lighting_end, s.sample_st, s.sample_end, s.reset_st, s.reset_end, s.conv_st, s.conv_end,
        l1.lighting_st, l1.lighting_end, l1.sample_st, l1.sample_end, l1.reset_st, l1.reset_end, l1.conv_st, l1.conv_end,
        m.sample_st, m.sample_end, m.reset_st, m.reset_end, m.conv_st, m.conv_end,
        p.power_down_st, p.power_down_end,
    ];
    assert(r@ =~= window_boundaries(a, p));
    r
}

/// Builds the window of `period` nanoseconds whose boundaries, in register order, are `b`.
pub fn window_of_boundaries<MODE: LedMode>(period: i64, b: &Vec<i64>) -> (r:
    MeasurementWindowConfiguration<MODE>)
    requires
        b@.len() == BOUNDARY_COUNT,
    ensures
        r.period_ns() == period,
        window_boundaries(r.active_spec(), r.inactive_spec()) == b@,
{
    let led2 = LedTiming {
        lighting_st: b[0], lighting_end: b[1], sample_st: b[2], sample_end: b[3],
        reset_st: b[4], reset_end: b[5], conv_st: b[6], conv_end: b[7],
    };
    let shared = LedTiming {
        lighting_st: b[8], lighting_end: b[9], sample_st: b[10], sample_end: b[11],
        reset_st: b[12], reset_end: b[13], conv_st: b[14], conv_end: b[15],
    };
    let led1 = LedTiming {
        lighting_st: b[16], lighting_end: b[17], sample_st: b[18], sample_end: b[19],
        reset_st: b[20], reset_end: b[21], conv_st: b[22], conv_end: b[23],
    };
    let ambient1 = AmbientTiming {
        sample_st: b[24], sample_end: b[25], reset_st: b[26], reset_end: b[27],
        conv_st: b[28], conv_end: b[29],
    };
    let p = PowerDownTiming { power_down_st: b[30], power_down_end: b[31] };
    let a = ActiveTiming::from_channels(led1, led2, shared, ambient1);
    let r = MeasurementWindowConfiguration::new(period, a, p);
    assert(window_boundaries(r.active_spec(), r.inactive_spec()) =~= b@);
    r
}

} // verus!

verus! {

/// Whether the divider `d` lets the 16-bit counter span a window of `period` nanoseconds at
/// `clock` hertz: `ceil(period * clock / 65536) <= d`, the period taken in seconds.
pub open spec fn divider_fits(period: int, clock: int, d: int) -> bool {
    period * clock <= d * COUNTER_SPAN * NS_PER_S
}

/// The smallest divider of {1, 2, 4, 8, 16} that fits the period, if any.
pub open spec fn window_divider(period: int, clock: int) -> Option<int> {
    if divider_fits(period, clock, 1) {
        Some(1)
    } else if divider_fits(period, clock, 2) {
        Some(2)
    } else if divider_fits(period, clock, 4) {
        Some(4)
    } else if divider_fits(period, clock, 8) {
        Some(8)
    } else if divider_fits(period, clock, 16) {
        Some(16)
    } else {
        None
    }
}

/// The CLKDIV_PRF code of a divider.
pub open spec fn divider_code(d: int) -> int {
    if d == 1 {
        0
    } else if d == 2 {
        4
    } else if d == 4 {
        5
    } else if d == 8 {
        6
    } else {
        7
    }
}

/// The divider that a CLKDIV_PRF code stands for; the codes 1 to 3 have none.
pub open spec fn divider_of_code(code: int) -> Option<int> {
    if code == 0 {
        Some(1)
    } else if code == 4 {
        Some(2)
    } else if code == 5 {
        Some(4)
    } else if code == 6 {
        Some(8)
    } else if code == 7 {
        Some(16)
    } else {
        None
    }
}

/// The number of divided clock periods in the window: `round(period / (d / clock))`.
pub open spec fn window_counter(period: int, clock: int, d: int) -> int {
    round_div(period * clock, d * NS_PER_S)
}

/// The register value of a boundary: `round(b / (period / counter))`, kept within 16 bits.
pub open spec fn phase_code(b: int, period: int, counter: int) -> int {
    if b <= 0 {
        0
    } else if round_div(b * counter, period) > PHASE_MAX {
        PHASE_MAX as int
    } else {
        round_div(b * counter, period)
    }
}

/// The time, in nanoseconds, of `n` periods of the clock divided by `d`.
pub open spec fn time_of_ticks(n: int, d: int, clock: int) -> int {
    round_div(n * d * NS_PER_S, clock)
}

/// The divider chosen for a window is the smallest of {1, 2, 4, 8, 16} that satisfies
/// `ceil(period * clock / 65536) <= d`; there is none exactly when 16 does not satisfy it.
pub proof fn lemma_window_divider(period: int, clock: int)
    ensures
        window_divider(period, clock) is None <==> !divider_fits(period, clock, 16),
        window_divider(period, clock) matches Some(d) ==> {
            &&& d == 1 || d == 2 || d == 4 || d == 8 || d == 16
            &&& divider_fits(period, clock, d)
            &&& forall|e: int|
                (e == 1 || e == 2 || e == 4 || e == 8 || e == 16) && e < d ==> !divider_fits(
                    period,
                    clock,
                    e,
                )
            &&& divider_of_code(divider_code(d)) == Some(d)
        },
{
}

/// Picks the clock divider of a window of `period` nanoseconds at `clock_hz` hertz.
pub fn select_divider(period: i64, clock_hz: u32) -> (r: Option<u64>)
    ensures
        r is None <==> window_divider(period as int, clock_hz as int) is None,
        r matches Some(d) ==> window_divider(period as int, clock_hz as int) == Some(d as int),
{
    if period <= 0 {
        assert(period * clock_hz <= 0) by (nonlinear_arith)
            requires
                period <= 0,
                clock_hz >= 0,
        ;
        return Some(1);
    }
    proof {
        assert(0 <= period * clock_hz <= i64::MAX * u32::MAX) by (nonlinear_arith)
            requires
                0 < period <= i64::MAX,
                0 <= clock_hz <= u32::MAX,
        ;
    }
    let product: u128 = period as u128 * clock_hz as u128;
    let unit: u128 = COUNTER_SPAN as u128 * NS_PER_S as u128;
    if product <= unit {
        Some(1)
    } else if product <= 2 * unit {
        Some(2)
    } else if product <= 4 * unit {
        Some(4)
    } else if product <= 8 * unit {
        Some(8)
    } else if product <= 16 * unit {
        Some(16)
    } else {
        None
    }
}

/// The CLKDIV_PRF code of a divider.
pub fn divider_code_of(d: u64) -> (r: u8)
    requires
        d == 1 || d == 2 || d == 4 || d == 8 || d == 16,
    ensures
        r == divider_code(d as int),
        r <= 7,
{
    if d == 1 {
        0
    } else if d == 2 {
        4
    } else if d == 4 {
        5
    } else if d == 8 {
        6
    } else {
        7
    }
}

/// The divider that a CLKDIV_PRF code stands for.
pub fn divider_from_code(code: u32) -> (r: Option<u64>)
    ensures
        r is None <==> divider_of_code(code as int) is None,
        r matches Some(d) ==> divider_of_code(code as int) == Some(d as int),
{
    if code == 0 {
        Some(1)
    } else if code == 4 {
        Some(2)
    } else if code == 5 {
        Some(4)
    } else if code == 6 {
        Some(8)
    } else if code == 7 {
        Some(16)
    } else {
        None
    }
}

/// The window counter for a divider that fits the period.
pub fn counter_of(period: i64, clock_hz: u32, d: u64) -> (r: u64)
    requires
        d == 1 || d == 2 || d == 4 || d == 8 || d == 16,
        divider_fits(period as int, clock_hz as int, d as int),
    ensures
        r >= 1 ==> r == window_counter(period as int, clock_hz as int, d as int),
        r == 0 <==> window_counter(period as int, clock_hz as int, d as int) < 1,
        r <= COUNTER_SPAN,
        r >= 1 ==> period > 0 && clock_hz > 0,
{
    let den = d * NS_PER_S;
    if period <= 0 {
        proof {
            lemma_round_div_bounds(period * clock_hz, den as int);
            let q = window_counter(period as int, clock_hz as int, d as int);
            assert(period * clock_hz <= 0) by (nonlinear_arith)
                requires
                    period <= 0,
                    clock_hz >= 0,
            ;
            assert(q < 1) by (nonlinear_arith)
                requires
                    2 * den * q <= 2 * (period * clock_hz) + den,
                    period * clock_hz <= 0,
                    den > 0,
            ;
        }
        return 0;
    }
    proof {
        assert(0 <= period * clock_hz <= i64::MAX * u32::MAX) by (nonlinear_arith)
            requires
                0 < period <= i64::MAX,
                0 <= clock_hz <= u32::MAX,
        ;
    }
    let product: u128 = period as u128 * clock_hz as u128;
    proof {
        assert(0 <= period * clock_hz <= den * COUNTER_SPAN) by (nonlinear_arith)
            requires
                period > 0,
                clock_hz >= 0,
                period * clock_hz <= d * COUNTER_SPAN * NS_PER_S,
                den == d * NS_PER_S,
        ;
        lemma_round_div_range(period * clock_hz, den as int, COUNTER_SPAN as int);
        if clock_hz == 0 {
            assert(period * clock_hz == 0) by (nonlinear_arith)
                requires
                    clock_hz == 0,
            ;
            lemma_round_div_bounds(0, den as int);
        }
    }
    round_div_u128(product, den as u128) as u64
}

/// The register value of one boundary.
pub fn phase_code_of(b: i64, period: i64, counter: u64) -> (r: u32)
    requires
        period > 0,
        counter <= COUNTER_SPAN,
    ensures
        r == phase_code(b as int, period as int, counter as int),
        r <= PHASE_MAX,
{
    if b <= 0 {
        return 0;
    }
    proof {
        assert(0 <= b * counter <= i64::MAX * COUNTER_SPAN) by (nonlinear_arith)
            requires
                0 < b <= i64::MAX,
                0 <= counter <= COUNTER_SPAN,
        ;
    }
    let c = round_div_u128(b as u128 * counter as u128, period as u128);
    if c > PHASE_MAX as u128 {
        PHASE_MAX
    } else {
        c as u32
    }
}

/// The time, in nanoseconds, of `n` periods of the divided clock.
pub fn time_of(n: u64, d: u64, clock_hz: u32) -> (r: i64)
    requires
        n <= COUNTER_SPAN,
        d <= 16,
        clock_hz > 0,
    ensures
        r == time_of_ticks(n as int, d as int, clock_hz as int),
        r >= 0,
{
    proof {
        assert(0 <= n * d * NS_PER_S <= COUNTER_SPAN * 16 * NS_PER_S) by (nonlinear_arith)
            requires
                n <= COUNTER_SPAN,
                d <= 16,
        ;
        assert(0 <= n * d * NS_PER_S <= clock_hz * (COUNTER_SPAN * 16 * NS_PER_S)) by (nonlinear_arith)
            requires
                0 <= n * d * NS_PER_S <= COUNTER_SPAN * 16 * NS_PER_S,
                clock_hz >= 1,
        ;
        lemma_round_div_range(n * d * NS_PER_S, clock_hz as int, COUNTER_SPAN * 16 * NS_PER_S);
    }
    round_div_u128(n as u128 * d as u128 * NS_PER_S as u128, clock_hz as u128) as i64
}

/// The register values of all the boundaries of a window.
pub fn phase_codes(b: &Vec<i64>, period: i64, counter: u64) -> (r: Vec<u32>)
    requires
        period > 0,
        counter <= COUNTER_SPAN,
    ensures
        r@.len() == b@.len(),
        forall|i: int|
            0 <= i < b@.len() ==> r@[i] == phase_code(#[trigger] b@[i] as int, period as int, counter as int),
        forall|i: int| 0 <= i < b@.len() ==> #[trigger] r@[i] <= PHASE_MAX,
{
    let mut r: Vec<u32> = Vec::new();
    let mut i: usize = 0;
    while i < b.len()
        invariant
            period > 0,
            counter <= COUNTER_SPAN,
            i <= b@.len(),
            r@.len() == i,
            forall|k: int|
                0 <= k < i ==> r@[k] == phase_code(#[trigger] b@[k] as int, period as int, counter as int),
            forall|k: int| 0 <= k < i ==> #[trigger] r@[k] <= PHASE_MAX,
        decreases b@.len() - i,
    {
        r.push(phase_code_of(b[i], period, counter));
        i = i + 1;
    }
    r
}

/// The times, in nanoseconds, that the register values of the boundaries stand for.
pub fn times_of_codes(codes: &Vec<u32>, d: u64, clock_hz: u32) -> (r: Vec<i64>)
    requires
        d <= 16,
        clock_hz > 0,
        forall|i: int| 0 <= i < codes@.len() ==> #[trigger] codes@[i] <= PHASE_MAX,
    ensures
        r@.len() == codes@.len(),
        forall|i: int|
            0 <= i < codes@.len() ==> r@[i] == time_of_ticks(#[trigger] codes@[i] as int, d as int, clock_hz as int),
{
    let mut r: Vec<i64> = Vec::new();
    let mut i: usize = 0;
    while i < codes.len()
        invariant
            d <= 16,
            clock_hz > 0,
            forall|k: int| 0 <= k < codes@.len() ==> #[trigger] codes@[k] <= PHASE_MAX,
            i <= codes@.len(),
            r@.len() == i,
            forall|k: int|
                0 <= k < i ==> r@[k] == time_of_ticks(#[trigger] codes@[k] as int, d as int, clock_hz as int),
        decreases codes@.len() - i,
    {
        r.push(time_of(codes[i] as u64, d, clock_hz));
        i = i + 1;
    }
    r
}

} // verus!

verus! {

/// Offset of the TIMEREN bit of register 1Eh.
pub const TIMEREN_OFFSET: u32 = 8;

/// Whether `c` is the window that the registers hold once a window of `period` nanoseconds with
/// the boundaries `b` is synthesized with the divider `d` at `clock` hertz: the period and each
/// boundary are rebuilt from the counter and the phase codes written.
pub open spec fn window_synthesized<MODE: LedMode>(
    period: int,
    clock: int,
    d: int,
    b: Seq<i64>,
    c: &MeasurementWindowConfiguration<MODE>,
) -> bool {
    let counter = window_counter(period, clock, d);
    let w = window_boundaries(c.active_spec(), c.inactive_spec());
    &&& c.period_ns() == time_of_ticks(counter, d, clock)
    &&& w.len() == b.len()
    &&& forall|i: int|
        0 <= i < b.len() ==> w[i] == time_of_ticks(phase_code(#[trigger] b[i] as int, period, counter), d, clock)
}

/// Whether `c` is the window that registers 1Dh (the counter), 39h (the divider) and the phase
/// registers `regs`, in the order of `boundary_addresses`, stand for at `clock` hertz.
pub open spec fn window_of_registers<MODE: LedMode>(
    r1dh: u32,
    r39h: u32,
    regs: Seq<u32>,
    clock: int,
    c: &MeasurementWindowConfiguration<MODE>,
) -> bool {
    let w = window_boundaries(c.active_spec(), c.inactive_spec());
    &&& divider_of_code(field(r39h, 0, 3) as int) matches Some(d) && {
        &&& c.period_ns() == time_of_ticks(field(r1dh, 0, 16) + 1, d, clock)
        &&& w.len() == regs.len()
        &&& forall|i: int|
            0 <= i < regs.len() ==> w[i] == time_of_ticks(field(#[trigger] regs[i], 0, 16) as int, d, clock)
    }
}

/// Reading back the registers that a window synthesis wrote rebuilds exactly the window that the
/// synthesis returned: the counter register holds the counter less one, the divider register
/// the divider's code, and each phase register its code.
pub proof fn lemma_timing_window_round_trip<MODE: LedMode>(
    period: int,
    clock: int,
    b: Seq<i64>,
    c: &MeasurementWindowConfiguration<MODE>,
)
    requires
        window_divider(period, clock) is Some,
        window_counter(period, clock, window_divider(period, clock)->0) >= 1,
        period > 0,
        clock >= 0,
    ensures
        ({
            let d = window_divider(period, clock)->0;
            let counter = window_counter(period, clock, d);
            let codes = b.map_values(|x: i64| phase_code(x as int, period, counter) as u32);
            window_synthesized(period, clock, d, b, c) <==> window_of_registers(
                (counter - 1) as u32,
                divider_code(d) as u32,
                codes,
                clock,
                c,
            )
        }),
{
    let d = window_divider(period, clock)->0;
    let counter = window_counter(period, clock, d);
    let codes = b.map_values(|x: i64| phase_code(x as int, period, counter) as u32);
    lemma_window_divider(period, clock);
    crate::register::lemma_low_mask_values();
    assert(0 <= period * clock) by (nonlinear_arith)
        requires
            period > 0,
            clock >= 0,
    ;
    assert(0 <= period * clock <= (d * NS_PER_S) * COUNTER_SPAN) by (nonlinear_arith)
        requires
            0 <= period * clock <= d * COUNTER_SPAN * NS_PER_S,
    ;
    lemma_round_div_range(period * clock, d * NS_PER_S, COUNTER_SPAN as int);
    crate::register::lemma_field_low((counter - 1) as u32, 16);
    crate::register::lemma_field_low(divider_code(d) as u32, 3);
    assert forall|i: int| 0 <= i < b.len() implies field(#[trigger] codes[i], 0, 16) == phase_code(
        b[i] as int,
        period,
        counter,
    ) by {
        crate::register::lemma_field_low(codes[i], 16);
    }
    let w = window_boundaries(c.active_spec(), c.inactive_spec());
    if window_synthesized(period, clock, d, b, c) {
        assert forall|i: int| 0 <= i < codes.len() implies w[i] == time_of_ticks(
            field(#[trigger] codes[i], 0, 16) as int,
            d,
            clock,
        ) by {
            assert(field(codes[i], 0, 16) == phase_code(b[i] as int, period, counter));
        }
    }
    if window_of_registers((counter - 1) as u32, divider_code(d) as u32, codes, clock, c) {
        assert forall|i: int| 0 <= i < b.len() implies w[i] == time_of_ticks(
            phase_code(#[trigger] b[i] as int, period, counter),
            d,
            clock,
        ) by {
            assert(field(codes[i], 0, 16) == phase_code(b[i] as int, period, counter));
        }
    }
}

/// The boundaries that a window synthesis writes, in register order: those of the window, with
/// the LED-on phase of the shared slot forced to zero when that slot holds an ambient channel.
pub open spec fn written_boundaries<MODE: LedMode>(
    a: &ActiveTiming<MODE>,
    p: PowerDownTiming,
    ambient_slot: bool,
) -> Seq<i64> {
    if ambient_slot {
        window_boundaries(a, p).update(8, 0).update(9, 0)
    } else {
        window_boundaries(a, p)
    }
}

/// Whether the rebuilt window `c` lies close to the request: its period within
/// `(d / clock + 1 ns) / 2` of `period`, and each boundary of `b` inside the window, whose code
/// was not cut to 16 bits, within `(period / counter + d / clock + 1 ns) / 2` of the one requested.
pub open spec fn window_close<MODE: LedMode>(
    period: int,
    clock: int,
    d: int,
    b: Seq<i64>,
    c: &MeasurementWindowConfiguration<MODE>,
) -> bool {
    let counter = window_counter(period, clock, d);
    let den = d * NS_PER_S;
    let w = window_boundaries(c.active_spec(), c.inactive_spec());
    &&& 2 * clock * (c.period_ns() - period) <= den + clock
    &&& 2 * clock * (period - c.period_ns()) <= den + clock
    &&& forall|i: int|
        0 <= i < b.len() && 0 <= #[trigger] b[i] <= period && round_div(b[i] * counter, period)
            <= PHASE_MAX ==> {
            &&& 2 * clock * counter * (w[i] - b[i]) <= clock * counter + clock * period + counter * den
            &&& 2 * clock * counter * (b[i] - w[i]) <= clock * counter + clock * period + counter * den
        }
}

/// The register writes of a window synthesis, register 1Eh having held `r1eh`: the counter less
/// one into 1Dh, the divider's code into 39h, 1Eh with TIMEREN set and its other bits kept, then
/// each phase code into its register, in the order of `boundary_addresses`.
pub open spec fn window_writes(period: int, clock: int, b: Seq<i64>, r1eh: u32) -> Seq<(u8, u32)> {
    let d = window_divider(period, clock)->0;
    let counter = window_counter(period, clock, d);
    seq![
        (0x1Du8, (counter - 1) as u32),
        (0x39u8, divider_code(d) as u32),
        (0x1Eu8, with_field(r1eh, TIMEREN_OFFSET, 1, 1)),
    ] + Seq::new(b.len(), |i: int| (boundary_addresses()[i], phase_code(b[i] as int, period, counter) as u32))
}

/// The registers that a window read-back reads: the phase registers in the order of
/// `boundary_addresses`, then 1Dh and 39h.
pub open spec fn window_registers() -> Seq<u8> {
    boundary_addresses() + seq![0x1Du8, 0x39u8]
}

/// What a window synthesis of `period` nanoseconds with the boundaries `b` at `clock` hertz
/// returns: each of its own errors exactly when the period calls for it, else the window rebuilt
/// from what was written, close to the request; `unchanged` says that the device was left as it
/// was.
pub open spec fn window_outcome<E, MODE: LedMode>(
    period: int,
    clock: int,
    b: Seq<i64>,
    r: Result<MeasurementWindowConfiguration<MODE>, AfeError<E>>,
    unchanged: bool,
) -> bool {
    &&& window_divider(period, clock) is None ==> (r matches Err(e) && e is WindowPeriodTooLong)
        && unchanged
    &&& (window_divider(period, clock) matches Some(d) && window_counter(period, clock, d) < 1) ==> (
    r matches Err(e) && e is WindowPeriodTooShort) && unchanged
    &&& (r matches Err(e) && e is WindowPeriodTooLong) ==> window_divider(period, clock) is None
    &&& (r matches Err(e) && e is WindowPeriodTooShort) ==> (window_divider(period, clock) matches Some(
        d,
    ) && window_counter(period, clock, d) < 1)
    &&& r matches Ok(c) ==> (window_divider(period, clock) matches Some(d) && window_synthesized(
        period,
        clock,
        d,
        b,
        &c,
    ) && window_close(period, clock, d, b, &c))
    &&& r matches Err(e) ==> (e is WindowPeriodTooLong || e is WindowPeriodTooShort || is_bus_error(e))
}

impl<B: I2cBus, MODE: LedMode> AFE4404<B, MODE> {
    /// Sets the measurement window and starts the timer engine.
    ///
    /// The clock divider is the smallest of 1, 2, 4, 8 and 16 that lets the 16-bit counter span
    /// the period; the counter holds `round(period / (d / clock))` divided clock periods, and each
    /// boundary is written as `round(boundary / (period / counter))`, kept within 16 bits. The
    /// window returned is the one rebuilt from what was written. A period too long for every
    /// divider, or shorter than half a divided clock period, is refused before any bus transfer.
    /// A bus failure part way leaves the registers written so far as they are. When
    /// `ambient_slot` is set, the shared slot holds an ambient channel and its LED-on phase is
    /// written as zero.
    fn synthesize_window(
        &mut self,
        configuration: &MeasurementWindowConfiguration<MODE>,
        ambient_slot: bool,
    ) -> (r: Result<MeasurementWindowConfiguration<MODE>, AfeError<B::Error>>)
        ensures
            final(self).same_device(old(self)),
            window_outcome(
                configuration.period_ns(),
                old(self).clock_hz() as int,
                written_boundaries(configuration.active_spec(), configuration.inactive_spec(), ambient_slot),
                r,
                *final(self) == *old(self),
            ),
            (r is Ok || (r matches Err(e) && is_bus_error(e))) ==> exists|answers: Seq<Seq<u8>>|
                #[trigger] exchanged(
                    old(self).log(),
                    final(self).log(),
                    old(self).address_spec(),
                    one_reg(0x1Eu8),
                    answers,
                    window_writes(
                        configuration.period_ns(),
                        old(self).clock_hz() as int,
                        written_boundaries(configuration.active_spec(), configuration.inactive_spec(), ambient_slot),
                        values(answers)[0],
                    ),
                    r is Ok,
                ),
    {
        let period = configuration.period();
        let clock = self.clock();
        let mut b = boundaries_of(
            configuration.active_timing_configuration(),
            configuration.inactive_timing_configuration(),
        );
        if ambient_slot {
            b.set(8, 0);
            b.set(9, 0);
        }
        assert(b@ == written_boundaries(configuration.active_spec(), configuration.inactive_spec(), ambient_slot));
        let d = match select_divider(period, clock) {
            Some(d) => d,
            None => {
                return Err(AfeError::WindowPeriodTooLong);
            },
        };
        proof {
            lemma_window_divider(period as int, clock as int);
        }
        let counter = counter_of(period, clock, d);
        if counter == 0 {
            return Err(AfeError::WindowPeriodTooShort);
        }
        let codes = phase_codes(&b, period, counter);
        proof {
            crate::register::lemma_low_mask_values();
        }
        let ghost before = self.log();
        let ghost address = self.address_spec();
        let regs = vec![0x1Eu8];
        assert(regs@ =~= one_reg(0x1Eu8));
        let (res, got) = self.read_regs(&regs);
        let ghost answers = got@;
        let vals = match res {
            Ok(v) => v,
            Err(e) => {
                assert(exchanged(before, self.log(), address, regs@, answers, window_writes(period as int, clock as int, b@, values(answers)[0]), false));
                return Err(e);
            },
        };
        let addresses = boundary_address_table();
        let mut writes: Vec<(u8, u32)> = Vec::new();
        writes.push((0x1D, (counter - 1) as u32));
        writes.push((0x39, divider_code_of(d) as u32));
        writes.push((0x1E, set_field(vals[0], TIMEREN_OFFSET, 1, 1)));
        let ghost target = window_writes(period as int, clock as int, b@, values(answers)[0]);
        assert(target.len() == 3 + BOUNDARY_COUNT);
        assert(writes@ =~= target.take(3));
        let mut i: usize = 0;
        while i < BOUNDARY_COUNT
            invariant
                addresses@ == boundary_addresses(),
                codes@.len() == BOUNDARY_COUNT,
                b@.len() == BOUNDARY_COUNT,
                forall|k: int| 0 <= k < codes@.len() ==> #[trigger] codes@[k] == phase_code(b@[k] as int, period as int, counter as int),
                forall|k: int| 0 <= k < codes@.len() ==> #[trigger] codes@[k] <= PHASE_MAX,
                counter as int == window_counter(period as int, clock as int, d as int),
                window_divider(period as int, clock as int) == Some(d as int),
                target == window_writes(period as int, clock as int, b@, values(answers)[0]),
                target.len() == 3 + BOUNDARY_COUNT,
                i <= BOUNDARY_COUNT,
                writes@ =~= target.take(3 + i),
                forall|k: int| 0 <= k < writes@.len() ==> #[trigger] writes@[k].1 <= crate::register::REGISTER_MAX,
            decreases BOUNDARY_COUNT - i,
        {
            writes.push((addresses[i], codes[i]));
            assert(target[3 + i as int] == (addresses@[i as int], codes@[i as int]));
            assert(writes@ =~= target.take(3 + i + 1));
            i = i + 1;
        }
        assert(writes@ =~= target);
        let ghost mid = self.log();
        let wr = self.run_writes(&writes);
        proof {
            lemma_exchange(before, mid, self.log(), address, regs@, answers, writes@, wr is Ok);
        }
        if let Err(e) = wr {
            return Err(e);
        }
        let times = times_of_codes(&codes, d, clock);
        let c = window_of_boundaries(time_of(counter, d, clock), &times);
        proof {
            lemma_window_period_error(period as int, clock as int);
            let w = window_boundaries(c.active_spec(), c.inactive_spec());
            assert forall|k: int|
                0 <= k < b@.len() && 0 <= #[trigger] b@[k] <= period && round_div(
                    b@[k] * counter,
                    period as int,
                ) <= PHASE_MAX implies {
                let den = d * NS_PER_S;
                &&& 2 * clock * counter * (w[k] - b@[k]) <= clock * counter + clock * period + counter * den
                &&& 2 * clock * counter * (b@[k] - w[k]) <= clock * counter + clock * period + counter * den
            } by {
                lemma_phase_boundary_error(period as int, clock as int, b@[k] as int);
            }
        }
        Ok(c)
    }

    /// Gets the measurement window from the counter, the divider and the phase registers.
    ///
    /// A divider register with no defined divider makes it fail.
    pub fn get_timing_window(&mut self) -> (r: Result<MeasurementWindowConfiguration<MODE>, AfeError<B::Error>>)
        requires
            old(self).clock_hz() > 0,
        ensures
            final(self).same_device(old(self)),
            r matches Err(e) ==> (e == AfeError::<B::Error>::InvalidRegisterValue { reg_addr: 0x39 }
                || is_bus_error(e)),
            exists|answers: Seq<Seq<u8>>|
                #[trigger] exchanged(
                    old(self).log(),
                    final(self).log(),
                    old(self).address_spec(),
                    window_registers(),
                    answers,
                    Seq::empty(),
                    finished(r),
                ) && (r matches Ok(c) ==> window_of_registers(
                    values(answers)[32],
                    values(answers)[33],
                    values(answers).take(32),
                    old(self).clock_hz() as int,
                    &c,
                )) && ((r matches Err(e) && !is_bus_error(e)) ==> divider_of_code(
                    field(values(answers)[33], 0, 3) as int,
                ) is None),
    {
        let clock = self.clock();
        let ghost before = self.log();
        let ghost address = self.address_spec();
        let mut regs = boundary_address_table();
        regs.push(0x1D);
        regs.push(0x39);
        assert(regs@ =~= window_registers());
        let (res, got) = self.read_regs(&regs);
        let ghost answers = got@;
        let vals = match res {
            Ok(v) => v,
            Err(e) => {
                let r = Err(e);
                assert(exchanged(before, self.log(), address, regs@, answers, Seq::empty(), finished(r)));
                return r;
            },
        };
        proof {
            crate::register::lemma_low_mask_values();
        }
        let mut codes: Vec<u32> = Vec::new();
        let mut i: usize = 0;
        while i < BOUNDARY_COUNT
            invariant
                vals@.len() == 34,
                i <= BOUNDARY_COUNT,
                codes@.len() == i,
                crate::register::low_mask(16) == 0xFFFF,
                forall|k: int| 0 <= k < i ==> #[trigger] codes@[k] == field(vals@[k], 0, 16),
                forall|k: int| 0 <= k < i ==> #[trigger] codes@[k] <= PHASE_MAX,
            decreases BOUNDARY_COUNT - i,
        {
            codes.push(get_field(vals[i], 0, 16));
            i = i + 1;
        }
        let r1dh = vals[32];
        let r39h = vals[33];
        let d = match divider_from_code(get_field(r39h, 0, 3)) {
            Some(d) => d,
            None => {
                let r = Err(AfeError::InvalidRegisterValue { reg_addr: 0x39 });
                assert(exchanged(before, self.log(), address, regs@, answers, Seq::empty(), finished(r)));
                return r;
            },
        };
        let counter = get_field(r1dh, 0, 16) as u64 + 1;
        let times = times_of_codes(&codes, d, clock);
        let c = window_of_boundaries(time_of(counter, d, clock), &times);
        proof {
            let w = window_boundaries(c.active_spec(), c.inactive_spec());
            let regs32 = values(answers).take(32);
            assert forall|k: int| 0 <= k < regs32.len() implies w[k] == time_of_ticks(
                field(#[trigger] regs32[k], 0, 16) as int,
                d as int,
                clock as int,
            ) by {
                assert(codes@[k] == field(vals@[k], 0, 16));
            }
            assert(window_of_registers(r1dh, r39h, regs32, clock as int, &c));
        }
        let r = Ok(c);
        assert(exchanged(before, self.log(), address, regs@, answers, Seq::empty(), finished(r)));
        r
    }
}

} // verus!

verus! {

impl From<AmbientTiming> for LedTiming {
    fn from(other: AmbientTiming) -> (r: LedTiming) {
        to_led_timing(other)
    }
}

impl vstd::std_specs::convert::FromSpecImpl<AmbientTiming> for LedTiming {
    open spec fn obeys_from_spec() -> bool {
        true
    }

    open spec fn from_spec(other: AmbientTiming) -> LedTiming {
        led_timing_of_ambient(other)
    }
}

impl Default for MeasurementWindowConfiguration<ThreeLedsMode> {
    /// A 10 ms window with the three LEDs lit one after the other for about 100 µs each,
    /// every boundary on a quarter of a microsecond.
    fn default() -> (r: Self)
        ensures
            r.period_ns() == 10_000_000,
            r.active_spec().led2_spec().lighting_st == 0,
            r.active_spec().led2_spec().conv_end == 367_000,
            r.active_spec().led1_spec().conv_end == 901_500,
            r.active_spec().ambient1_spec().conv_end == 1_168_750,
            r.inactive_spec().power_down_st == 1_368_750,
            r.inactive_spec().power_down_end == 9_799_750,
    {
        let led2 = LedTiming {
            lighting_st: 0,
            lighting_end: 99_750,
            sample_st: 25_000,
            sample_end: 99_750,
            reset_st: 100_250,
            reset_end: 101_750,
            conv_st: 102_250,
            conv_end: 367_000,
        };
        let led3 = LedTiming {
            lighting_st: 100_250,
            lighting_end: 200_000,
            sample_st: 125_250,
            sample_end: 200_000,
            reset_st: 367_500,
            reset_end: 369_000,
            conv_st: 369_500,
            conv_end: 634_250,
        };
        let led1 = LedTiming {
            lighting_st: 200_500,
            lighting_end: 300_250,
            sample_st: 225_500,
            sample_end: 300_250,
            reset_st: 634_750,
            reset_end: 636_250,
            conv_st: 636_750,
            conv_end: 901_500,
        };
        let ambient = AmbientTiming {
            sample_st: 325_750,
            sample_end: 400_500,
            reset_st: 902_000,
            reset_end: 903_500,
            conv_st: 904_000,
            conv_end: 1_168_750,
        };
        MeasurementWindowConfiguration::new(
            10_000_000,
            ActiveTiming::<ThreeLedsMode>::new(led1, led2, led3, ambient),
            PowerDownTiming::new(1_368_750, 9_799_750),
        )
    }
}

} // verus!

verus! {

/// A boundary inside the window comes back close to the one requested: with `s` the
/// quantization step `period / counter` and `h` the divided clock period `d / clock`, the
/// rebuilt boundary lies within `(s + h + 1 ns) / 2` of the requested one, unless its code had to
/// be cut to 16 bits.
pub proof fn lemma_phase_boundary_error(period: int, clock: int, b: int)
    requires
        period > 0,
        clock > 0,
        0 <= b <= period,
        window_divider(period, clock) is Some,
        window_counter(period, clock, window_divider(period, clock)->0) >= 1,
        round_div(b * window_counter(period, clock, window_divider(period, clock)->0), period)
            <= PHASE_MAX,
    ensures
        ({
            let d = window_divider(period, clock)->0;
            let c = window_counter(period, clock, d);
            let y = time_of_ticks(phase_code(b, period, c), d, clock);
            let den = d * NS_PER_S;
            &&& 2 * clock * c * (y - b) <= clock * c + clock * period + c * den
            &&& 2 * clock * c * (b - y) <= clock * c + clock * period + c * den
        }),
{
    let d = window_divider(period, clock)->0;
    let c = window_counter(period, clock, d);
    let den = d * NS_PER_S;
    lemma_window_divider(period, clock);
    assert(0 <= b * c <= period * c) by (nonlinear_arith)
        requires
            0 <= b <= period,
            c >= 1,
    ;
    lemma_round_div_range(b * c, period, c);
    let q = round_div(b * c, period);
    let bc = b * c;
    lemma_round_div_bounds(bc, period);
    let y = time_of_ticks(phase_code(b, period, c), d, clock);
    let qd = q * den;
    assert(q * d * NS_PER_S == qd) by (nonlinear_arith)
        requires
            qd == q * den,
            den == d * NS_PER_S,
    ;
    if b <= 0 {
        assert(b == 0);
        assert(bc == 0) by (nonlinear_arith)
            requires
                b == 0,
                bc == b * c,
        ;
        lemma_round_div_bounds(bc, period);
        assert(q == 0) by (nonlinear_arith)
            requires
                2 * period * q <= 2 * bc + period,
                2 * bc + period < 2 * period * q + 2 * period,
                bc == 0,
                period > 0,
        ;
    }
    assert(phase_code(b, period, c) == q);
    lemma_round_div_bounds(qd, clock);
    let tf = period * clock;
    lemma_round_div_bounds(tf, den);
    assert(den > 0);
    let e1 = 2 * clock * y - 2 * qd;
    let e2 = den * c - tf;
    let e3 = q * period - bc;
    assert(-clock < e1 <= clock);
    assert(-den < 2 * e2 <= den) by (nonlinear_arith)
        requires
            2 * den * c <= 2 * tf + den,
            2 * tf + den < 2 * den * c + 2 * den,
            e2 == den * c - tf,
    ;
    assert(-period <= 2 * e3 <= period) by (nonlinear_arith)
        requires
            2 * period * q <= 2 * bc + period,
            2 * bc + period < 2 * period * q + 2 * period,
            e3 == q * period - bc,
    ;
    assert(c * e1 == 2 * (c * clock * y) - 2 * (c * qd)) by (nonlinear_arith)
        requires
            e1 == 2 * clock * y - 2 * qd,
    ;
    assert(q * e2 == q * den * c - q * tf) by (nonlinear_arith)
        requires
            e2 == den * c - tf,
    ;
    assert(clock * e3 == clock * q * period - clock * bc) by (nonlinear_arith)
        requires
            e3 == q * period - bc,
    ;
    assert(c * qd == q * den * c) by (nonlinear_arith)
        requires
            qd == q * den,
    ;
    assert(q * tf == clock * q * period) by (nonlinear_arith)
        requires
            tf == period * clock,
    ;
    assert(clock * bc == c * clock * b) by (nonlinear_arith)
        requires
            bc == b * c,
    ;
    assert(2 * clock * c * (y - b) == 2 * (c * clock * y) - 2 * (c * clock * b)) by (nonlinear_arith);
    assert(2 * clock * c * (y - b) == c * e1 + 2 * (q * e2) + 2 * (clock * e3));
    assert(-(c * clock) <= c * e1 <= c * clock) by (nonlinear_arith)
        requires
            -clock < e1 <= clock,
            c >= 1,
    ;
    assert(-(c * den) <= q * (2 * e2) <= c * den) by (nonlinear_arith)
        requires
            -den < 2 * e2 <= den,
            0 <= q <= c,
            den > 0,
    ;
    assert(-(clock * period) <= clock * (2 * e3) <= clock * period) by (nonlinear_arith)
        requires
            -period <= 2 * e3 <= period,
            clock > 0,
    ;
    assert(2 * (q * e2) == q * (2 * e2) && 2 * (clock * e3) == clock * (2 * e3)) by (nonlinear_arith);
    assert(c * clock == clock * c) by (nonlinear_arith);
    assert(2 * clock * c * (b - y) == -(2 * clock * c * (y - b))) by (nonlinear_arith);
}

} // verus!

verus! {

/// The rebuilt period lies within half a divided clock period, plus half a nanosecond, of the
/// requested one: `2 * clock * |y - period| <= d * 1 s + clock`.
pub proof fn lemma_window_period_error(period: int, clock: int)
    requires
        period > 0,
        clock > 0,
        window_divider(period, clock) is Some,
    ensures
        ({
            let d = window_divider(period, clock)->0;
            let y = time_of_ticks(window_counter(period, clock, d), d, clock);
            &&& 2 * clock * (y - period) <= d * NS_PER_S + clock
            &&& 2 * clock * (period - y) <= d * NS_PER_S + clock
        }),
{
    let d = window_divider(period, clock)->0;
    lemma_window_divider(period, clock);
    let den = d * NS_PER_S;
    let c = window_counter(period, clock, d);
    let tf = period * clock;
    lemma_round_div_bounds(tf, den);
    let cd = c * den;
    assert(c * d * NS_PER_S == cd) by (nonlinear_arith)
        requires
            cd == c * den,
            den == d * NS_PER_S,
    ;
    lemma_round_div_bounds(cd, clock);
    assert(2 * den * c == 2 * cd) by (nonlinear_arith)
        requires
            cd == c * den,
    ;
    let y = time_of_ticks(c, d, clock);
    assert(2 * clock * (y - period) == 2 * clock * y - 2 * tf) by (nonlinear_arith)
        requires
            tf == period * clock,
    ;
    assert(2 * clock * (period - y) == 2 * tf - 2 * clock * y) by (nonlinear_arith)
        requires
            tf == period * clock,
    ;
}

} // verus!

verus! {

/// What changing the period of the window to `period` returns: each of the synthesis errors
/// exactly when the period calls for it, else the period rebuilt from the counter.
pub open spec fn period_outcome<E>(period: int, clock: int, r: Result<i64, AfeError<E>>) -> bool {
    &&& r matches Ok(v) ==> (window_divider(period, clock) matches Some(d) && v == time_of_ticks(
        window_counter(period, clock, d),
        d,
        clock,
    ))
    &&& (r matches Err(e) && e is WindowPeriodTooLong) ==> window_divider(period, clock) is None
    &&& (r matches Err(e) && e is WindowPeriodTooShort) ==> (window_divider(period, clock) matches Some(
        d,
    ) && window_counter(period, clock, d) < 1)
    &&& r matches Err(e) ==> (e is WindowPeriodTooLong || e is WindowPeriodTooShort || e
        == AfeError::<E>::InvalidRegisterValue { reg_addr: 0x39 } || is_bus_error(e))
}

/// Whether the log went from `before` through `mid` to `after` by reading the window back in
/// full, with the answers `a1`, and then synthesizing a window of `period` nanoseconds with the
/// boundaries `b` in full, with the answer `a2` for register 1Eh.
pub open spec fn period_exchange(
    before: Seq<Transfer>,
    mid: Seq<Transfer>,
    after: Seq<Transfer>,
    address: u8,
    clock: int,
    period: int,
    a1: Seq<Seq<u8>>,
    a2: Seq<Seq<u8>>,
    b: Seq<i64>,
) -> bool {
    &&& exchanged(before, mid, address, window_registers(), a1, Seq::empty(), true)
    &&& exchanged(mid, after, address, one_reg(0x1Eu8), a2, window_writes(period, clock, b, values(a2)[0]), true)
    &&& b.len() == BOUNDARY_COUNT
}

impl<B: I2cBus, MODE: LedMode> AFE4404<B, MODE> {
    fn change_window_period(&mut self, period: i64, ambient_slot: bool) -> (r: Result<i64, AfeError<B::Error>>)
        requires
            old(self).clock_hz() > 0,
        ensures
            final(self).same_device(old(self)),
            period_outcome(period as int, old(self).clock_hz() as int, r),
            r is Ok ==> exists|mid: Seq<Transfer>, a1: Seq<Seq<u8>>, a2: Seq<Seq<u8>>, b: Seq<i64>|
                #[trigger] period_exchange(
                    old(self).log(),
                    mid,
                    final(self).log(),
                    old(self).address_spec(),
                    old(self).clock_hz() as int,
                    period as int,
                    a1,
                    a2,
                    b,
                ),
    {
        let current = self.get_timing_window()?;
        let ghost mid = self.log();
        let ghost a1 = choose|a: Seq<Seq<u8>>|
            #[trigger] exchanged(old(self).log(), mid, old(self).address_spec(), window_registers(), a, Seq::empty(), true);
        let next = current.with_period(period);
        let ghost b = written_boundaries(next.active_spec(), next.inactive_spec(), ambient_slot);
        let c = self.synthesize_window(&next, ambient_slot)?;
        proof {
            let a2 = choose|a: Seq<Seq<u8>>|
                #[trigger] exchanged(
                    mid,
                    self.log(),
                    old(self).address_spec(),
                    one_reg(0x1Eu8),
                    a,
                    window_writes(period as int, old(self).clock_hz() as int, b, values(a)[0]),
                    true,
                );
            assert(window_boundaries(next.active_spec(), next.inactive_spec()).len() == BOUNDARY_COUNT);
            assert(period_exchange(old(self).log(), mid, self.log(), old(self).address_spec(), old(self).clock_hz() as int, period as int, a1, a2, b));
        }
        Ok(c.period())
    }
}

impl<B: I2cBus> AFE4404<B, ThreeLedsMode> {
    /// Sets the measurement window of the three LEDs and the ambient channel, and starts the
    /// timer engine; see `window_outcome` for what it returns.
    pub fn set_timing_window(
        &mut self,
        configuration: &MeasurementWindowConfiguration<ThreeLedsMode>,
    ) -> (r: Result<MeasurementWindowConfiguration<ThreeLedsMode>, AfeError<B::Error>>)
        ensures
            final(self).same_device(old(self)),
            (r is Ok || (r matches Err(e) && is_bus_error(e))) ==> exists|answers: Seq<Seq<u8>>|
                #[trigger] exchanged(
                    old(self).log(),
                    final(self).log(),
                    old(self).address_spec(),
                    one_reg(0x1Eu8),
                    answers,
                    window_writes(
                        configuration.period_ns(),
                        old(self).clock_hz() as int,
                        written_boundaries(configuration.active_spec(), configuration.inactive_spec(), false),
                        values(answers)[0],
                    ),
                    r is Ok,
                ),
            window_outcome(
                configuration.period_ns(),
                old(self).clock_hz() as int,
                window_boundaries(configuration.active_spec(), configuration.inactive_spec()),
                r,
                *final(self) == *old(self),
            ),
    {
        self.synthesize_window(configuration, false)
    }

    /// Changes the period of the measurement window, keeping the phase boundaries that the
    /// registers hold, and returns the period that now holds.
    pub fn set_window_period(&mut self, period: i64) -> (r: Result<i64, AfeError<B::Error>>)
        requires
            old(self).clock_hz() > 0,
        ensures
            final(self).same_device(old(self)),
            period_outcome(period as int, old(self).clock_hz() as int, r),
            r is Ok ==> exists|mid: Seq<Transfer>, a1: Seq<Seq<u8>>, a2: Seq<Seq<u8>>, b: Seq<i64>|
                #[trigger] period_exchange(
                    old(self).log(),
                    mid,
                    final(self).log(),
                    old(self).address_spec(),
                    old(self).clock_hz() as int,
                    period as int,
                    a1,
                    a2,
                    b,
                ),
    {
        self.change_window_period(period, false)
    }
}

impl<B: I2cBus> AFE4404<B, TwoLedsMode> {
    /// Sets the measurement window of the two LEDs and the two ambient channels, and starts the
    /// timer engine; see `window_outcome` for what it returns. The second ambient channel shares
    /// the registers of LED3: their LED-on phase is written as zero, and comes back as zero.
    pub fn set_timing_window(
        &mut self,
        configuration: &MeasurementWindowConfiguration<TwoLedsMode>,
    ) -> (r: Result<MeasurementWindowConfiguration<TwoLedsMode>, AfeError<B::Error>>)
        ensures
            final(self).same_device(old(self)),
            (r is Ok || (r matches Err(e) && is_bus_error(e))) ==> exists|answers: Seq<Seq<u8>>|
                #[trigger] exchanged(
                    old(self).log(),
                    final(self).log(),
                    old(self).address_spec(),
                    one_reg(0x1Eu8),
                    answers,
                    window_writes(
                        configuration.period_ns(),
                        old(self).clock_hz() as int,
                        written_boundaries(configuration.active_spec(), configuration.inactive_spec(), true),
                        values(answers)[0],
                    ),
                    r is Ok,
                ),
            window_outcome(
                configuration.period_ns(),
                old(self).clock_hz() as int,
                written_boundaries(configuration.active_spec(), configuration.inactive_spec(), true),
                r,
                *final(self) == *old(self),
            ),
            r matches Ok(c) ==> c.active_spec().shared_spec().lighting_st == 0
                && c.active_spec().shared_spec().lighting_end == 0,
    {
        let r = self.synthesize_window(configuration, true);
        proof {
            if r is Ok {
                let c = r->Ok_0;
                let clock = old(self).clock_hz() as int;
                let period = configuration.period_ns();
                let d = window_divider(period, clock)->0;
                lemma_window_divider(period, clock);
                assert(clock > 0) by (nonlinear_arith)
                    requires
                        window_counter(period, clock, d) >= 1,
                        clock >= 0,
                        period * clock <= d * COUNTER_SPAN * NS_PER_S,
                        window_counter(period, clock, d) == round_div(period * clock, d * NS_PER_S),
                        d >= 1,
                {
                    if clock == 0 {
                        assert(period * clock == 0);
                        lemma_round_div_bounds(0, d * NS_PER_S);
                    }
                }
                lemma_round_div_bounds(0, clock);
                let w = window_boundaries(c.active_spec(), c.inactive_spec());
                let bw = written_boundaries(configuration.active_spec(), configuration.inactive_spec(), true);
                assert(bw[8] == 0 && bw[9] == 0);
                assert(time_of_ticks(0, d, clock) == 0) by (nonlinear_arith)
                    requires
                        2 * clock * round_div(0, clock) <= clock,
                        clock < 2 * clock * round_div(0, clock) + 2 * clock,
                        clock > 0,
                        time_of_ticks(0, d, clock) == round_div(0 * d * NS_PER_S, clock),
                ;
                assert(w[8] == time_of_ticks(phase_code(bw[8] as int, period, window_counter(period, clock, d)), d, clock));
                assert(w[9] == time_of_ticks(phase_code(bw[9] as int, period, window_counter(period, clock, d)), d, clock));
            }
        }
        r
    }

    /// Changes the period of the measurement window, keeping the phase boundaries that the
    /// registers hold, and returns the period that now holds.
    pub fn set_window_period(&mut self, period: i64) -> (r: Result<i64, AfeError<B::Error>>)
        requires
            old(self).clock_hz() > 0,
        ensures
            final(self).same_device(old(self)),
            period_outcome(period as int, old(self).clock_hz() as int, r),
            r is Ok ==> exists|mid: Seq<Transfer>, a1: Seq<Seq<u8>>, a2: Seq<Seq<u8>>, b: Seq<i64>|
                #[trigger] period_exchange(
                    old(self).log(),
                    mid,
                    final(self).log(),
                    old(self).address_spec(),
                    old(self).clock_hz() as int,
                    period as int,
                    a1,
                    a2,
                    b,
                ),
    {
        self.change_window_period(period, true)
    }
}

} // verus!
