use std::cell::RefCell;
use std::rc::Rc;

use afe4404::clock::ClockConfiguration;
use afe4404::device::AFE4404;
use afe4404::error::AfeError;
use afe4404::led_current::{LedCurrentConfiguration, OffsetCurrentConfiguration};
use afe4404::measurement_window::{
    ActiveTiming, AmbientTiming, LedTiming, MeasurementWindowConfiguration, PowerDownTiming,
};
use afe4404::modes::{ThreeLedsMode, TwoLedsMode};
use afe4404::register::I2cBus;
use afe4404::system::{DynamicConfiguration, State};
use afe4404::tia::{CapacitorConfiguration, CapacitorValue, ResistorConfiguration, ResistorValue};

#[derive(Default)]
struct Chip {
    regs: Vec<u32>,
    pointer: u8,
    frames: Vec<Vec<u8>>,
    reads: usize,
    fail_writes: bool,
    short_answers: bool,
}

#[derive(Clone)]
struct MockBus(Rc<RefCell<Chip>>);

impl MockBus {
    fn new() -> Self {
        MockBus(Rc::new(RefCell::new(Chip { regs: vec![0; 256], ..Chip::default() })))
    }

    fn reg(&self, addr: u8) -> u32 {
        self.0.borrow().regs[addr as usize]
    }

    fn set_reg(&self, addr: u8, value: u32) {
        self.0.borrow_mut().regs[addr as usize] = value;
    }

    fn frames(&self) -> Vec<Vec<u8>> {
        self.0.borrow().frames.clone()
    }

    fn reads(&self) -> usize {
        self.0.borrow().reads
    }

    fn clear_log(&self) {
        let mut chip = self.0.borrow_mut();
        chip.frames.clear();
        chip.reads = 0;
    }
}

impl I2cBus for MockBus {
    type Error = u8;

    fn write(&mut self, _address: u8, bytes: &[u8]) -> Result<(), u8> {
        let mut chip = self.0.borrow_mut();
        if chip.fail_writes {
            return Err(7);
        }
        chip.frames.push(bytes.to_vec());
        if bytes.len() == 1 {
            chip.pointer = bytes[0];
        } else if bytes.len() == 4 {
            let v = (u32::from(bytes[1]) << 16) | (u32::from(bytes[2]) << 8) | u32::from(bytes[3]);
            chip.regs[bytes[0] as usize] = v;
        }
        Ok(())
    }

    fn read(&mut self, _address: u8, len: usize) -> Result<Vec<u8>, u8> {
        let mut chip = self.0.borrow_mut();
        chip.reads += 1;
        let v = chip.regs[chip.pointer as usize];
        let bytes = vec![(v >> 16) as u8, (v >> 8) as u8, v as u8];
        let n = if chip.short_answers { 2 } else { len.min(3) };
        Ok(bytes[..n].to_vec())
    }
}

fn three_leds(bus: &MockBus, clock: u32) -> AFE4404<MockBus, ThreeLedsMode> {
    AFE4404::with_three_leds(bus.clone(), 0x58, clock)
}

fn two_leds(bus: &MockBus, clock: u32) -> AFE4404<MockBus, TwoLedsMode> {
    AFE4404::with_two_leds(bus.clone(), 0x58, clock)
}

#[test]
fn leds_current_30ma_three_leds() {
    let bus = MockBus::new();
    let mut afe = three_leds(&bus, 4_000_000);
    let c = LedCurrentConfiguration::<ThreeLedsMode>::new(30_000_000, 30_000_000, 30_000_000);
    let r = afe.set_leds_current(&c).unwrap();
    // 38 steps of 50 mA / 63.
    assert_eq!(r.led1(), 30_158_730);
    assert_eq!(r.led2(), 30_158_730);
    assert_eq!(r.led3(), 30_158_730);
    let r22h = bus.reg(0x22);
    assert_eq!(r22h & 0x3F, 38);
    assert_eq!((r22h >> 6) & 0x3F, 38);
    assert_eq!((r22h >> 12) & 0x3F, 38);
    assert_eq!((bus.reg(0x23) >> 17) & 1, 0);
}

#[test]
fn leds_current_high_range_bit_shared() {
    let bus = MockBus::new();
    bus.set_reg(0x23, 0x00_0200);
    let mut afe = three_leds(&bus, 4_000_000);
    let c = LedCurrentConfiguration::<ThreeLedsMode>::new(60_000_000, 10_000_000, 0);
    let r = afe.set_leds_current(&c).unwrap();
    assert_eq!((bus.reg(0x23) >> 17) & 1, 1);
    // The other bits of register 23h are kept.
    assert_eq!(bus.reg(0x23) & 0x00_0200, 0x00_0200);
    // 60 mA: round(37.8) = 38 steps of 100 mA / 63; 10 mA: round(6.3) = 6 steps.
    assert_eq!(r.led1(), 60_317_460);
    assert_eq!(r.led2(), 9_523_810);
    assert_eq!(r.led3(), 0);
    let back = afe.get_leds_current().unwrap();
    assert_eq!(back.led1(), r.led1());
    assert_eq!(back.led2(), r.led2());
    assert_eq!(back.led3(), r.led3());
}

#[test]
fn leds_current_exactly_50ma_stays_low_range() {
    let bus = MockBus::new();
    let mut afe = two_leds(&bus, 4_000_000);
    let c = LedCurrentConfiguration::<TwoLedsMode>::new(50_000_000, 0);
    let r = afe.set_leds_current(&c).unwrap();
    assert_eq!((bus.reg(0x23) >> 17) & 1, 0);
    assert_eq!(r.led1(), 50_000_000);
    assert_eq!(bus.reg(0x22), 63);
}

#[test]
fn leds_current_out_of_range_touches_no_register() {
    let bus = MockBus::new();
    let mut afe = three_leds(&bus, 4_000_000);
    let c = LedCurrentConfiguration::<ThreeLedsMode>::new(100_000_001, 0, 0);
    assert_eq!(afe.set_leds_current(&c).unwrap_err(), AfeError::LedCurrentOutsideAllowedRange);
    let c = LedCurrentConfiguration::<ThreeLedsMode>::new(0, -1, 0);
    assert_eq!(afe.set_leds_current(&c).unwrap_err(), AfeError::LedCurrentOutsideAllowedRange);
    assert!(bus.frames().is_empty());
    assert_eq!(bus.reads(), 0);
}

#[test]
fn offset_current_round_trip() {
    let bus = MockBus::new();
    let mut afe = three_leds(&bus, 4_000_000);
    let c = OffsetCurrentConfiguration::<ThreeLedsMode>::new(7_000, -3_000, 100, -7_000);
    let r = afe.set_offset_current(&c).unwrap();
    // Steps of 7 µA / 15: 15, -6 (-2800 nA), 0, -15.
    assert_eq!(r.led1(), 7_000);
    assert_eq!(r.led2(), -2_800);
    assert_eq!(r.led3(), 0);
    assert_eq!(r.ambient(), -7_000);
    let v = bus.reg(0x3A);
    assert_eq!((v >> 5) & 0xF, 15);
    assert_eq!((v >> 9) & 1, 0);
    assert_eq!((v >> 15) & 0xF, 6);
    assert_eq!((v >> 19) & 1, 1);
    assert_eq!((v >> 10) & 0xF, 15);
    assert_eq!((v >> 14) & 1, 1);
    let back = afe.get_offset_current().unwrap();
    assert_eq!(back.led1(), r.led1());
    assert_eq!(back.led2(), r.led2());
    assert_eq!(back.led3(), r.led3());
    assert_eq!(back.ambient(), r.ambient());
}

#[test]
fn offset_current_out_of_range() {
    let bus = MockBus::new();
    let mut afe = two_leds(&bus, 4_000_000);
    let c = OffsetCurrentConfiguration::<TwoLedsMode>::new(0, 0, 7_001, 0);
    assert_eq!(afe.set_offset_current(&c).unwrap_err(), AfeError::OffsetCurrentOutsideAllowedRange);
    assert!(bus.frames().is_empty());
}

#[test]
fn tia_resistors_buckets_and_round_trip() {
    let bus = MockBus::new();
    let mut afe = three_leds(&bus, 4_000_000);
    let r = afe.set_tia_resistors(&ResistorConfiguration::new(19_900, 2_000_000)).unwrap();
    assert_eq!(r.resistor1(), 25_000);
    assert_eq!(r.resistor2(), 2_000_000);
    assert_eq!(bus.reg(0x21) & 7, 4);
    assert_eq!(bus.reg(0x20) & 7, 7);
    // Different resistors: separate gains.
    assert_eq!((bus.reg(0x20) >> 15) & 1, 1);
    let back = afe.get_tia_resistors().unwrap();
    assert_eq!(back.resistor1(), 25_000);
    assert_eq!(back.resistor2(), 2_000_000);
}

#[test]
fn tia_resistor_above_2_megaohm_refused() {
    let bus = MockBus::new();
    let mut afe = three_leds(&bus, 4_000_000);
    let e = afe.set_tia_resistors(&ResistorConfiguration::new(2_001_000, 10_000)).unwrap_err();
    assert_eq!(e, AfeError::ResistorValueOutsideAllowedRange);
    let e = afe.set_tia_resistors(&ResistorConfiguration::new(10_000, 9_999)).unwrap_err();
    assert_eq!(e, AfeError::ResistorValueOutsideAllowedRange);
    assert!(bus.frames().is_empty());
}

#[test]
fn tia_capacitors_round_trip() {
    let bus = MockBus::new();
    let mut afe = two_leds(&bus, 4_000_000);
    let r = afe.set_tia_capacitors(&CapacitorConfiguration::new(5_000, 5_100)).unwrap();
    assert_eq!(r.capacitor1(), 5_000);
    assert_eq!(r.capacitor2(), 5_000);
    // Same capacitors and same (default) resistors: one shared gain.
    assert_eq!((bus.reg(0x20) >> 15) & 1, 0);
    let back = afe.get_tia_capacitors().unwrap();
    assert_eq!(back.capacitor1(), 5_000);
    assert_eq!(back.capacitor2(), 5_000);
    let e = afe.set_tia_capacitors(&CapacitorConfiguration::new(25_001, 5_000)).unwrap_err();
    assert_eq!(e, AfeError::CapacitorValueOutsideAllowedRange);
}

#[test]
fn timing_window_default_at_4mhz() {
    let bus = MockBus::new();
    let mut afe = three_leds(&bus, 4_000_000);
    let c = MeasurementWindowConfiguration::<ThreeLedsMode>::default();
    let r = afe.set_timing_window(&c).unwrap();
    // Divider 1, 40 000 counts of 0.25 µs.
    assert_eq!(bus.reg(0x39) & 7, 0);
    assert_eq!(bus.reg(0x1D), 39_999);
    assert_eq!((bus.reg(0x1E) >> 8) & 1, 1);
    assert_eq!(r.period(), 10_000_000);
    // LED2 conversion end: 367 µs is 1468 counts.
    assert_eq!(bus.reg(0x0E), 1_468);
    assert_eq!(r.active_timing_configuration().led2().conv_end, 367_000);
    assert_eq!(bus.reg(0x33), 39_199);
    assert_eq!(r.inactive_timing_configuration().power_down_end, 9_799_750);
    let back = afe.get_timing_window().unwrap();
    assert_eq!(back.period(), r.period());
    assert_eq!(back.active_timing_configuration().led1(), r.active_timing_configuration().led1());
    assert_eq!(back.active_timing_configuration().led2(), r.active_timing_configuration().led2());
    assert_eq!(back.active_timing_configuration().led3(), r.active_timing_configuration().led3());
    assert_eq!(
        back.active_timing_configuration().ambient(),
        r.active_timing_configuration().ambient()
    );
    assert_eq!(back.inactive_timing_configuration(), r.inactive_timing_configuration());
}

#[test]
fn timing_window_period_too_long() {
    let bus = MockBus::new();
    let mut afe = three_leds(&bus, 120_000_000);
    let c = MeasurementWindowConfiguration::<ThreeLedsMode>::default();
    assert_eq!(afe.set_timing_window(&c).unwrap_err(), AfeError::WindowPeriodTooLong);
    assert!(bus.frames().is_empty());
    assert_eq!(bus.reads(), 0);
}

#[test]
fn timing_window_period_too_short() {
    let bus = MockBus::new();
    let mut afe = three_leds(&bus, 4_000_000);
    let active = ActiveTiming::<ThreeLedsMode>::new(
        LedTiming::default(),
        LedTiming::default(),
        LedTiming::default(),
        AmbientTiming::default(),
    );
    let c = MeasurementWindowConfiguration::new(100, active, PowerDownTiming::new(0, 0));
    assert_eq!(afe.set_timing_window(&c).unwrap_err(), AfeError::WindowPeriodTooShort);
    assert!(bus.frames().is_empty());
}

#[test]
fn timing_window_divider_two_and_ambient_slot() {
    let bus = MockBus::new();
    let mut afe = two_leds(&bus, 8_000_000);
    bus.set_reg(0x36, 1234);
    let amb2 = AmbientTiming { sample_st: 1_000_000, ..AmbientTiming::default() };
    let active = ActiveTiming::<TwoLedsMode>::new(
        LedTiming::default(),
        LedTiming::default(),
        AmbientTiming::default(),
        amb2,
    );
    let c = MeasurementWindowConfiguration::new(10_000_000, active, PowerDownTiming::new(0, 0));
    let r = afe.set_timing_window(&c).unwrap();
    // 10 ms at 8 MHz is 80 000 clocks: divider 2, 40 000 counts of 0.25 µs.
    assert_eq!(bus.reg(0x39), 4);
    assert_eq!(bus.reg(0x1D), 39_999);
    assert_eq!(bus.reg(0x05), 4_000);
    // The LED-on phase of the ambient slot is written as zero.
    assert_eq!(bus.reg(0x36), 0);
    assert_eq!(r.active_timing_configuration().ambient2().sample_st, 1_000_000);
}

#[test]
fn timing_window_invalid_divider_register() {
    let bus = MockBus::new();
    let mut afe = three_leds(&bus, 4_000_000);
    bus.set_reg(0x39, 2);
    assert_eq!(
        afe.get_timing_window().unwrap_err(),
        AfeError::InvalidRegisterValue { reg_addr: 0x39 }
    );
}

#[test]
fn readings_decode_signs() {
    let bus = MockBus::new();
    let mut afe = three_leds(&bus, 4_000_000);
    bus.set_reg(0x2C, 0x1F_FFFF);
    bus.set_reg(0x2A, 0xFF_FFFF);
    bus.set_reg(0x2D, 0);
    bus.set_reg(0x2B, 0xE0_0000);
    let r = afe.read().unwrap();
    assert_eq!(r.led1(), 1_200_000_000);
    assert_eq!(r.led2(), -572);
    assert_eq!(r.ambient(), 0);
    assert_eq!(r.led3(), -1_200_000_572);
}

#[test]
fn readings_saturated() {
    let bus = MockBus::new();
    let mut afe = two_leds(&bus, 4_000_000);
    bus.set_reg(0x2E, 0x20_0000);
    assert_eq!(afe.read().unwrap_err(), AfeError::AdcReadingOutsideAllowedRange);
}

#[test]
fn register_read_protocol() {
    let bus = MockBus::new();
    let mut afe = three_leds(&bus, 4_000_000);
    bus.set_reg(0x1E, 0x00_0103);
    assert_eq!(afe.get_averaging().unwrap(), 4);
    assert_eq!(bus.frames(), vec![vec![0, 0, 0, 1], vec![0x1E], vec![0, 0, 0, 0]]);
    bus.clear_log();
    let _ = afe.read().unwrap();
    assert_eq!(bus.frames()[0], vec![0x2A]);
    assert_eq!(bus.frames().len(), 6);
}

#[test]
fn register_write_frame_bytes() {
    let bus = MockBus::new();
    let mut afe = three_leds(&bus, 4_000_000);
    afe.sw_reset().unwrap();
    assert_eq!(bus.frames(), vec![vec![0x00, 0x00, 0x00, 0x08]]);
}

#[test]
fn short_answer_is_reported() {
    let bus = MockBus::new();
    bus.0.borrow_mut().short_answers = true;
    let mut afe = three_leds(&bus, 4_000_000);
    assert_eq!(
        afe.get_averaging().unwrap_err(),
        AfeError::IncorrectAnswerLength { expected: 3, received: 2 }
    );
}

#[test]
fn bus_failure_is_reported() {
    let bus = MockBus::new();
    bus.0.borrow_mut().fail_writes = true;
    let mut afe = three_leds(&bus, 4_000_000);
    assert_eq!(afe.sw_power_down().unwrap_err(), AfeError::I2CError(7));
}

#[test]
fn averaging_and_decimation() {
    let bus = MockBus::new();
    let mut afe = three_leds(&bus, 4_000_000);
    assert_eq!(afe.set_averaging(16).unwrap(), 16);
    assert_eq!(bus.reg(0x1E) & 0xF, 15);
    assert_eq!(afe.get_averaging().unwrap(), 16);
    assert_eq!(afe.set_averaging(0).unwrap_err(), AfeError::NumberOfAveragesOutsideAllowedRange);
    assert_eq!(afe.set_averaging(17).unwrap_err(), AfeError::NumberOfAveragesOutsideAllowedRange);
    assert_eq!(afe.set_decimation(8).unwrap(), 8);
    assert_eq!(bus.reg(0x3D), (1 << 5) | (3 << 1));
    assert_eq!(afe.get_decimation().unwrap(), 8);
    assert_eq!(afe.set_decimation(3).unwrap_err(), AfeError::DecimationFactorOutsideAllowedRange);
    bus.set_reg(0x3D, 7 << 1);
    assert_eq!(
        afe.get_decimation().unwrap_err(),
        AfeError::InvalidRegisterValue { reg_addr: 0x3D }
    );
}

#[test]
fn clock_source_round_trip() {
    let bus = MockBus::new();
    let mut afe = three_leds(&bus, 4_000_000);
    let r = afe.set_clock_source(&ClockConfiguration::InternalToOutput { division_ratio: 3 }).unwrap();
    assert_eq!(r, ClockConfiguration::InternalToOutput { division_ratio: 4 });
    assert_eq!((bus.reg(0x23) >> 9) & 1, 1);
    assert_eq!(bus.reg(0x29), (1 << 9) | (2 << 1));
    assert_eq!(afe.get_clock_source().unwrap(), ClockConfiguration::InternalToOutput { division_ratio: 4 });
    assert_eq!(
        afe.set_clock_source(&ClockConfiguration::InternalToOutput { division_ratio: 182 }).unwrap_err(),
        AfeError::ClockDivisionRatioOutsideAllowedRange
    );
    assert_eq!(afe.set_clock_source(&ClockConfiguration::External).unwrap(), ClockConfiguration::External);
    assert_eq!(afe.get_clock_source().unwrap(), ClockConfiguration::External);
}

#[test]
fn internal_clock_needs_4mhz() {
    let bus = MockBus::new();
    let mut afe = three_leds(&bus, 8_000_000);
    assert_eq!(
        afe.set_clock_source(&ClockConfiguration::Internal).unwrap_err(),
        AfeError::IncorrectInternalClock
    );
    assert!(bus.frames().is_empty());
}

#[test]
fn dynamic_and_photodiode() {
    let bus = MockBus::new();
    let mut afe = two_leds(&bus, 4_000_000);
    let c = DynamicConfiguration {
        transmitter: State::Disabled,
        adc: State::Enabled,
        tia: State::Disabled,
        rest_of_adc: State::Enabled,
    };
    assert_eq!(afe.set_dynamic(&c).unwrap(), c);
    assert_eq!(bus.reg(0x23), (1 << 20) | (1 << 4));
    assert_eq!(afe.get_dynamic().unwrap(), c);
    assert_eq!(afe.set_photodiode(State::Disabled).unwrap(), State::Disabled);
    assert_eq!(bus.reg(0x31), 1 << 10);
    assert_eq!(afe.get_photodiode().unwrap(), State::Disabled);
    afe.sw_power_down_rx().unwrap();
    assert_eq!(bus.reg(0x23) & 2, 2);
    afe.sw_power_up_rx().unwrap();
    assert_eq!(bus.reg(0x23) & 2, 0);
    assert_eq!(State::from(true), State::Disabled);
}

#[test]
fn single_led_current_rescales_the_others() {
    let bus = MockBus::new();
    let mut afe = three_leds(&bus, 4_000_000);
    let c = LedCurrentConfiguration::<ThreeLedsMode>::new(20_000_000, 30_000_000, 0);
    afe.set_leds_current(&c).unwrap();
    // Codes 25 and 38 in the low range; LED3 at 60 mA needs the high range.
    assert_eq!(afe.set_led3_current(60_000_000).unwrap(), 60_317_460);
    assert_eq!((bus.reg(0x23) >> 17) & 1, 1);
    assert_eq!(bus.reg(0x22) & 0x3F, 12);
    assert_eq!((bus.reg(0x22) >> 6) & 0x3F, 19);
    assert_eq!(afe.get_led3_current().unwrap(), 60_317_460);
    assert_eq!(afe.get_led2_current().unwrap(), 30_158_730);
    // LED2 at 10 mA: LED3 still needs the high range.
    assert_eq!(afe.set_led2_current(10_000_000).unwrap(), 9_523_810);
    assert_eq!((bus.reg(0x23) >> 17) & 1, 1);
    assert_eq!(afe.set_led1_current(100_000_001).unwrap_err(), AfeError::LedCurrentOutsideAllowedRange);
    assert_eq!(afe.get_led1_current().unwrap(), 19_047_619);
}

#[test]
fn single_offset_currents() {
    let bus = MockBus::new();
    let mut afe = two_leds(&bus, 4_000_000);
    assert_eq!(afe.set_offset_amb2_current(-466).unwrap(), -467);
    assert_eq!(afe.set_offset_led1_current(3_000).unwrap(), 2_800);
    assert_eq!(bus.reg(0x3A) & 0x1F, 0x11);
    assert_eq!(afe.get_offset_amb2_current().unwrap(), -467);
    assert_eq!(afe.get_offset_led1_current().unwrap(), 2_800);
    assert_eq!(afe.set_offset_amb1_current(-7_001).unwrap_err(), AfeError::OffsetCurrentOutsideAllowedRange);
    assert_eq!(afe.get_offset_amb1_current().unwrap(), 0);
    let bus3 = MockBus::new();
    let mut afe3 = three_leds(&bus3, 4_000_000);
    assert_eq!(afe3.set_offset_led3_current(7_000).unwrap(), 7_000);
    assert_eq!(afe3.set_offset_amb_current(-7_000).unwrap(), -7_000);
    assert_eq!(afe3.get_offset_led3_current().unwrap(), 7_000);
    assert_eq!(afe3.get_offset_amb_current().unwrap(), -7_000);
    assert_eq!(afe3.set_offset_led2_current(1).unwrap(), 0);
    assert_eq!(afe3.get_offset_led2_current().unwrap(), 0);
}

#[test]
fn single_tia_values() {
    let bus = MockBus::new();
    let mut afe = three_leds(&bus, 4_000_000);
    assert_eq!(afe.set_tia_resistor1(100_000).unwrap(), 100_000);
    assert_eq!(afe.set_tia_resistor2(1_000_000).unwrap(), 1_000_000);
    assert_eq!(afe.get_tia_resistor1().unwrap(), 100_000);
    assert_eq!(afe.get_tia_resistor2().unwrap(), 1_000_000);
    assert_eq!((bus.reg(0x20) >> 15) & 1, 1);
    assert_eq!(afe.set_tia_capacitor1(20_000).unwrap(), 20_000);
    assert_eq!(afe.set_tia_capacitor2(22_000).unwrap(), 22_500);
    assert_eq!(afe.get_tia_capacitor1().unwrap(), 20_000);
    assert_eq!(afe.get_tia_capacitor2().unwrap(), 22_500);
    assert_eq!(afe.set_tia_resistor2(5).unwrap_err(), AfeError::ResistorValueOutsideAllowedRange);
    assert_eq!(afe.set_tia_capacitor1(30_000).unwrap_err(), AfeError::CapacitorValueOutsideAllowedRange);
}

#[test]
fn single_result_readers() {
    let bus = MockBus::new();
    let mut afe = two_leds(&bus, 4_000_000);
    bus.set_reg(0x2C, 1);
    bus.set_reg(0x2E, 0xFF_FFFF);
    bus.set_reg(0x3F, 0x40_0000);
    bus.set_reg(0x40, 0x1F_FFFF);
    assert_eq!(afe.read_led1().unwrap(), 572);
    assert_eq!(afe.read_led2().unwrap(), 0);
    assert_eq!(afe.read_led2_minus_ambient2().unwrap(), -572);
    assert_eq!(afe.read_averaged_led1_minus_ambient1().unwrap(), 1_200_000_000);
    assert_eq!(
        afe.read_averaged_led2_minus_ambient2().unwrap_err(),
        AfeError::AdcReadingOutsideAllowedRange
    );
    assert_eq!(afe.read_ambient1().unwrap(), 0);
    assert_eq!(afe.read_ambient2().unwrap(), 0);
    assert_eq!(afe.read_led1_minus_ambient1().unwrap(), 0);
    let bus3 = MockBus::new();
    let mut afe3 = three_leds(&bus3, 4_000_000);
    bus3.set_reg(0x2B, 0xFF_FFFE);
    assert_eq!(afe3.read_led3().unwrap(), -1_144);
    assert_eq!(afe3.read_ambient().unwrap(), 0);
    assert_eq!(afe3.read_led1_minus_ambient().unwrap(), 0);
    assert_eq!(afe3.read_averaged_led1_minus_ambient().unwrap(), 0);
}

#[test]
fn catalog_enums() {
    let bus = MockBus::new();
    let mut afe = three_leds(&bus, 4_000_000);
    assert_eq!(afe.set_tia_resistor2_enum(ResistorValue::R1M).unwrap(), ResistorValue::R1M);
    assert_eq!(bus.reg(0x20) & 7, 6);
    assert_eq!(afe.get_tia_resistor2_enum().unwrap(), ResistorValue::R1M);
    assert_eq!(afe.set_tia_resistor1_enum(ResistorValue::R10k).unwrap(), ResistorValue::R10k);
    assert_eq!(afe.get_tia_resistor1_enum().unwrap(), ResistorValue::R10k);
    assert_eq!(afe.set_tia_capacitor1_enum(CapacitorValue::C22p5).unwrap(), CapacitorValue::C22p5);
    assert_eq!((bus.reg(0x21) >> 3) & 7, 7);
    assert_eq!(afe.get_tia_capacitor1_enum().unwrap(), CapacitorValue::C22p5);
    assert_eq!(afe.set_tia_capacitor2_enum(CapacitorValue::C2p5).unwrap(), CapacitorValue::C2p5);
    assert_eq!(afe.get_tia_capacitor2_enum().unwrap(), CapacitorValue::C2p5);
    assert_eq!(ResistorValue::from_code(8), None);
    assert_eq!(ResistorValue::R2M.ohms(), 2_000_000);
    assert_eq!(CapacitorValue::from_code(0), Some(CapacitorValue::C5p0));
    assert_eq!(CapacitorValue::C17p5.femtofarads(), 17_500);
}

#[test]
fn single_phase_boundaries() {
    let bus = MockBus::new();
    let mut afe = three_leds(&bus, 4_000_000);
    // Divider 1 at 4 MHz: a grid of 0.25 µs.
    assert_eq!(afe.set_led1_lighting_st(200_500).unwrap(), 200_500);
    assert_eq!(bus.reg(0x03), 802);
    assert_eq!(afe.get_led1_lighting_st().unwrap(), 200_500);
    assert_eq!(afe.set_led3_conv_end(634_300).unwrap(), 634_250);
    assert_eq!(bus.reg(0x10), 2_537);
    assert_eq!(afe.get_led3_conv_end().unwrap(), 634_250);
    assert_eq!(afe.set_ambient_sample_st(-10).unwrap(), 0);
    assert_eq!(afe.set_dynamic_power_down_end(1_000_000_000).unwrap(), 16_383_750);
    assert_eq!(bus.reg(0x33), 0xFFFF);
    // Divider 4.
    bus.set_reg(0x39, 5);
    assert_eq!(afe.set_led2_sample_st(1_000).unwrap(), 1_000);
    assert_eq!(bus.reg(0x01), 1);
    assert_eq!(afe.get_led2_sample_st().unwrap(), 1_000);
    bus.set_reg(0x39, 3);
    assert_eq!(
        afe.set_led2_reset_end(1_000).unwrap_err(),
        AfeError::InvalidRegisterValue { reg_addr: 0x39 }
    );
    let bus2 = MockBus::new();
    let mut afe2 = two_leds(&bus2, 4_000_000);
    assert_eq!(afe2.set_ambient2_sample_st(1_000).unwrap(), 1_000);
    assert_eq!(bus2.reg(0x05), 4);
    assert_eq!(afe2.set_ambient1_conv_st(2_000).unwrap(), 2_000);
    assert_eq!(bus2.reg(0x13), 8);
    assert_eq!(afe2.get_ambient1_conv_st().unwrap(), 2_000);
}

#[test]
fn window_period_change() {
    let bus = MockBus::new();
    let mut afe = three_leds(&bus, 4_000_000);
    let c = MeasurementWindowConfiguration::<ThreeLedsMode>::default();
    afe.set_timing_window(&c).unwrap();
    // 20 ms at 4 MHz is 80 000 clocks: divider 2, 40 000 counts of 0.5 µs.
    assert_eq!(afe.set_window_period(20_000_000).unwrap(), 20_000_000);
    assert_eq!(bus.reg(0x39), 4);
    assert_eq!(bus.reg(0x1D), 39_999);
    // The boundaries were kept: LED2 conversion end, 367 µs, is now 734 counts.
    assert_eq!(bus.reg(0x0E), 734);
}

#[test]
fn two_led_window_zeroes_shared_lighting() {
    let bus = MockBus::new();
    let mut afe = two_leds(&bus, 4_000_000);
    let mut b = vec![0i64; 32];
    b[8] = 1_000;
    b[9] = 2_000;
    b[10] = 3_000;
    let c: MeasurementWindowConfiguration<TwoLedsMode> =
        afe4404::measurement_window::window_of_boundaries(10_000_000, &b);
    bus.set_reg(0x36, 77);
    bus.set_reg(0x37, 77);
    let r = afe.set_timing_window(&c).unwrap();
    assert_eq!(bus.reg(0x36), 0);
    assert_eq!(bus.reg(0x37), 0);
    assert_eq!(bus.reg(0x05), 12);
    assert_eq!(r.active_timing_configuration().ambient2().sample_st, 3_000);
}

#[test]
fn state_to_bit() {
    assert!(bool::from(State::Disabled));
    assert!(!bool::from(State::Enabled));
}
