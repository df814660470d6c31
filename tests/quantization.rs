use afe4404::adc::{averaging_register, decimation_register};
use afe4404::channel_current::{plan_single_led, plan_single_offset};
use afe4404::clock::{clock_registers, decode_clock, ratio_code_of, ClockConfiguration};
use afe4404::led_current::{led_current_codes, led_current_from_code, offset_code_of};
use afe4404::measurement_window::{counter_of, phase_code_of, select_divider, time_of};
use afe4404::register::{decode_answer, write_frame};
use afe4404::tia::{capacitor_code, resistor_code};
use afe4404::value_reading::decode_reading;

#[test]
fn resistor_buckets() {
    assert_eq!(resistor_code(19_900), Some((25_000, 4)));
    assert_eq!(resistor_code(2_000_000), Some((2_000_000, 7)));
    assert_eq!(resistor_code(2_001_000), None);
    assert_eq!(resistor_code(9_999), None);
    assert_eq!(resistor_code(10_000), Some((10_000, 5)));
    assert_eq!(resistor_code(17_999), Some((10_000, 5)));
    assert_eq!(resistor_code(749_999), Some((500_000, 0)));
    assert_eq!(resistor_code(1_499_999), Some((1_000_000, 6)));
}

#[test]
fn capacitor_buckets() {
    assert_eq!(capacitor_code(2_499), None);
    assert_eq!(capacitor_code(2_500), Some((2_500, 1)));
    assert_eq!(capacitor_code(3_750), Some((5_000, 0)));
    assert_eq!(capacitor_code(25_000), Some((25_000, 6)));
    assert_eq!(capacitor_code(25_001), None);
}

#[test]
fn led_codes_range_selection() {
    let c = led_current_codes(30_000_000, 30_000_000, 30_000_000).unwrap();
    assert_eq!((c.iled1, c.iled2, c.iled3, c.high_current), (38, 38, 38, false));
    let c = led_current_codes(50_000_001, 0, 100_000_000).unwrap();
    assert_eq!((c.iled1, c.iled3, c.high_current), (32, 63, true));
    assert!(led_current_codes(-1, 0, 0).is_none());
    assert_eq!(led_current_from_code(38, false), 30_158_730);
    assert_eq!(led_current_from_code(63, true), 100_000_000);
}

#[test]
fn led_quantization_within_one_step() {
    for x in (0..=100_000_000i64).step_by(777_777) {
        let c = led_current_codes(x, 0, 0).unwrap();
        let range = if c.high_current { 100_000_000 } else { 50_000_000 };
        let y = led_current_from_code(c.iled1, c.high_current);
        assert!(63 * (y - x).abs() <= range);
    }
}

#[test]
fn offset_codes() {
    let c = offset_code_of(-3_000);
    assert_eq!((c.magnitude, c.negative), (6, true));
    let c = offset_code_of(7_000);
    assert_eq!((c.magnitude, c.negative), (15, false));
}

#[test]
fn divider_selection() {
    // 10 ms at 4 MHz: 40 000 clocks fit a divider of 1.
    assert_eq!(select_divider(10_000_000, 4_000_000), Some(1));
    assert_eq!(counter_of(10_000_000, 4_000_000, 1), 40_000);
    // Exactly 65 536 clocks still fit a divider of 1; one more needs 2.
    assert_eq!(select_divider(16_384_000, 4_000_000), Some(1));
    assert_eq!(select_divider(16_384_001, 4_000_000), Some(2));
    assert_eq!(select_divider(100_000_000, 4_000_000), Some(8));
    assert_eq!(select_divider(262_144_000, 4_000_000), Some(16));
    assert_eq!(select_divider(262_144_001, 4_000_000), None);
    assert_eq!(counter_of(100, 4_000_000, 1), 0);
}

#[test]
fn phase_codes_and_times() {
    // Quantization step of 0.25 µs.
    assert_eq!(phase_code_of(367_000, 10_000_000, 40_000), 1_468);
    assert_eq!(phase_code_of(125, 10_000_000, 40_000), 1);
    assert_eq!(phase_code_of(124, 10_000_000, 40_000), 0);
    assert_eq!(phase_code_of(-5, 10_000_000, 40_000), 0);
    assert_eq!(phase_code_of(i64::MAX, 10_000_000, 40_000), 0xFFFF);
    assert_eq!(time_of(1_468, 1, 4_000_000), 367_000);
    assert_eq!(time_of(1, 1, 4_000_000), 250);
}

#[test]
fn adc_sign_extension() {
    assert_eq!(decode_reading(0x00_0001), Some(572));
    assert_eq!(decode_reading(0x1F_FFFF), Some(1_200_000_000));
    assert_eq!(decode_reading(0xFF_FFFF), Some(-572));
    assert_eq!(decode_reading(0xE0_0000), Some(-1_200_000_572));
    assert_eq!(decode_reading(0x20_0000), None);
    assert_eq!(decode_reading(0x7F_FFFF), None);
    assert_eq!(decode_reading(0xC0_0000), None);
    assert_eq!(decode_reading(0), Some(0));
}

#[test]
fn frames_and_answers() {
    assert_eq!(write_frame(0x22, 0x12_3456), vec![0x22, 0x12, 0x34, 0x56]);
    assert_eq!(decode_answer::<()>(&vec![0x12, 0x34, 0x56]), Ok(0x12_3456));
    assert!(decode_answer::<()>(&vec![0x12]).is_err());
}

#[test]
fn clock_ratio_codes() {
    assert_eq!(ratio_code_of(1), Some(0));
    assert_eq!(ratio_code_of(3), Some(2));
    assert_eq!(ratio_code_of(128), Some(7));
    assert_eq!(ratio_code_of(181), Some(7));
    assert_eq!(ratio_code_of(182), None);
    assert_eq!(ratio_code_of(0), None);
}

#[test]
fn single_led_plan_rescales() {
    // LED2 at code 40 and LED3 at code 10 in the high range; LED1 set to 20 mA.
    let r22h = (10 << 12) | (40 << 6);
    let r23h = 1 << 17;
    let (a, b, v) = plan_single_led(r22h, r23h, 0, 20_000_000);
    // LED2's code is above 31, so the range stays high: 20 mA is 13 steps of 100 mA / 63.
    assert_eq!(b, 1 << 17);
    assert_eq!(a, (10 << 12) | (40 << 6) | 13);
    assert_eq!(v, 20_634_921);
    // With LED2 at 30 the range drops to low and the other codes double.
    let (a, b, v) = plan_single_led((10 << 12) | (30 << 6), r23h, 0, 20_000_000);
    assert_eq!(b, 0);
    assert_eq!(a, (20 << 12) | (60 << 6) | 25);
    assert_eq!(v, 19_841_270);
    // Above 50 mA from the low range: the other codes halve.
    let (a, b, _) = plan_single_led((20 << 12) | (61 << 6), 0, 0, 60_000_000);
    assert_eq!(b, 1 << 17);
    assert_eq!(a, (10 << 12) | (30 << 6) | 38);
}

#[test]
fn single_offset_plan_keeps_other_channels() {
    let r3ah = 0x0F_FFFF;
    assert_eq!(plan_single_offset(r3ah, 5, -3_000), (r3ah & !(0x1F << 5)) | (1 << 9) | (6 << 5));
    assert_eq!(plan_single_offset(0, 15, 7_000), 15 << 15);
}

#[test]
fn clock_register_values() {
    assert_eq!(clock_registers(0x00_0001, true, true, 3), (0x00_0201, (1 << 9) | (3 << 1)));
    assert_eq!(clock_registers(0x00_0201, false, false, 0), (0x00_0001, 0));
    assert_eq!(decode_clock(1 << 9, (1 << 9) | (7 << 1)), Some(ClockConfiguration::InternalToOutput { division_ratio: 128 }));
    assert_eq!(decode_clock(1 << 9, (1 << 9) | (8 << 1)), None);
    assert_eq!(decode_clock(1 << 9, 0), Some(ClockConfiguration::Internal));
    assert_eq!(decode_clock(0, 0xFF_FFFF), Some(ClockConfiguration::External));
}

#[test]
fn adc_register_values() {
    assert_eq!(averaging_register(0x00_0100, 4), 0x00_0103);
    assert_eq!(averaging_register(0x00_010F, 1), 0x00_0100);
    assert_eq!(decimation_register(0), 0);
    assert_eq!(decimation_register(4), (1 << 5) | (4 << 1));
}
