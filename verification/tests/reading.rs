use esp_sensor::decimal::Decimal;
use esp_sensor::reading::Reading;

fn reading(temperature: i32, humidity: i32) -> Reading {
    Reading {
        temperature: Decimal::from_tenths(temperature),
        humidity: Decimal::from_tenths(humidity),
    }
}

#[test]
fn readings_in_range_are_correct() {
    assert!(reading(213, 555).is_correct());
    assert!(reading(-400, 1).is_correct());
    assert!(reading(800, 999).is_correct());
    assert!(reading(0, 500).is_correct());
}

#[test]
fn readings_out_of_range_are_not_correct() {
    assert!(!reading(-401, 555).is_correct());
    assert!(!reading(801, 555).is_correct());
    assert!(!reading(213, 0).is_correct());
    assert!(!reading(213, 1000).is_correct());
    assert!(!reading(213, -1).is_correct());
    assert!(!reading(i32::MAX, 555).is_correct());
    assert!(!reading(i32::MIN, i32::MIN).is_correct());
}

#[test]
fn range_agrees_with_floats() {
    for t in (-500..=900).step_by(7) {
        for h in (-10..=1010).step_by(5) {
            let tf = t as f32 / 10.0;
            let hf = h as f32 / 10.0;
            let expected = hf > 0.0 && hf < 100.0 && tf >= -40.0 && tf <= 80.0;
            assert_eq!(reading(t, h).is_correct(), expected, "{} {}", t, h);
        }
    }
}

#[test]
fn digits_are_tens_and_units() {
    assert_eq!(reading(213, 555).digits(), [2, 1, 5, 5]);
    assert_eq!(reading(219, 559).digits(), [2, 1, 5, 5]);
    assert_eq!(reading(50, 90).digits(), [0, 5, 0, 9]);
    assert_eq!(reading(800, 999).digits(), [8, 0, 9, 9]);
    assert_eq!(reading(0, 1).digits(), [0, 0, 0, 0]);
}

#[test]
fn digits_below_zero_are_zero() {
    assert_eq!(reading(-5, 555).digits(), [0, 0, 5, 5]);
    assert_eq!(reading(-400, 300).digits(), [0, 0, 3, 0]);
}

#[test]
fn digits_drop_the_hundreds() {
    assert_eq!(reading(1234, 1000).digits(), [2, 3, 0, 0]);
}

#[test]
fn digits_agree_with_floats() {
    for t in (-400..=800).step_by(3) {
        let f = t as f32 / 10.0;
        let expected = [((f / 10.0) as u32 % 10) as u8, (f as u32 % 10) as u8];
        let shown = reading(t, 500).digits();
        assert_eq!([shown[0], shown[1]], expected, "{}", t);
    }
}
