use pico_relay::quant::linear_conv;
use pico_relay::quant::servo_bucket;
use pico_relay::quant::throttle_bucket;

#[test]
fn throttle_endpoints() {
    // The pot is inverted: a minimal raw reading is full throttle.
    assert_eq!(throttle_bucket(0), 100);
    assert_eq!(throttle_bucket(4095), 0);
    // Everything at or above 4000 counts already reads as zero.
    assert_eq!(throttle_bucket(4000), 0);
    assert_eq!(throttle_bucket(3999), 0);
}

#[test]
fn throttle_rounds_down_to_fives() {
    // 3300 / 40 = 82, 100 - 82 = 18, rounded down to 15.
    assert_eq!(throttle_bucket(3300), 15);
    // 3100 / 40 = 77, 100 - 77 = 23, rounded down to 20.
    assert_eq!(throttle_bucket(3100), 20);
    // 39 / 40 = 0: full throttle right up to the first divisor step.
    assert_eq!(throttle_bucket(39), 100);
    assert_eq!(throttle_bucket(40), 95);
}

#[test]
fn throttle_monotone_samples() {
    // Rising raw readings never raise the bucket.
    let mut prev = throttle_bucket(0);
    for v in 0..=4095u16 {
        let b = throttle_bucket(v);
        assert!(b <= prev, "bucket rose from {prev} to {b} at raw {v}");
        assert!(b <= 100);
        assert_eq!(b % 5, 0);
        prev = b;
    }
}

#[test]
fn servo_endpoints() {
    // At or below the useful range the bucket pins to 0.
    assert_eq!(servo_bucket(0), 0);
    assert_eq!(servo_bucket(2750), 0);
    assert_eq!(servo_bucket(2751), 0);
    // At or above the top of the range the bucket pins to 90.
    assert_eq!(servo_bucket(4100), 90);
    assert_eq!(servo_bucket(4200), 90);
    assert_eq!(servo_bucket(4095), 90);
    assert_eq!(servo_bucket(u16::MAX), 90);
}

#[test]
fn servo_midpoints() {
    // (3425 - 2750) * 95 / 1350 = 47, rounded down to 40.
    assert_eq!(servo_bucket(3425), 40);
    // (3000 - 2750) * 95 / 1350 = 17, rounded down to 10.
    assert_eq!(servo_bucket(3000), 10);
}

#[test]
fn servo_range_sweep() {
    for u in 0..=4200u16 {
        let b = servo_bucket(u);
        assert!(b <= 90);
        assert_eq!(b % 10, 0);
    }
}

#[test]
fn linear_conv_values() {
    // The servo map: 2750..4100 onto 0..95.
    assert_eq!(linear_conv(2750, 2750, 4100, 0, 95), 0);
    assert_eq!(linear_conv(4100, 2750, 4100, 0, 95), 95);
    assert_eq!(linear_conv(3425, 2750, 4100, 0, 95), 47);
    // Below the domain the saturating subtract pins to the low end.
    assert_eq!(linear_conv(0, 2750, 4100, 0, 95), 0);
    // A non-zero output offset is added on top.
    assert_eq!(linear_conv(5, 0, 10, 100, 200), 150);
    // Saturation keeps a huge product from wrapping.
    assert_eq!(linear_conv(u32::MAX, 0, 1, 0, u32::MAX), u32::MAX);
}
