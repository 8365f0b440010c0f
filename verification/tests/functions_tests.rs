use zgicabra::functions::abs_i64;
use zgicabra::functions::button_mask;
use zgicabra::functions::clamp_i64;
use zgicabra::functions::div_trunc;
use zgicabra::functions::hyp;
use zgicabra::functions::isqrt;
use zgicabra::functions::smoothstep;
use zgicabra::functions::wrap_u8;
use zgicabra::functions::Vec3;

#[test]
fn isqrt_floors() {
    assert_eq!(isqrt(0), 0);
    assert_eq!(isqrt(1), 1);
    assert_eq!(isqrt(24), 4);
    assert_eq!(isqrt(25), 5);
    assert_eq!(isqrt(26), 5);
    assert_eq!(isqrt(999_999), 999);
    assert_eq!(isqrt(1_000_000), 1000);
}

#[test]
fn hyp_is_euclidean_norm() {
    assert_eq!(hyp(&Vec3 { x: 300, y: 400, z: 0 }), 500);
    assert_eq!(hyp(&Vec3 { x: 0, y: 0, z: 0 }), 0);
    assert_eq!(hyp(&Vec3 { x: -300, y: 0, z: 400 }), 500);
    assert_eq!(hyp(&Vec3 { x: 1, y: 1, z: 1 }), 1);
}

#[test]
fn smoothstep_eases_unit_interval() {
    assert_eq!(smoothstep(0), 0);
    assert_eq!(smoothstep(1000), 1000);
    assert_eq!(smoothstep(500), 500);
    // 0.25 eases to 0.15625, truncated in milli-units.
    assert_eq!(smoothstep(250), 156);
    assert_eq!(smoothstep(750), 843);
}

#[test]
fn division_truncates_toward_zero() {
    assert_eq!(div_trunc(7, 2), 3);
    assert_eq!(div_trunc(-7, 2), -3);
    assert_eq!(div_trunc(999, 1000), 0);
    assert_eq!(div_trunc(-999, 1000), 0);
}

#[test]
fn wrapping_and_clamping() {
    assert_eq!(wrap_u8(-17), 239);
    assert_eq!(wrap_u8(278), 22);
    assert_eq!(wrap_u8(255), 255);
    assert_eq!(wrap_u8(0), 0);
    assert_eq!(clamp_i64(5, 0, 10), 5);
    assert_eq!(clamp_i64(-5, 0, 10), 0);
    assert_eq!(clamp_i64(15, 0, 10), 10);
    assert_eq!(abs_i64(-7), 7);
    assert_eq!(abs_i64(7), 7);
}

#[test]
fn button_mask_tests_bits() {
    assert!(button_mask(0b1010, 0b0010));
    assert!(!button_mask(0b1010, 0b0100));
    assert!(button_mask(0b1010, 0b0110));
    assert!(!button_mask(0, 0xFFFF));
}
