use boids::fixed::{ceil_sqrt, div_toward_zero, saturate_i32, scale_by, wide_product};

#[test]
fn division_rounds_toward_zero_on_both_sides() {
    assert_eq!(div_toward_zero(7, 2), 3);
    assert_eq!(div_toward_zero(-7, 2), -3);
    assert_eq!(div_toward_zero(-1, 1000), 0);
    assert_eq!(div_toward_zero(999, 1000), 0);
    assert_eq!(div_toward_zero(-1000, 1000), -1);
    assert_eq!(div_toward_zero(0, 5), 0);
    assert_eq!(div_toward_zero(i128::MIN, 1), i128::MIN);
    assert_eq!(div_toward_zero(i128::MAX, 1), i128::MAX);
}

#[test]
fn saturation_clamps_to_the_coordinate_range() {
    assert_eq!(saturate_i32(0), 0);
    assert_eq!(saturate_i32(-5), -5);
    assert_eq!(saturate_i32(2_147_483_647), i32::MAX);
    assert_eq!(saturate_i32(2_147_483_648), i32::MAX);
    assert_eq!(saturate_i32(-2_147_483_648), i32::MIN);
    assert_eq!(saturate_i32(-2_147_483_649), i32::MIN);
    assert_eq!(saturate_i32(i128::MAX), i32::MAX);
    assert_eq!(saturate_i32(i128::MIN), i32::MIN);
}

#[test]
fn gains_are_thousandths() {
    assert_eq!(scale_by(10_000, 500), 5_000);
    assert_eq!(scale_by(-10_000, 500), -5_000);
    assert_eq!(scale_by(5_000, 50), 250);
    assert_eq!(scale_by(17_000, 800), 13_600);
    assert_eq!(scale_by(1, 999), 0);
    assert_eq!(scale_by(-1, 999), 0);
    assert_eq!(scale_by(-3, 500), -1);
    assert_eq!(scale_by(1234, 1000), 1234);
    assert_eq!(scale_by(1234, 0), 0);
    assert_eq!(scale_by(1000, 65_535), 65_535);
}

#[test]
fn gains_apply_to_the_widest_sums() {
    let widest: i128 = 1 << 96;
    assert_eq!(scale_by(widest, 1000), widest);
    assert_eq!(scale_by(-widest, 1000), -widest);
    assert_eq!(scale_by(widest, 65_535), widest * 65_535 / 1000);
}

#[test]
fn products_of_extreme_values_do_not_wrap() {
    assert_eq!(wide_product(3, -4), -12);
    assert_eq!(wide_product(i64::MIN, i64::MIN), 1i128 << 126);
    assert_eq!(wide_product(i64::MAX, i64::MIN), -((1i128 << 63) - 1) * (1i128 << 63));
    assert_eq!(wide_product(0, i64::MIN), 0);
}

#[test]
fn square_root_rounds_up() {
    assert_eq!(ceil_sqrt(0), 0);
    assert_eq!(ceil_sqrt(1), 1);
    assert_eq!(ceil_sqrt(2), 2);
    assert_eq!(ceil_sqrt(3), 2);
    assert_eq!(ceil_sqrt(4), 2);
    assert_eq!(ceil_sqrt(5), 3);
    assert_eq!(ceil_sqrt(24), 5);
    assert_eq!(ceil_sqrt(25), 5);
    assert_eq!(ceil_sqrt(26), 6);
    assert_eq!(ceil_sqrt(2_000_000), 1415);
    assert_eq!(ceil_sqrt(25_000_000), 5000);
}

#[test]
fn square_root_of_the_largest_inputs() {
    assert_eq!(ceil_sqrt(1 << 62), 1 << 31);
    assert_eq!(ceil_sqrt(1 << 63), 3_037_000_500);
    assert_eq!(ceil_sqrt(u64::MAX), 4_294_967_296);
    assert_eq!(ceil_sqrt(4_294_967_295 * 4_294_967_295), 4_294_967_295);
    assert_eq!(ceil_sqrt(4_294_967_295 * 4_294_967_295 + 1), 4_294_967_296);
}

#[test]
fn square_root_is_the_least_root_that_reaches() {
    let mut n: u64 = 0;
    while n < 5000 {
        let s = ceil_sqrt(n);
        assert!(s * s >= n);
        assert!(s == 0 || (s - 1) * (s - 1) < n);
        n += 1;
    }
}
