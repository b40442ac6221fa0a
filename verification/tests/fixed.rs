use flowfield::color::color_lerp;
use flowfield::fixed::{ceil_sqrt_u128, mul_div, saturating, ONE};
use flowfield::{Point2, Srgba};

#[test]
fn one_is_a_million_steps() {
    assert_eq!(ONE, 1_000_000);
}

#[test]
fn saturating_sticks_to_the_ends_of_the_range() {
    assert_eq!(saturating(0), 0);
    assert_eq!(saturating(-17), -17);
    assert_eq!(saturating(i64::MAX as i128), i64::MAX);
    assert_eq!(saturating(i64::MAX as i128 + 1), i64::MAX);
    assert_eq!(saturating(i64::MIN as i128), i64::MIN);
    assert_eq!(saturating(i64::MIN as i128 - 1), i64::MIN);
    assert_eq!(saturating(i128::MAX), i64::MAX);
    assert_eq!(saturating(i128::MIN), i64::MIN);
}

#[test]
fn mul_div_rounds_toward_zero() {
    assert_eq!(mul_div(7, 3, 2), 10);
    assert_eq!(mul_div(-7, 3, 2), -10);
    assert_eq!(mul_div(7, -3, 2), -10);
    assert_eq!(mul_div(-7, -3, 2), 10);
    assert_eq!(mul_div(1, 1, 2), 0);
    assert_eq!(mul_div(-1, 1, 2), 0);
    assert_eq!(mul_div(0, i64::MIN, 1), 0);
}

#[test]
fn mul_div_holds_the_widest_product() {
    let a = (1i128 << 64) - 1;
    assert_eq!(mul_div(a, i64::MIN, 1), -(a << 63));
    assert_eq!(mul_div(-a, i64::MIN, 1), a << 63);
    assert_eq!(mul_div(a, i64::MAX, i64::MAX as i128), a);
}

#[test]
fn ceil_sqrt_rounds_up() {
    assert_eq!(ceil_sqrt_u128(0), 0);
    assert_eq!(ceil_sqrt_u128(1), 1);
    assert_eq!(ceil_sqrt_u128(2), 2);
    assert_eq!(ceil_sqrt_u128(4), 2);
    assert_eq!(ceil_sqrt_u128(5), 3);
    assert_eq!(ceil_sqrt_u128(24), 5);
    assert_eq!(ceil_sqrt_u128(25), 5);
    assert_eq!(ceil_sqrt_u128(26), 6);
    assert_eq!(ceil_sqrt_u128(10_000_000_000_000_000), 100_000_000);
    assert_eq!(ceil_sqrt_u128(10_000_000_000_000_001), 100_000_001);
}

#[test]
fn ceil_sqrt_of_the_largest_numbers() {
    assert_eq!(ceil_sqrt_u128(u128::MAX), 1u128 << 64);
    let r = (1u128 << 64) - 1;
    assert_eq!(ceil_sqrt_u128(r * r), r);
    assert_eq!(ceil_sqrt_u128(r * r + 1), r + 1);
    assert_eq!(ceil_sqrt_u128(r * r - 1), r);
}

#[test]
fn clamp_shortens_a_long_vector_along_its_direction() {
    let v = Point2::new(100 * ONE, 0);
    assert_eq!(v.clamp_length_max(10 * ONE), Point2 { x: 10 * ONE, y: 0 });
    let v = Point2::new(30 * ONE, -40 * ONE);
    assert_eq!(v.clamp_length_max(10 * ONE), Point2 { x: 6 * ONE, y: -8 * ONE });
    let v = Point2::new(0, -11 * ONE);
    assert_eq!(v.clamp_length_max(10 * ONE), Point2 { x: 0, y: -10 * ONE });
}

#[test]
fn clamp_leaves_a_short_vector_alone() {
    let v = Point2::new(6 * ONE, 8 * ONE);
    assert_eq!(v.clamp_length_max(10 * ONE), v);
    let v = Point2::new(-3, 4);
    assert_eq!(v.clamp_length_max(5), v);
    assert_eq!(Point2::new(0, 0).clamp_length_max(0), Point2 { x: 0, y: 0 });
}

#[test]
fn clamp_rounds_the_components_toward_zero() {
    // length is sqrt(2) * 10^7, rounded up to 14_142_136
    let v = Point2::new(10 * ONE, 10 * ONE);
    let c = v.clamp_length_max(ONE);
    assert_eq!(c, Point2 { x: 707_106, y: 707_106 });
    let c = Point2::new(-10 * ONE, 10 * ONE).clamp_length_max(ONE);
    assert_eq!(c, Point2 { x: -707_106, y: 707_106 });
}

#[test]
fn clamped_vectors_are_never_longer_than_the_limit() {
    let max = 10 * ONE;
    let samples = [
        (i64::MAX, i64::MAX),
        (i64::MIN, i64::MIN),
        (i64::MIN, i64::MAX),
        (i64::MAX, 1),
        (1, i64::MIN),
        (10 * ONE + 1, 0),
        (7_071_068, 7_071_068),
        (7_071_067, 7_071_068),
        (123_456_789, -987_654_321),
        (-1, -10 * ONE),
    ];
    for (x, y) in samples {
        let c = Point2::new(x, y).clamp_length_max(max);
        let len2 = (c.x as i128) * (c.x as i128) + (c.y as i128) * (c.y as i128);
        assert!(len2 <= (max as i128) * (max as i128));
        assert!(c.x.signum() == x.signum() || c.x == 0);
        assert!(c.y.signum() == y.signum() || c.y == 0);
    }
}

#[test]
fn clamp_to_zero_length_gives_the_zero_vector() {
    assert_eq!(Point2::new(5, -5).clamp_length_max(0), Point2 { x: 0, y: 0 });
}

fn color(red: i64, green: i64, blue: i64, alpha: i64) -> Srgba {
    Srgba { red, green, blue, alpha }
}

#[test]
fn color_lerp_starts_at_the_first_colour_and_ends_at_the_second() {
    let start = color(1_000_000, 349_010, 90_100, 1_000_000);
    let end = color(929_400, 588_200, 47_000, 0);
    assert_eq!(color_lerp(&start, &end, 0), start);
    assert_eq!(color_lerp(&start, &end, ONE), end);
}

#[test]
fn color_lerp_blends_each_channel() {
    let start = color(1_000_000, 349_010, 90_100, 1_000_000);
    let end = color(929_400, 588_200, 47_000, 0);
    assert_eq!(color_lerp(&start, &end, ONE / 2), color(964_700, 468_605, 68_550, 500_000));
    assert_eq!(color_lerp(&start, &end, ONE / 4), color(982_350, 408_807, 79_325, 750_000));
}

#[test]
fn color_lerp_goes_on_beyond_both_ends() {
    let start = color(0, 100, 0, 0);
    let end = color(100, 0, 0, 0);
    assert_eq!(color_lerp(&start, &end, 2 * ONE), color(200, -100, 0, 0));
    assert_eq!(color_lerp(&start, &end, -ONE), color(-100, 200, 0, 0));
}

#[test]
fn color_lerp_saturates_at_the_ends_of_the_range() {
    let start = color(i64::MIN, i64::MAX, 0, 0);
    let end = color(i64::MAX, i64::MIN, 0, 0);
    let c = color_lerp(&start, &end, i64::MAX);
    assert_eq!(c.red, i64::MAX);
    assert_eq!(c.green, i64::MIN);
    assert_eq!(color_lerp(&start, &end, ONE), end);
}
