use orbit_camera::fix::add_bounded;
use orbit_camera::fix::add_sat;
use orbit_camera::fix::clamp_fix;
use orbit_camera::fix::div_sat;
use orbit_camera::fix::mul_sat;
use orbit_camera::fix::pow_fix;
use orbit_camera::fix::sqrt_scaled;
use orbit_camera::fix::sub_sat;
use orbit_camera::fix::FIX_BOUND;
use orbit_camera::fix::FIX_SAT;
use orbit_camera::fix::SCALE;

#[test]
fn mul_rescales_and_truncates_toward_zero() {
    assert_eq!(mul_sat(5_000_000, 800_000), 4_000_000);
    assert_eq!(mul_sat(1_500_000, 333_333), 499_999);
    assert_eq!(mul_sat(-1_500_000, 333_333), -499_999);
    assert_eq!(mul_sat(-1_500_000, -333_333), 499_999);
    assert_eq!(mul_sat(0, 123_456), 0);
}

#[test]
fn mul_saturates_at_the_limit() {
    assert_eq!(mul_sat(FIX_SAT, FIX_SAT), FIX_SAT);
    assert_eq!(mul_sat(-FIX_SAT, FIX_SAT), -FIX_SAT);
}

#[test]
fn div_rescales_with_signs() {
    assert_eq!(div_sat(1_000_000, 2_000_000), 500_000);
    assert_eq!(div_sat(-1_000_000, 3_000_000), -333_333);
    assert_eq!(div_sat(1_000_000, -3_000_000), -333_333);
}

#[test]
fn sums_saturate_and_clip() {
    assert_eq!(add_sat(FIX_SAT, FIX_SAT), FIX_SAT);
    assert_eq!(sub_sat(-FIX_SAT, FIX_SAT), -FIX_SAT);
    assert_eq!(add_sat(3, 4), 7);
    assert_eq!(add_bounded(FIX_BOUND, 1), FIX_BOUND);
    assert_eq!(add_bounded(-FIX_BOUND, -1), -FIX_BOUND);
    assert_eq!(add_bounded(10, -4), 6);
}

#[test]
fn clamp_picks_the_nearer_edge() {
    assert_eq!(clamp_fix(5, 0, 10), 5);
    assert_eq!(clamp_fix(-5, 0, 10), 0);
    assert_eq!(clamp_fix(15, 0, 10), 10);
}

#[test]
fn sqrt_of_four_is_two() {
    assert_eq!(sqrt_scaled(4_000_000), 2_000_000);
    assert_eq!(sqrt_scaled(0), 0);
    assert_eq!(sqrt_scaled(1_000_000), 1_000_000);
}

#[test]
fn pow_whole_exponents_are_exact() {
    assert_eq!(pow_fix(800_000, 0), SCALE);
    assert_eq!(pow_fix(800_000, 1_000_000), 800_000);
    assert_eq!(pow_fix(800_000, 2_000_000), 640_000);
    assert_eq!(pow_fix(800_000, 3_000_000), 512_000);
}

#[test]
fn pow_half_exponent_is_the_square_root() {
    assert_eq!(pow_fix(800_000, 500_000), 894_427);
    assert_eq!(sqrt_scaled(800_000), 894_427);
}
