use gradcat::colors::RGB;
use gradcat::gradient::{calculate_delta, interpolate_linear_gradient, GradientMode};

#[test]
fn test_calculate_delta() {
    let start = RGB(255, 0, 0);
    let end = RGB(0, 0, 255);
    let delta = calculate_delta(&start, &end);
    assert_eq!(delta, RGB(-255, 0, 255));

    let start = RGB(0, 255, 0);
    let end = RGB(0, 0, 255);
    let delta = calculate_delta(&start, &end);
    assert_eq!(delta, RGB(0, -255, 255));
}

#[test]
fn test_interpolate_linear_gradient() {
    let start = RGB(255, 0, 0);
    let end = RGB(0, 0, 255);
    let mid = interpolate_linear_gradient(&start, &end, 1, 2);
    assert_eq!(mid, RGB(128, 0, 128));

    let start = RGB(0, 255, 0);
    let end = RGB(0, 0, 255);
    let mid = interpolate_linear_gradient(&start, &end, 1, 2);
    assert_eq!(mid, RGB(0, 128, 128));
}

#[test]
fn a_gradient_of_one_colour_is_that_colour() {
    let colors = [RGB(0u8, 0, 0), RGB(255, 255, 255), RGB(1, 127, 254), RGB(13, 200, 77)];
    for c in colors.iter() {
        for denom in [0usize, 1, 2, 3, 7, 100, usize::MAX] {
            for numer in [0usize, 1, 2, 5, 99, 1000, usize::MAX] {
                assert_eq!(interpolate_linear_gradient(c, c, numer, denom), RGB(c.0, c.1, c.2));
            }
        }
    }
}

#[test]
fn a_gradient_stays_between_its_ends() {
    let start = RGB(10u8, 250, 128);
    let end = RGB(240u8, 3, 128);
    for denom in [1usize, 2, 3, 10, 79, 255, 256, 1000] {
        for numer in 0..=denom {
            let c = interpolate_linear_gradient(&start, &end, numer, denom);
            assert!(10 <= c.0 && c.0 <= 240);
            assert!(3 <= c.1 && c.1 <= 250);
            assert_eq!(c.2, 128);
        }
    }
}

#[test]
fn a_gradient_runs_from_start_to_end() {
    let start = RGB(10u8, 250, 0);
    let end = RGB(240u8, 3, 255);
    for denom in [1usize, 2, 79, usize::MAX] {
        assert_eq!(interpolate_linear_gradient(&start, &end, 0, denom), RGB(10, 250, 0));
        assert_eq!(interpolate_linear_gradient(&start, &end, denom, denom), RGB(240, 3, 255));
    }
}

#[test]
fn a_gradient_without_extent_is_its_start() {
    let start = RGB(10u8, 250, 0);
    let end = RGB(240u8, 3, 255);
    assert_eq!(interpolate_linear_gradient(&start, &end, 0, 0), RGB(10, 250, 0));
    assert_eq!(interpolate_linear_gradient(&start, &end, 5, 0), RGB(10, 250, 0));
}

#[test]
fn channels_are_rounded_to_the_nearest() {
    let black = RGB(0u8, 0, 0);
    let white = RGB(255u8, 255, 255);
    assert_eq!(interpolate_linear_gradient(&black, &white, 1, 3), RGB(85, 85, 85));
    assert_eq!(interpolate_linear_gradient(&black, &white, 1, 4), RGB(64, 64, 64));
    assert_eq!(interpolate_linear_gradient(&black, &white, 3, 4), RGB(191, 191, 191));
    assert_eq!(interpolate_linear_gradient(&white, &black, 1, 4), RGB(191, 191, 191));
    assert_eq!(interpolate_linear_gradient(&black, &white, 1, 1000), RGB(0, 0, 0));
    assert_eq!(interpolate_linear_gradient(&black, &white, 2, 1000), RGB(1, 1, 1));
    let a = RGB(0u8, 10, 3);
    let b = RGB(1u8, 0, 4);
    assert_eq!(interpolate_linear_gradient(&a, &b, 1, 2), RGB(1, 5, 4));
    assert_eq!(interpolate_linear_gradient(&a, &b, 1, 4), RGB(0, 8, 3));
    assert_eq!(interpolate_linear_gradient(&a, &b, 3, 4), RGB(1, 3, 4));
    assert_eq!(interpolate_linear_gradient(&a, &b, 49, 100), RGB(0, 5, 3));
}

#[test]
fn a_factor_beyond_one_is_clamped() {
    let start = RGB(0u8, 200, 100);
    let end = RGB(200u8, 0, 100);
    assert_eq!(interpolate_linear_gradient(&start, &end, 2, 1), RGB(255, 0, 100));
    assert_eq!(interpolate_linear_gradient(&start, &end, 5, 4), RGB(250, 0, 100));
    assert_eq!(
        interpolate_linear_gradient(&start, &end, usize::MAX, 1),
        RGB(255, 0, 100)
    );
    assert_eq!(
        interpolate_linear_gradient(&start, &end, usize::MAX, usize::MAX),
        RGB(200, 0, 100)
    );
}

#[test]
fn the_mode_is_named_without_regard_to_case() {
    assert_eq!(GradientMode::from(&String::from("linear")), GradientMode::Linear);
    assert_eq!(GradientMode::from(&String::from("LINEAR")), GradientMode::Linear);
    assert_eq!(GradientMode::from(&String::from("LiNeAr")), GradientMode::Linear);
    assert_eq!(GradientMode::from(&String::from("rainbow")), GradientMode::Rainbow);
    assert_eq!(GradientMode::from(&String::from("RAINBOW")), GradientMode::Rainbow);
}

#[test]
fn an_unknown_mode_is_the_rainbow() {
    assert_eq!(GradientMode::from(&String::from("")), GradientMode::Rainbow);
    assert_eq!(GradientMode::from(&String::from("true")), GradientMode::Rainbow);
    assert_eq!(GradientMode::from(&String::from("linear ")), GradientMode::Rainbow);
    assert_eq!(GradientMode::from(&String::from("linea")), GradientMode::Rainbow);
    assert_eq!(GradientMode::from(&String::from("l\u{130}near")), GradientMode::Rainbow);
    assert_eq!(GradientMode::from(&String::from("lInear\u{0}")), GradientMode::Rainbow);
}

#[test]
fn the_default_mode_is_the_rainbow() {
    assert_eq!(GradientMode::default(), GradientMode::Rainbow);
}
