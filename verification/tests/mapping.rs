use temp_sync::color::{ColorMapConfig, ColorRgb};

fn demo_config() -> ColorMapConfig {
    // 32.00 C .. 80.00 C in centidegrees, channel bounds 20 .. 30.
    ColorMapConfig { lower_temp: 3200, upper_temp: 8000, base_value: 20, max_value: 30 }
}

fn centi(t: f64) -> i64 {
    (t * 100.0).round() as i64
}

#[test]
fn at_lower_bound_yields_base_color() {
    let cfg = demo_config();
    let c = temp_sync::color::map(&cfg, centi(32.0));
    assert_eq!(c, ColorRgb { r: 20, g: 20, b: 0 });
}

#[test]
fn at_upper_bound_red_saturates_green_at_floor() {
    let cfg = demo_config();
    let c = temp_sync::color::map(&cfg, centi(80.0));
    assert_eq!(c.r, 30);
    assert_eq!(c.g, 20);
    assert_eq!(c.b, 0);
}

#[test]
fn below_lower_bound_same_as_at_lower_bound() {
    let cfg = demo_config();
    assert_eq!(temp_sync::color::map(&cfg, centi(20.0)), temp_sync::color::map(&cfg, centi(32.0)));
}

#[test]
fn above_upper_bound_red_stays_saturated() {
    let cfg = demo_config();
    assert_eq!(temp_sync::color::map(&cfg, centi(95.5)).r, 30);
    assert_eq!(temp_sync::color::map(&cfg, i64::MAX).r, 30);
}

#[test]
fn midpoint_exact_channels() {
    let cfg = demo_config();
    // Halfway through the range: scale 1/2, red 20 + 5, green 20 * 2.
    let c = temp_sync::color::map(&cfg, centi(56.0));
    assert_eq!(c, ColorRgb { r: 25, g: 40, b: 0 });
}

#[test]
fn just_above_lower_green_clamps_to_255() {
    let cfg = demo_config();
    // Scale 1/4800: red still at the floor, the inverse green formula
    // overshoots the 8-bit range and is clamped.
    let c = temp_sync::color::map(&cfg, 3201);
    assert_eq!(c, ColorRgb { r: 20, g: 255, b: 0 });
}

#[test]
fn red_monotone_over_sampled_range() {
    let cfg = demo_config();
    let mut prev: u8 = 0;
    let mut t: i64 = 3000;
    while t <= 8200 {
        let c = temp_sync::color::map(&cfg, t);
        assert!(c.r >= prev);
        prev = c.r;
        t += 25;
    }
}

#[test]
fn degenerate_flat_channel_range() {
    // base == max: the red channel is pinned whatever the temperature.
    let cfg = ColorMapConfig { lower_temp: 0, upper_temp: 100, base_value: 42, max_value: 42 };
    assert_eq!(temp_sync::color::map(&cfg, -50).r, 42);
    assert_eq!(temp_sync::color::map(&cfg, 50).r, 42);
    assert_eq!(temp_sync::color::map(&cfg, 150).r, 42);
}
