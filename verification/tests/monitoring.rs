use temp_sync::color::{ColorMapConfig, ColorRgb};
use temp_sync::monitor::MonitorLoop;
use temp_sync::sensors::{Reading, SensorValue};

fn demo_config() -> ColorMapConfig {
    ColorMapConfig { lower_temp: 3200, upper_temp: 8000, base_value: 20, max_value: 30 }
}

fn one_reading(centi: i64) -> Vec<Reading> {
    vec![Reading { chip: 0, feature: 0, value: SensorValue::TemperatureInput(centi) }]
}

#[test]
fn first_tick_always_dispatches() {
    let m = MonitorLoop::new(demo_config(), 500, true);
    let (t, d) = m.evaluate(&one_reading(6100));
    assert_eq!(t, 6100);
    assert!(d.is_some());
}

#[test]
fn change_detection_skips_unchanged_temperature() {
    let mut m = MonitorLoop::new(demo_config(), 500, true);
    let (t, d) = m.evaluate(&one_reading(6100));
    assert!(d.is_some());
    m.record_dispatch(t);

    let (_, again) = m.evaluate(&one_reading(6100));
    assert_eq!(again, None);

    let (_, changed) = m.evaluate(&one_reading(6200));
    assert!(changed.is_some());
}

#[test]
fn without_change_detection_every_tick_dispatches() {
    let mut m = MonitorLoop::new(demo_config(), 500, false);
    let (t, d) = m.evaluate(&one_reading(6100));
    assert!(d.is_some());
    m.record_dispatch(t);
    let (_, again) = m.evaluate(&one_reading(6100));
    assert!(again.is_some());
}

#[test]
fn tick_at_lower_bound_maps_to_base_color() {
    let m = MonitorLoop::new(demo_config(), 500, false);
    let (t, d) = m.evaluate(&one_reading(3200));
    assert_eq!(t, 3200);
    assert_eq!(d, Some(ColorRgb { r: 20, g: 20, b: 0 }));
}

#[test]
fn tick_with_no_readings_uses_sentinel() {
    let m = MonitorLoop::new(demo_config(), 500, false);
    let (t, d) = m.evaluate(&Vec::new());
    assert_eq!(t, 0);
    // The sentinel sits below the lower bound, so the base color results.
    assert_eq!(d, Some(ColorRgb { r: 20, g: 20, b: 0 }));
}
