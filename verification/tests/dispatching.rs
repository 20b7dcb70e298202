use temp_sync::color::ColorRgb;
use temp_sync::dispatch::{plan_writes, uniform_frame, DeviceSynchronizer, DispatchError, LedWrite};

const AMBER: ColorRgb = ColorRgb { r: 30, g: 20, b: 0 };

#[test]
fn uniform_frame_has_one_color_per_led() {
    let frame = uniform_frame(AMBER, 12);
    assert_eq!(frame.len(), 12);
    assert!(frame.iter().all(|c| *c == AMBER));
    assert!(uniform_frame(AMBER, 0).is_empty());
}

#[test]
fn controller_count_failure_is_fatal() {
    let r = DeviceSynchronizer::start(AMBER, None);
    assert!(matches!(r, Err(DispatchError::ControllerCountUnavailable)));
}

#[test]
fn write_failure_is_fatal_and_names_the_controller() {
    let sync = DeviceSynchronizer::start(AMBER, Some(2)).unwrap();
    assert!(sync.on_write_result(0, true).is_ok());
    assert_eq!(
        sync.on_write_result(1, false),
        Err(DispatchError::WriteFailed { controller: 1 })
    );
}

#[test]
fn failed_led_query_skips_only_that_controller() {
    // Two controllers: controller 0 reports 12 LEDs, controller 1's
    // LED-count query fails. Exactly one write results, addressed to
    // controller 0, with a 12-element uniform array.
    let mut sync = DeviceSynchronizer::start(AMBER, Some(2)).unwrap();
    let mut writes: Vec<LedWrite> = Vec::new();

    assert_eq!(sync.pending(), Some(0));
    if let Some(w) = sync.on_led_count(Some(12)) {
        writes.push(w);
    }
    assert_eq!(sync.pending(), Some(1));
    if let Some(w) = sync.on_led_count(None) {
        writes.push(w);
    }
    assert_eq!(sync.pending(), None);

    assert_eq!(writes.len(), 1);
    assert_eq!(writes[0].controller, 0);
    assert_eq!(writes[0].colors.len(), 12);
    assert!(writes[0].colors.iter().all(|c| *c == AMBER));
}

#[test]
fn plan_skips_failed_queries_and_keeps_order() {
    let counts = vec![Some(3usize), None, Some(5usize), None];
    let writes = plan_writes(AMBER, &counts);
    assert_eq!(writes.len(), 2);
    assert_eq!(writes[0].controller, 0);
    assert_eq!(writes[0].colors.len(), 3);
    assert_eq!(writes[1].controller, 2);
    assert_eq!(writes[1].colors.len(), 5);
}

#[test]
fn plan_for_no_controllers_is_empty() {
    let counts: Vec<Option<usize>> = Vec::new();
    assert!(plan_writes(AMBER, &counts).is_empty());
}
