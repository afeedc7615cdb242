use ledmatrix_widgets::ledmatrix::{Info, LedMatrix, PortKind, PortRecord, UsbIdentity};
use ledmatrix_widgets::matrix::PlacementError;
use ledmatrix_widgets::render::{
    blank_frame, compose, frame_for, next_ticker, remaining_sleep, render, slow_update_due,
    startup_commands, Content, DrawStage, LiveSet, Route, TickAction, WidgetOutput,
};
use ledmatrix_widgets::widget::{battery_gauge, ClockWidget, Shape, UpdatableWidget};

const PRIMARY: &str = "FRANKDEBZA1404101JE";
const SECONDARY: &str = "FRAKDEBZA1404101J2";

fn usb(serial: Option<&str>) -> UsbIdentity {
    UsbIdentity { vid: 12972, pid: 32, serial_number: serial.map(|s| s.to_string()) }
}

fn info(name: &str, serial: Option<&str>) -> Info {
    Info {
        port_info: PortRecord { port_name: name.to_string(), port_type: PortKind::UsbPort(usb(serial)) },
        usb_info: usb(serial),
    }
}

fn module(name: &str, serial: Option<&str>) -> LedMatrix {
    LedMatrix { info: info(name, serial) }
}

fn output(value: u8, width: usize, height: usize) -> WidgetOutput {
    WidgetOutput { values: vec![value; width * height], shape: Shape { x: width, y: height } }
}

#[test]
fn live_set_starts_empty() {
    let live: LiveSet<u32> = LiveSet::new();
    assert_eq!(live.len(), 0);
    assert!(live.device(0).is_none());
    assert!(live.handle(0).is_none());
    assert!(!live.has_serial(&None));
}

#[test]
fn enroll_keeps_one_device_per_serial() {
    let mut live: LiveSet<u32> = LiveSet::new();
    assert!(live.enroll(module("/dev/ttyACM0", Some("A")), 10));
    assert!(!live.enroll(module("/dev/ttyACM1", Some("A")), 11));
    assert_eq!(live.len(), 1);
    assert_eq!(live.device(0).unwrap().info.port_info.port_name, "/dev/ttyACM0");
    assert_eq!(live.handle(0), Some(&10));
    assert!(live.enroll(module("/dev/ttyACM1", Some("B")), 12));
    assert!(live.enroll(module("/dev/ttyACM2", None), 13));
    assert!(!live.enroll(module("/dev/ttyACM3", None), 14));
    assert_eq!(live.len(), 3);
    assert_eq!(live.handle(2), Some(&13));
}

#[test]
fn second_discovery_pass_does_not_reconnect_same_serial() {
    let mut live: LiveSet<&str> = LiveSet::new();
    let first_pass = LedMatrix::detect(&vec![PortRecord {
        port_name: "/dev/ttyACM0".to_string(),
        port_type: PortKind::UsbPort(usb(Some("SN1"))),
    }]);
    for candidate in first_pass {
        assert!(live.needs_connection(&candidate));
        let device = LedMatrix::connect(candidate.info, true).unwrap();
        assert!(live.enroll(device, "first"));
    }
    let second_pass = LedMatrix::detect(&vec![PortRecord {
        port_name: "/dev/ttyACM4".to_string(),
        port_type: PortKind::UsbPort(usb(Some("SN1"))),
    }]);
    assert_eq!(second_pass.len(), 1);
    for candidate in second_pass {
        assert!(!live.needs_connection(&candidate));
    }
    assert_eq!(live.len(), 1);
    assert_eq!(live.handle(0), Some(&"first"));
}

#[test]
fn drop_device_removes_and_shifts() {
    let mut live: LiveSet<u32> = LiveSet::new();
    live.enroll(module("a", Some("A")), 1);
    live.enroll(module("b", Some("B")), 2);
    live.enroll(module("c", Some("C")), 3);
    let (gone, handle) = live.drop_device(1).unwrap();
    assert_eq!(gone.info.usb_info.serial_number.as_deref(), Some("B"));
    assert_eq!(handle, 2);
    assert_eq!(live.len(), 2);
    assert_eq!(live.handle(1), Some(&3));
    assert!(live.drop_device(2).is_none());
    assert_eq!(live.len(), 2);
    assert!(live.enroll(module("b2", Some("B")), 4));
}

#[test]
fn route_with_no_device_is_idle() {
    let live: LiveSet<u32> = LiveSet::new();
    assert_eq!(live.route(PRIMARY), Route::Idle);
    let composed = compose(&output(1, 9, 2), &output(2, 9, 2), &output(3, 9, 16), &output(4, 9, 11));
    assert!(composed.is_ok());
}

#[test]
fn route_with_one_device_is_single() {
    let mut live: LiveSet<u32> = LiveSet::new();
    live.enroll(module("a", Some(SECONDARY)), 1);
    assert_eq!(live.route(PRIMARY), Route::Single);
}

#[test]
fn route_primary_first_gets_composed_frame() {
    let mut live: LiveSet<u32> = LiveSet::new();
    live.enroll(module("a", Some(PRIMARY)), 1);
    live.enroll(module("b", Some(SECONDARY)), 2);
    let route = live.route(PRIMARY);
    assert_eq!(route, Route::Pair(Content::Composed, Content::Blank));
    let mut composed = [[0u8; 9]; 34];
    composed[5][5] = 120;
    if let Route::Pair(first, second) = route {
        assert_eq!(frame_for(first, composed), composed);
        assert_eq!(frame_for(second, composed), [[0u8; 9]; 34]);
    }
}

#[test]
fn route_primary_second_gets_composed_frame() {
    let mut live: LiveSet<u32> = LiveSet::new();
    live.enroll(module("a", Some(SECONDARY)), 1);
    live.enroll(module("b", Some(PRIMARY)), 2);
    assert_eq!(live.route(PRIMARY), Route::Pair(Content::Blank, Content::Composed));
}

#[test]
fn route_first_without_serial_is_not_primary() {
    let mut live: LiveSet<u32> = LiveSet::new();
    live.enroll(module("a", None), 1);
    live.enroll(module("b", Some(PRIMARY)), 2);
    assert_eq!(live.route(PRIMARY), Route::Pair(Content::Blank, Content::Composed));
}

#[test]
fn route_with_three_devices_is_idle() {
    let mut live: LiveSet<u32> = LiveSet::new();
    live.enroll(module("a", Some("A")), 1);
    live.enroll(module("b", Some("B")), 2);
    live.enroll(module("c", Some("C")), 3);
    assert_eq!(live.route(PRIMARY), Route::Idle);
}

#[test]
fn after_draw_drops_failed_device_and_pauses() {
    let mut live: LiveSet<u32> = LiveSet::new();
    live.enroll(module("a", Some("A")), 1);
    live.enroll(module("b", Some("B")), 2);
    assert_eq!(live.after_draw(0, true), None);
    assert_eq!(live.len(), 2);
    assert_eq!(live.after_draw(1, false), Some(1000));
    assert_eq!(live.len(), 1);
    assert_eq!(live.device(0).unwrap().info.usb_info.serial_number.as_deref(), Some("A"));
    assert_eq!(live.after_draw(5, false), Some(1000));
    assert_eq!(live.len(), 1);
}

#[test]
fn compose_places_widgets_at_their_rows() {
    let frame =
        compose(&output(1, 9, 2), &output(2, 9, 2), &output(3, 9, 16), &output(4, 9, 11)).unwrap();
    for r in 0..34 {
        let expected = match r {
            0..=1 => 1,
            3..=4 => 2,
            6..=21 => 3,
            23..=33 => 4,
            _ => 0,
        };
        for c in 0..9 {
            assert_eq!(frame[r][c], expected);
        }
    }
}

#[test]
fn compose_later_widget_covers_earlier() {
    let frame =
        compose(&output(1, 9, 5), &output(2, 4, 2), &output(3, 9, 1), &output(4, 9, 11)).unwrap();
    assert_eq!(frame[2][0], 1);
    assert_eq!(frame[3][0], 2);
    assert_eq!(frame[3][4], 1);
    assert_eq!(frame[4][3], 2);
    assert_eq!(frame[5][0], 0);
    assert_eq!(frame[6][8], 3);
}

#[test]
fn compose_reports_first_widget_that_does_not_fit() {
    assert_eq!(
        compose(&output(1, 9, 2), &output(2, 9, 2), &output(3, 9, 29), &output(4, 9, 12)),
        Err(PlacementError::OutOfBounds)
    );
    let mut short = output(2, 9, 2);
    short.values.pop();
    assert_eq!(
        compose(&output(1, 9, 2), &short, &output(3, 9, 29), &output(4, 9, 11)),
        Err(PlacementError::ShapeMismatch)
    );
    assert_eq!(
        compose(&output(1, 10, 2), &short, &output(3, 9, 16), &output(4, 9, 11)),
        Err(PlacementError::OutOfBounds)
    );
}

struct Bar(u8);

impl UpdatableWidget for Bar {
    fn update(&mut self) {
        self.0 += 1;
    }

    fn get_matrix(&self) -> Vec<u8> {
        vec![self.0; 18]
    }

    fn get_shape(&self) -> Shape {
        Shape { x: 9, y: 2 }
    }
}

#[test]
fn render_asks_widget_for_values_and_shape() {
    let mut bar = Bar(6);
    bar.update();
    let out = render(&bar);
    assert_eq!(out.values, vec![7; 18]);
    assert_eq!(out.shape, Shape { x: 9, y: 2 });
}

#[test]
fn blank_frame_is_all_off() {
    assert_eq!(blank_frame(), [[0u8; 9]; 34]);
}

#[test]
fn slow_widgets_update_every_fifth_tick() {
    assert!(slow_update_due(0));
    assert!(!slow_update_due(1));
    assert!(!slow_update_due(4));
    assert!(slow_update_due(5));
    assert!(slow_update_due(255));
    assert_eq!(next_ticker(0), 1);
    assert_eq!(next_ticker(254), 255);
    assert_eq!(next_ticker(255), 0);
}

#[test]
fn remaining_sleep_is_rest_of_period() {
    assert_eq!(remaining_sleep(0), Some(100));
    assert_eq!(remaining_sleep(30), Some(70));
    assert_eq!(remaining_sleep(99), Some(1));
    assert_eq!(remaining_sleep(100), None);
    assert_eq!(remaining_sleep(u64::MAX), None);
}

#[test]
fn startup_commands_clear_and_dim() {
    let (clear, dim) = startup_commands(&module("a", Some("A")));
    let mut expected = vec![0x32, 0xAC, 0x06];
    expected.extend_from_slice(&[0u8; 39]);
    assert_eq!(clear, expected);
    assert_eq!(dim, vec![0x32, 0xAC, 0x00, 65]);
}

#[test]
fn clock_digit_glyphs() {
    assert_eq!(
        ClockWidget::render_digit(0),
        [0, 120, 0, 120, 0, 120, 120, 0, 120, 120, 0, 120, 0, 120, 0]
    );
    assert_eq!(
        ClockWidget::render_digit(1),
        [0, 0, 120, 0, 68, 120, 0, 0, 120, 0, 0, 120, 0, 0, 120]
    );
    assert_eq!(
        ClockWidget::render_digit(7),
        [120, 120, 120, 68, 0, 120, 0, 0, 120, 0, 120, 0, 0, 120, 0]
    );
    assert_eq!(ClockWidget::render_digit(12), ClockWidget::render_digit(0));
}

#[test]
fn clock_number_strip_has_two_digits() {
    let strip = ClockWidget::render_number(17);
    assert_eq!(strip.len(), 45);
    let one = ClockWidget::render_digit(1);
    let seven = ClockWidget::render_digit(7);
    for line in 0..5 {
        assert_eq!(strip[line * 9], 0);
        assert_eq!(strip[line * 9 + 4], 0);
        assert_eq!(strip[line * 9 + 8], 0);
        for k in 0..3 {
            assert_eq!(strip[line * 9 + 1 + k], one[line * 3 + k]);
            assert_eq!(strip[line * 9 + 5 + k], seven[line * 3 + k]);
        }
    }
    assert_eq!(&strip[..9], &[0, 0, 0, 120, 0, 120, 120, 120, 0]);
}

#[test]
fn clock_face_shows_hour_over_minute() {
    let mut clock = ClockWidget::new(23, 59);
    assert_eq!(clock.get_shape(), Shape { x: 9, y: 11 });
    let face = clock.get_matrix();
    assert_eq!(face.len(), 99);
    assert_eq!(&face[..45], &ClockWidget::render_number(23)[..]);
    assert_eq!(&face[45..54], &[0u8; 9]);
    assert_eq!(&face[54..], &ClockWidget::render_number(59)[..]);
    clock.set_time(0, 5);
    assert_eq!(&clock.get_matrix()[..45], &ClockWidget::render_number(0)[..]);
    assert_eq!(&clock.get_matrix()[54..], &ClockWidget::render_number(5)[..]);
}

#[test]
fn battery_gauge_fills_from_the_left() {
    let empty = battery_gauge(0);
    assert_eq!(
        empty,
        vec![
            120, 120, 120, 120, 120, 120, 120, 120, 0, 120, 0, 0, 0, 0, 0, 0, 120, 120, 120, 0, 0,
            0, 0, 0, 0, 120, 120, 120, 120, 120, 120, 120, 120, 120, 120, 0
        ]
    );
    let half = battery_gauge(3);
    assert_eq!(&half[9..18], &[120, 68, 68, 68, 0, 0, 0, 120, 120]);
    assert_eq!(&half[18..27], &[120, 68, 68, 68, 0, 0, 0, 120, 120]);
    assert_eq!(&half[..9], &empty[..9]);
    assert_eq!(&half[27..], &empty[27..]);
    let full = battery_gauge(6);
    assert_eq!(&full[9..18], &[120, 68, 68, 68, 68, 68, 68, 120, 120]);
    assert_eq!(battery_gauge(usize::MAX), full);
}

fn tick_actions(live: &mut LiveSet<u32>, failing: &[usize]) -> Vec<TickAction> {
    let mut actions = Vec::new();
    let mut stage = DrawStage::Begin;
    let mut draws = 0;
    loop {
        let (next, action) = live.next_action(stage, PRIMARY);
        stage = next;
        actions.push(action);
        match action {
            TickAction::Draw { device, .. } => {
                live.after_draw(device, !failing.contains(&draws));
                draws += 1;
            }
            TickAction::Pause(_) => {}
            TickAction::Discover => return actions,
        }
    }
}

#[test]
fn tick_without_devices_pauses_and_draws_nothing() {
    let mut live: LiveSet<u32> = LiveSet::new();
    assert_eq!(tick_actions(&mut live, &[]), vec![TickAction::Pause(1000), TickAction::Discover]);
}

#[test]
fn tick_with_one_device_draws_composed_frame() {
    let mut live: LiveSet<u32> = LiveSet::new();
    live.enroll(module("a", Some("A")), 1);
    assert_eq!(
        tick_actions(&mut live, &[]),
        vec![TickAction::Draw { device: 0, content: Content::Composed }, TickAction::Discover]
    );
    assert_eq!(live.len(), 1);
}

#[test]
fn tick_with_primary_first_draws_frame_then_blank() {
    let mut live: LiveSet<u32> = LiveSet::new();
    live.enroll(module("a", Some(PRIMARY)), 1);
    live.enroll(module("b", Some(SECONDARY)), 2);
    assert_eq!(
        tick_actions(&mut live, &[]),
        vec![
            TickAction::Draw { device: 0, content: Content::Composed },
            TickAction::Draw { device: 1, content: Content::Blank },
            TickAction::Discover
        ]
    );
}

#[test]
fn tick_with_primary_second_draws_blank_then_frame() {
    let mut live: LiveSet<u32> = LiveSet::new();
    live.enroll(module("a", Some(SECONDARY)), 1);
    live.enroll(module("b", Some(PRIMARY)), 2);
    assert_eq!(
        tick_actions(&mut live, &[]),
        vec![
            TickAction::Draw { device: 0, content: Content::Blank },
            TickAction::Draw { device: 1, content: Content::Composed },
            TickAction::Discover
        ]
    );
}

#[test]
fn tick_skips_second_draw_after_first_failed() {
    let mut live: LiveSet<u32> = LiveSet::new();
    live.enroll(module("a", Some(PRIMARY)), 1);
    live.enroll(module("b", Some(SECONDARY)), 2);
    assert_eq!(
        tick_actions(&mut live, &[0]),
        vec![TickAction::Draw { device: 0, content: Content::Composed }, TickAction::Discover]
    );
    assert_eq!(live.len(), 1);
    assert_eq!(live.device(0).unwrap().info.usb_info.serial_number.as_deref(), Some(SECONDARY));
}

#[test]
fn tick_drops_second_device_when_its_draw_fails() {
    let mut live: LiveSet<u32> = LiveSet::new();
    live.enroll(module("a", Some(PRIMARY)), 1);
    live.enroll(module("b", Some(SECONDARY)), 2);
    let actions = tick_actions(&mut live, &[1]);
    assert_eq!(actions.len(), 3);
    assert_eq!(live.len(), 1);
    assert_eq!(live.device(0).unwrap().info.usb_info.serial_number.as_deref(), Some(PRIMARY));
}
