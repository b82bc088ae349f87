use holo_core::{
    build_axis_frame, Action, AxisEntry, AxisFrame, AxisInput, AxisSource, Config, Effect,
    HoloState, InputEvent, Keybinding, Modifiers, Point, Rect, SeatEnv, WindowEntry,
};

fn no_mods() -> Modifiers {
    Modifiers { ctrl: false, alt: false, shift: false, logo: false }
}

fn empty_config() -> Config {
    Config { keybindings: vec![], gaps: 0 }
}

fn one_output_env(windows: Vec<WindowEntry>) -> SeatEnv {
    SeatEnv {
        modifiers: no_mods(),
        raw_syms: vec![],
        outputs: vec![Rect { x: 0, y: 0, w: 1920, h: 1080 }],
        windows,
    }
}

#[test]
fn absolute_motion_focuses_and_delivers() {
    let mut st = HoloState::new(empty_config());
    let env = one_output_env(vec![WindowEntry {
        id: 7,
        rect: Rect { x: 100, y: 100, w: 200, h: 200 },
    }]);
    let effects = st.process_input_event(
        InputEvent::PointerMotionAbsolute { position: Point { x: 150, y: 150 }, time: 11 },
        &env,
    );
    assert_eq!(
        effects,
        vec![
            Effect::SetKeyboardFocus { window: 7, serial: 1 },
            Effect::DeliverMotion {
                under: Some((7, Point { x: 100, y: 100 })),
                location: Point { x: 150, y: 150 },
                serial: 1,
                time: 11,
            },
        ]
    );
    assert_eq!(st.pointer_location, Point { x: 150, y: 150 });
}

#[test]
fn motion_over_empty_space_keeps_focus() {
    let mut st = HoloState::new(empty_config());
    let env = one_output_env(vec![]);
    let effects = st.process_input_event(
        InputEvent::PointerMotionAbsolute { position: Point { x: 4000, y: 500 }, time: 12 },
        &env,
    );
    // No focus change: only the motion delivery, at the clamped location.
    assert_eq!(
        effects,
        vec![Effect::DeliverMotion {
            under: None,
            location: Point { x: 1920, y: 500 },
            serial: 1,
            time: 12,
        }]
    );
    assert_eq!(st.pointer_location, Point { x: 1920, y: 500 });
}

#[test]
fn topmost_window_wins_pointer_queries() {
    let mut st = HoloState::new(empty_config());
    let env = one_output_env(vec![
        WindowEntry { id: 1, rect: Rect { x: 0, y: 0, w: 500, h: 500 } },
        WindowEntry { id: 2, rect: Rect { x: 0, y: 0, w: 500, h: 500 } },
    ]);
    let effects = st.process_input_event(
        InputEvent::PointerMotionAbsolute { position: Point { x: 10, y: 10 }, time: 13 },
        &env,
    );
    assert_eq!(effects[0], Effect::SetKeyboardFocus { window: 1, serial: 1 });
}

#[test]
fn surface_under_pointer_reports_window_origin() {
    let mut st = HoloState::new(empty_config());
    st.pointer_location = Point { x: 150, y: 150 };
    let windows = vec![WindowEntry { id: 9, rect: Rect { x: 100, y: 120, w: 300, h: 300 } }];
    assert_eq!(
        st.surface_under_pointer(&windows),
        Some((9, Point { x: 100, y: 120 }))
    );
    let empty: Vec<WindowEntry> = vec![];
    assert_eq!(st.surface_under_pointer(&empty), None);
}

#[test]
fn button_is_forwarded_with_fresh_serial() {
    let mut st = HoloState::new(empty_config());
    let env = one_output_env(vec![]);
    let effects = st.process_input_event(
        InputEvent::PointerButton { button: 272, pressed: true, time: 20 },
        &env,
    );
    assert_eq!(
        effects,
        vec![Effect::DeliverButton { button: 272, pressed: true, serial: 1, time: 20 }]
    );
}

#[test]
fn serials_strictly_increase_across_events() {
    let mut st = HoloState::new(empty_config());
    let env = one_output_env(vec![]);
    let first = st.process_input_event(
        InputEvent::PointerButton { button: 272, pressed: true, time: 1 },
        &env,
    );
    let second = st.process_input_event(
        InputEvent::PointerButton { button: 272, pressed: false, time: 2 },
        &env,
    );
    assert_eq!(
        first,
        vec![Effect::DeliverButton { button: 272, pressed: true, serial: 1, time: 1 }]
    );
    assert_eq!(
        second,
        vec![Effect::DeliverButton { button: 272, pressed: false, serial: 2, time: 2 }]
    );
}

#[test]
fn relative_motion_and_unknown_events_are_ignored() {
    let mut st = HoloState::new(empty_config());
    let env = one_output_env(vec![]);
    assert!(st.process_input_event(InputEvent::PointerMotion, &env).is_empty());
    assert!(st.process_input_event(InputEvent::Other, &env).is_empty());
    assert_eq!(st.serial, 0);
}

#[test]
fn axis_continuous_amount_is_preferred() {
    let frame = build_axis_frame(
        30,
        AxisSource::Wheel,
        AxisInput { amount: Some(15), discrete: Some(1) },
        AxisInput { amount: Some(-7), discrete: None },
    );
    assert_eq!(
        frame,
        AxisFrame {
            time: 30,
            source: AxisSource::Wheel,
            horizontal: AxisEntry::Scroll { amount: 15, discrete: Some(1) },
            vertical: AxisEntry::Scroll { amount: -7, discrete: None },
        }
    );
}

#[test]
fn axis_discrete_count_scales_by_three() {
    let frame = build_axis_frame(
        31,
        AxisSource::Wheel,
        AxisInput { amount: None, discrete: Some(2) },
        AxisInput { amount: None, discrete: Some(-1) },
    );
    assert_eq!(
        frame.horizontal,
        AxisEntry::Scroll { amount: 6, discrete: Some(2) }
    );
    assert_eq!(
        frame.vertical,
        AxisEntry::Scroll { amount: -3, discrete: Some(-1) }
    );
}

#[test]
fn axis_zero_on_finger_source_stops() {
    let frame = build_axis_frame(
        32,
        AxisSource::Finger,
        AxisInput { amount: Some(0), discrete: None },
        AxisInput { amount: Some(4), discrete: None },
    );
    assert_eq!(frame.horizontal, AxisEntry::Stopped);
    assert_eq!(frame.vertical, AxisEntry::Scroll { amount: 4, discrete: None });
}

#[test]
fn axis_zero_on_wheel_source_is_untouched() {
    let frame = build_axis_frame(
        33,
        AxisSource::Wheel,
        AxisInput { amount: Some(0), discrete: None },
        AxisInput { amount: None, discrete: Some(0) },
    );
    assert_eq!(frame.horizontal, AxisEntry::Untouched);
    assert_eq!(frame.vertical, AxisEntry::Untouched);
}

#[test]
fn axis_event_routes_one_frame() {
    let mut st = HoloState::new(empty_config());
    let env = one_output_env(vec![]);
    let effects = st.process_input_event(
        InputEvent::PointerAxis {
            time: 40,
            source: AxisSource::Finger,
            horizontal: AxisInput { amount: Some(0), discrete: None },
            vertical: AxisInput { amount: Some(12), discrete: None },
        },
        &env,
    );
    assert_eq!(
        effects,
        vec![Effect::DeliverAxis(AxisFrame {
            time: 40,
            source: AxisSource::Finger,
            horizontal: AxisEntry::Stopped,
            vertical: AxisEntry::Scroll { amount: 12, discrete: None },
        })]
    );
}

#[test]
fn keybinding_table_survives_routing() {
    let config = Config {
        keybindings: vec![(
            Keybinding {
                modifiers: Modifiers { ctrl: true, alt: false, shift: false, logo: false },
                key: 55,
            },
            Action::Close,
        )],
        gaps: 2,
    };
    let mut st = HoloState::new(config);
    let env = one_output_env(vec![]);
    st.process_input_event(
        InputEvent::PointerMotionAbsolute { position: Point { x: 1, y: 1 }, time: 2 },
        &env,
    );
    assert_eq!(st.config.keybindings.len(), 1);
    assert_eq!(st.config.gaps, 2);
}
