use holo_core::{
    spawn_failure_message, Action, Command, Config, DispatchError, Effect, HoloState,
    InputEvent, Modifiers, Point, Rect, SeatEnv, WindowEntry,
};

fn no_mods() -> Modifiers {
    Modifiers { ctrl: false, alt: false, shift: false, logo: false }
}

fn state_with_gaps(gaps: i32) -> HoloState {
    HoloState::new(Config { keybindings: vec![], gaps })
}

fn window_under_pointer() -> Vec<WindowEntry> {
    // The state's fresh pointer location is the origin; this window covers it.
    vec![WindowEntry { id: 7, rect: Rect { x: 0, y: 0, w: 500, h: 500 } }]
}

#[test]
fn quit_signals_the_event_loop() {
    let st = state_with_gaps(0);
    let r = st.handle_action(Action::Quit, &vec![]);
    assert_eq!(r, Ok(vec![Command::Quit]));
}

#[test]
fn debug_fails_loudly() {
    let st = state_with_gaps(0);
    let r = st.handle_action(Action::Debug, &vec![]);
    assert_eq!(r, Err(DispatchError::Unimplemented));
}

#[test]
fn toggle_floating_fails_loudly() {
    let st = state_with_gaps(0);
    let r = st.handle_action(Action::ToggleWindowFloating, &vec![]);
    assert_eq!(r, Err(DispatchError::Unimplemented));
}

#[test]
fn close_asks_the_window_under_the_pointer() {
    let st = state_with_gaps(0);
    let r = st.handle_action(Action::Close, &window_under_pointer());
    assert_eq!(r, Ok(vec![Command::CloseWindow { window: 7 }]));
}

#[test]
fn close_without_window_is_a_no_op() {
    let st = state_with_gaps(0);
    let r = st.handle_action(Action::Close, &vec![]);
    assert_eq!(r, Ok(vec![]));
}

#[test]
fn workspace_switch_activates() {
    let st = state_with_gaps(0);
    let r = st.handle_action(Action::Workspace(3), &vec![]);
    assert_eq!(r, Ok(vec![Command::ActivateWorkspace { id: 3 }]));
}

#[test]
fn workspace_switch_twice_is_idempotent() {
    // Dispatching the same switch twice asks for the same single
    // activation each time: no error, no extra side effect the second time.
    let st = state_with_gaps(0);
    let first = st.handle_action(Action::Workspace(3), &vec![]);
    let second = st.handle_action(Action::Workspace(3), &vec![]);
    assert_eq!(first, Ok(vec![Command::ActivateWorkspace { id: 3 }]));
    assert_eq!(first, second);
}

#[test]
fn move_window_carries_the_configured_gaps() {
    let st = state_with_gaps(8);
    let r = st.handle_action(Action::MoveWindowToWorkspace(2), &window_under_pointer());
    assert_eq!(
        r,
        Ok(vec![Command::MoveWindowToWorkspace { window: 7, id: 2, gaps: 8 }])
    );
}

#[test]
fn move_window_without_window_is_a_no_op() {
    let st = state_with_gaps(8);
    let r = st.handle_action(Action::MoveWindowToWorkspace(2), &vec![]);
    assert_eq!(r, Ok(vec![]));
}

#[test]
fn move_and_switch_moves_before_switching() {
    let st = state_with_gaps(8);
    let r = st.handle_action(
        Action::MoveWindowAndSwitchToWorkspace(2),
        &window_under_pointer(),
    );
    assert_eq!(
        r,
        Ok(vec![
            Command::MoveWindowToWorkspace { window: 7, id: 2, gaps: 8 },
            Command::ActivateWorkspace { id: 2 },
        ])
    );
}

#[test]
fn move_and_switch_without_window_still_switches() {
    let st = state_with_gaps(8);
    let r = st.handle_action(Action::MoveWindowAndSwitchToWorkspace(2), &vec![]);
    assert_eq!(r, Ok(vec![Command::ActivateWorkspace { id: 2 }]));
}

#[test]
fn spawn_hands_the_command_line_on() {
    let st = state_with_gaps(0);
    let r = st.handle_action(Action::Spawn("false".to_string()), &vec![]);
    assert_eq!(
        r,
        Ok(vec![Command::SpawnProcess { command: "false".to_string() }])
    );
}

#[test]
fn spawn_failure_log_names_the_command() {
    let msg = spawn_failure_message("no such file or directory", "false");
    assert!(msg.contains("false"));
    assert!(msg.contains("no such file or directory"));
}

#[test]
fn spawn_failure_does_not_stop_event_processing() {
    // A failed spawn is logged and the compositor goes on: the next event
    // is still routed normally.
    let mut st = HoloState::new(Config { keybindings: vec![], gaps: 0 });
    let r = st.handle_action(Action::Spawn("false".to_string()), &vec![]);
    assert!(r.is_ok());
    let _log = spawn_failure_message("exit status reported failure", "false");
    let env = SeatEnv {
        modifiers: no_mods(),
        raw_syms: vec![],
        outputs: vec![Rect { x: 0, y: 0, w: 100, h: 100 }],
        windows: vec![],
    };
    let effects = st.process_input_event(
        InputEvent::PointerMotionAbsolute { position: Point { x: 5, y: 5 }, time: 50 },
        &env,
    );
    assert_eq!(
        effects,
        vec![Effect::DeliverMotion {
            under: None,
            location: Point { x: 5, y: 5 },
            serial: 1,
            time: 50,
        }]
    );
}

#[test]
fn new_session_starts_at_the_origin() {
    let st = HoloState::new(Config { keybindings: vec![], gaps: 5 });
    assert_eq!(st.pointer_location, Point { x: 0, y: 0 });
    assert_eq!(st.serial, 0);
    assert_eq!(st.config.gaps, 5);
}
