use bevy_movement::input::{
    aggregate_input, gamepad_input, input_enabled, keep_last_move, keyboard_input, manage_cursor,
    CursorGrabMode, CursorOptions, FpsController, GamepadState, KeyboardState, MovementAction,
};
use bevy_movement::laws::DIAGONAL;
use bevy_movement::scalar::Scalar;
use bevy_movement::vector::Vector2;

fn pad(left: Option<(i64, i64)>, jump: bool, right: Option<(i64, i64)>) -> GamepadState {
    GamepadState {
        left_stick_x: left.map(|stick| Scalar::new(stick.0)),
        left_stick_y: left.map(|stick| Scalar::new(stick.1)),
        jump,
        right_stick_x: right.map(|stick| Scalar::new(stick.0)),
        right_stick_y: right.map(|stick| Scalar::new(stick.1)),
    }
}

fn v2(x: i64, y: i64) -> Vector2 {
    Vector2::new(Scalar::new(x), Scalar::new(y))
}

fn keys(up: bool, down: bool, left: bool, right: bool, jump: bool) -> KeyboardState {
    KeyboardState { up, down, left, right, jump }
}

fn switch(enabled: bool) -> FpsController {
    FpsController { enable_input: enabled }
}

#[test]
fn input_starts_disabled() {
    assert!(!FpsController::default().enable_input);
}

#[test]
fn idle_keyboard_gives_nothing() {
    let actions = keyboard_input(&keys(false, false, false, false, false), &vec![], true);
    assert!(actions.is_empty());
}

#[test]
fn one_key_gives_a_unit_move() {
    let right = keyboard_input(&keys(false, false, false, true, false), &vec![], true);
    assert_eq!(right, vec![MovementAction::Move(v2(1_000_000_000, 0))]);
    let left = keyboard_input(&keys(false, false, true, false, false), &vec![], true);
    assert_eq!(left, vec![MovementAction::Move(v2(-1_000_000_000, 0))]);
    let up = keyboard_input(&keys(true, false, false, false, false), &vec![], true);
    assert_eq!(up, vec![MovementAction::Move(v2(0, 1_000_000_000))]);
    let down = keyboard_input(&keys(false, true, false, false, false), &vec![], true);
    assert_eq!(down, vec![MovementAction::Move(v2(0, -1_000_000_000))]);
}

#[test]
fn diagonal_keys_give_a_unit_move() {
    let actions = keyboard_input(&keys(true, false, false, true, false), &vec![], true);
    assert_eq!(actions, vec![MovementAction::Move(v2(707_106_780, 707_106_780))]);
    let actions = keyboard_input(&keys(false, true, true, false, false), &vec![], true);
    assert_eq!(actions, vec![MovementAction::Move(v2(-707_106_780, -707_106_780))]);
}

#[test]
fn every_key_combination_gives_one_of_nine_directions() {
    for bits in 0..16u8 {
        let (up, down, left, right) = (bits & 1 != 0, bits & 2 != 0, bits & 4 != 0, bits & 8 != 0);
        let h = right as i64 - left as i64;
        let v = up as i64 - down as i64;
        let actions = keyboard_input(&keys(up, down, left, right, false), &vec![], true);
        if h == 0 && v == 0 {
            assert!(actions.is_empty());
        } else if h != 0 && v != 0 {
            assert_eq!(actions, vec![MovementAction::Move(v2(h * DIAGONAL, v * DIAGONAL))]);
        } else {
            assert_eq!(
                actions,
                vec![MovementAction::Move(v2(h * 1_000_000_000, v * 1_000_000_000))]
            );
        }
    }
    assert_eq!(DIAGONAL, 707_106_780);
}

#[test]
fn opposed_keys_cancel() {
    let actions = keyboard_input(&keys(true, true, true, true, false), &vec![], true);
    assert!(actions.is_empty());
    let actions = keyboard_input(&keys(true, true, false, true, false), &vec![], true);
    assert_eq!(actions, vec![MovementAction::Move(v2(1_000_000_000, 0))]);
}

#[test]
fn keyboard_writes_move_then_jump_then_looks() {
    let motions = vec![v2(3_000_000_000, -2_000_000_000), v2(-1_000_000_000, 500_000_000)];
    let actions = keyboard_input(&keys(true, false, false, false, true), &motions, true);
    assert_eq!(
        actions,
        vec![
            MovementAction::Move(v2(0, 1_000_000_000)),
            MovementAction::Jump,
            MovementAction::Look(v2(3_000_000_000, -2_000_000_000)),
            MovementAction::Look(v2(-1_000_000_000, 500_000_000)),
        ]
    );
}

#[test]
fn keyboard_and_pointer_are_silent_while_input_is_disabled() {
    let motions = vec![v2(3_000_000_000, -2_000_000_000), v2(1_000_000_000, 1_000_000_000)];
    let actions = keyboard_input(&keys(true, false, false, false, true), &motions, false);
    assert!(actions.is_empty());
    for bits in 0..32u8 {
        let held = keys(bits & 1 != 0, bits & 2 != 0, bits & 4 != 0, bits & 8 != 0, bits & 16 != 0);
        assert!(keyboard_input(&held, &motions, false).is_empty());
        assert!(keyboard_input(&held, &vec![], false).is_empty());
    }
}

#[test]
fn jump_alone_is_written_while_input_is_enabled() {
    let actions = keyboard_input(&keys(false, false, false, false, true), &vec![], true);
    assert_eq!(actions, vec![MovementAction::Jump]);
}

#[test]
fn gamepads_are_silent_while_input_is_disabled() {
    let gamepad = pad(Some((1_000_000_000, 0)), true, Some((1_000_000_000, 1_000_000_000)));
    assert!(gamepad_input(&vec![gamepad], false).is_empty());
}

#[test]
fn gamepad_writes_move_jump_look() {
    let gamepad =
        pad(Some((1_000_000_000, 1_000_000_000)), true, Some((500_000_000, 250_000_000)));
    assert_eq!(
        gamepad_input(&vec![gamepad], true),
        vec![
            MovementAction::Move(v2(707_106_780, 707_106_780)),
            MovementAction::Jump,
            MovementAction::Look(v2(1_000_000_000, -500_000_000)),
        ]
    );
}

#[test]
fn resting_stick_still_writes_a_move() {
    let gamepad = pad(Some((0, 0)), false, None);
    assert_eq!(gamepad_input(&vec![gamepad], true), vec![MovementAction::Move(v2(0, 0))]);
}

#[test]
fn gamepad_without_axes_writes_only_its_jump() {
    let silent = pad(None, false, None);
    let jumping = pad(None, true, None);
    assert!(gamepad_input(&vec![silent], true).is_empty());
    assert_eq!(gamepad_input(&vec![silent, jumping], true), vec![MovementAction::Jump]);
    assert!(gamepad_input(&vec![], true).is_empty());
}

#[test]
fn gamepads_write_in_their_order() {
    let first = pad(Some((300_000_000, 400_000_000)), false, None);
    let second = pad(None, false, Some((-100_000_000, -200_000_000)));
    assert_eq!(
        gamepad_input(&vec![first, second], true),
        vec![
            MovementAction::Move(v2(300_000_000, 400_000_000)),
            MovementAction::Look(v2(-200_000_000, 400_000_000)),
        ]
    );
}

#[test]
fn stick_look_saturates() {
    let gamepad = pad(None, false, Some((i64::MAX, i64::MIN)));
    assert_eq!(
        gamepad_input(&vec![gamepad], true),
        vec![MovementAction::Look(v2(i64::MAX, i64::MAX))]
    );
}

#[test]
fn only_the_last_move_is_kept() {
    let written = vec![
        MovementAction::Move(v2(1, 0)),
        MovementAction::Jump,
        MovementAction::Look(v2(5, 6)),
        MovementAction::Move(v2(2, 0)),
        MovementAction::Jump,
        MovementAction::Move(v2(3, 0)),
        MovementAction::Look(v2(7, 8)),
    ];
    assert_eq!(
        keep_last_move(&written),
        vec![
            MovementAction::Jump,
            MovementAction::Look(v2(5, 6)),
            MovementAction::Jump,
            MovementAction::Move(v2(3, 0)),
            MovementAction::Look(v2(7, 8)),
        ]
    );
}

#[test]
fn queues_with_one_move_or_none_stay() {
    let none = vec![MovementAction::Jump, MovementAction::Look(v2(1, 1))];
    assert_eq!(keep_last_move(&none), none);
    let one = vec![MovementAction::Jump, MovementAction::Move(v2(1, 1)), MovementAction::Jump];
    assert_eq!(keep_last_move(&one), one);
    assert!(keep_last_move(&vec![]).is_empty());
}

#[test]
fn gamepad_move_overrides_keyboard_move() {
    let gamepad = pad(Some((0, -500_000_000)), false, Some((500_000_000, 0)));
    let queue = aggregate_input(
        &keys(true, false, false, false, true),
        &vec![v2(1_000_000_000, 2_000_000_000)],
        &vec![gamepad],
        true,
    );
    assert_eq!(
        queue,
        vec![
            MovementAction::Jump,
            MovementAction::Look(v2(1_000_000_000, 2_000_000_000)),
            MovementAction::Move(v2(0, -500_000_000)),
            MovementAction::Look(v2(1_000_000_000, 0)),
        ]
    );
}

#[test]
fn keyboard_move_stands_without_a_gamepad_move() {
    let queue = aggregate_input(&keys(true, false, false, false, false), &vec![], &vec![], true);
    assert_eq!(queue, vec![MovementAction::Move(v2(0, 1_000_000_000))]);
    let gamepad = pad(None, true, Some((1, 1)));
    let queue =
        aggregate_input(&keys(true, false, false, false, false), &vec![], &vec![gamepad], true);
    assert_eq!(
        queue,
        vec![
            MovementAction::Move(v2(0, 1_000_000_000)),
            MovementAction::Jump,
            MovementAction::Look(v2(2, -2)),
        ]
    );
}

#[test]
fn the_queue_is_empty_while_input_is_disabled() {
    let gamepad = pad(Some((1_000_000_000, 0)), true, Some((1_000_000_000, 0)));
    let queue = aggregate_input(
        &keys(true, false, false, true, true),
        &vec![v2(1_000_000_000, 2_000_000_000)],
        &vec![gamepad],
        false,
    );
    assert!(queue.is_empty());
}

#[test]
fn a_stick_counts_only_with_both_axes() {
    let one = Some(Scalar::new(1_000_000_000));
    let left_x_only = GamepadState {
        left_stick_x: one,
        left_stick_y: None,
        jump: false,
        right_stick_x: None,
        right_stick_y: None,
    };
    let left_y_only = GamepadState { left_stick_x: None, left_stick_y: one, ..left_x_only };
    let right_x_only = GamepadState { left_stick_x: None, right_stick_x: one, ..left_x_only };
    let right_y_only = GamepadState { left_stick_x: None, right_stick_y: one, ..left_x_only };
    let crossed = GamepadState { right_stick_y: one, ..left_x_only };
    for gamepad in [left_x_only, left_y_only, right_x_only, right_y_only, crossed] {
        assert!(gamepad_input(&vec![gamepad], true).is_empty());
    }
    let both = GamepadState { left_stick_y: one, right_stick_x: one, ..left_x_only };
    assert_eq!(
        gamepad_input(&vec![both], true),
        vec![MovementAction::Move(v2(707_106_780, 707_106_780))]
    );
}

#[test]
fn grab_locks_the_pointer_and_enables_input() {
    let mut cursor = CursorOptions { grab_mode: CursorGrabMode::Free, visible: true };
    let mut controllers = vec![switch(false), switch(true)];
    manage_cursor(true, false, &mut cursor, &mut controllers);
    assert_eq!(cursor, CursorOptions { grab_mode: CursorGrabMode::Locked, visible: false });
    assert!(controllers[0].enable_input);
    assert!(controllers[1].enable_input);
}

#[test]
fn release_frees_the_pointer_and_disables_input() {
    let mut cursor = CursorOptions { grab_mode: CursorGrabMode::Locked, visible: false };
    let mut controllers = vec![switch(false), switch(true)];
    manage_cursor(false, true, &mut cursor, &mut controllers);
    assert_eq!(cursor, CursorOptions { grab_mode: CursorGrabMode::Free, visible: true });
    assert!(!controllers[0].enable_input);
    assert!(!controllers[1].enable_input);
}

#[test]
fn release_wins_over_grab() {
    let mut cursor = CursorOptions { grab_mode: CursorGrabMode::Confined, visible: false };
    let mut controllers = vec![switch(true)];
    manage_cursor(true, true, &mut cursor, &mut controllers);
    assert_eq!(cursor, CursorOptions { grab_mode: CursorGrabMode::Free, visible: true });
    assert!(!controllers[0].enable_input);
}

#[test]
fn a_quiet_tick_leaves_pointer_and_input() {
    let mut cursor = CursorOptions { grab_mode: CursorGrabMode::Confined, visible: false };
    let mut controllers = vec![switch(false), switch(true)];
    manage_cursor(false, false, &mut cursor, &mut controllers);
    assert_eq!(cursor, CursorOptions { grab_mode: CursorGrabMode::Confined, visible: false });
    assert!(!controllers[0].enable_input);
    assert!(controllers[1].enable_input);
}

#[test]
fn input_is_enabled_if_any_controller_listens() {
    assert!(!input_enabled(&vec![]));
    assert!(!input_enabled(&vec![switch(false), switch(false)]));
    assert!(input_enabled(&vec![switch(false), switch(true)]));
    assert!(input_enabled(&vec![switch(true)]));
}
