use bevy_movement::controller::ControllerBody;
use bevy_movement::input::MovementAction;
use bevy_movement::movement::{
    apply_movement_damping, mouse_look, movement, JumpImpulse, LookOutcome, MaxSlopeAngle,
    MouseSensitivity, MovementAcceleration, MovementBundle, MovementDampingFactor, Pitch,
};
use bevy_movement::scalar::Scalar;
use bevy_movement::vector::{Vector2, Vector3};

fn v2(x: i64, y: i64) -> Vector2 {
    Vector2::new(Scalar::new(x), Scalar::new(y))
}

fn v3(x: i64, y: i64, z: i64) -> Vector3 {
    Vector3::new(Scalar::new(x), Scalar::new(y), Scalar::new(z))
}

fn turn(yaw: i64, camera_pitch: i64) -> LookOutcome {
    LookOutcome { yaw: Scalar::new(yaw), camera_pitch: Some(Scalar::new(camera_pitch)) }
}

fn no_turn() -> LookOutcome {
    LookOutcome { yaw: Scalar::new(0), camera_pitch: None }
}

fn body(enabled: bool, grounded: bool) -> ControllerBody {
    let mut b = ControllerBody::new(MovementBundle::default());
    b.input.enable_input = enabled;
    b.grounded = grounded;
    b
}

const TICK: i64 = 16_666_667;

#[test]
fn default_parameters() {
    let bundle = MovementBundle::default();
    assert_eq!(bundle.acceleration, MovementAcceleration(Scalar::new(30_000_000_000)));
    assert_eq!(bundle.damping, MovementDampingFactor(Scalar::new(900_000_000)));
    assert_eq!(bundle.jump_impulse, JumpImpulse(Scalar::new(7_000_000_000)));
    assert_eq!(bundle.max_slope_angle, MaxSlopeAngle(Scalar::new(1_413_716_694)));
    assert_eq!(bundle.mouse_sensitivity, MouseSensitivity(Scalar::new(2_000_000)));
    assert_eq!(bundle.pitch, Pitch { angle: Scalar::new(0), max: Scalar::new(1_470_796_327) });
    assert_eq!(MouseSensitivity::default(), MouseSensitivity(Scalar::new(2_000_000)));
    assert_eq!(Pitch::default(), Pitch { angle: Scalar::new(0), max: Scalar::new(1_470_796_327) });
}

#[test]
fn default_angles_are_those_of_pi() {
    let slope = MovementBundle::default().max_slope_angle.0.raw as f64 / 1e9;
    assert!((slope - 0.45 * std::f64::consts::PI).abs() <= 0.5e-9);
    let pitch = Pitch::default().max.raw as f64 / 1e9;
    assert!((pitch - (std::f64::consts::FRAC_PI_2 - 0.1)).abs() < 1e-9);
}

#[test]
fn new_keeps_the_four_parameters() {
    let bundle = MovementBundle::new(
        Scalar::from_int(25),
        Scalar::new(920_000_000),
        Scalar::from_int(8),
        Scalar::new(785_398_000),
    );
    assert_eq!(bundle.acceleration.0.raw, 25_000_000_000);
    assert_eq!(bundle.damping.0.raw, 920_000_000);
    assert_eq!(bundle.jump_impulse.0.raw, 8_000_000_000);
    assert_eq!(bundle.max_slope_angle.0.raw, 785_398_000);
    assert_eq!(bundle.mouse_sensitivity.0.raw, 2_000_000);
    assert_eq!(bundle.pitch, Pitch::default());
}

#[test]
fn move_accelerates_along_the_right_axis() {
    let mut bodies = vec![body(true, true)];
    movement(Scalar::new(TICK), &vec![MovementAction::Move(v2(1_000_000_000, 0))], &mut bodies);
    assert_eq!(bodies[0].linear_velocity, v3(500_000_010, 0, 0));
}

#[test]
fn move_accelerates_along_the_forward_axis() {
    let mut bodies = vec![body(true, false)];
    movement(Scalar::new(TICK), &vec![MovementAction::Move(v2(0, 1_000_000_000))], &mut bodies);
    assert_eq!(bodies[0].linear_velocity, v3(0, 0, -500_000_010));
}

#[test]
fn diagonal_move_is_no_faster() {
    let mut bodies = vec![body(true, true)];
    let events = vec![MovementAction::Move(v2(707_106_780, 707_106_780))];
    movement(Scalar::new(TICK), &events, &mut bodies);
    assert_eq!(bodies[0].linear_velocity, v3(353_553_397, 0, -353_553_397));
}

#[test]
fn move_follows_the_body_axes() {
    let mut b = body(true, true);
    // Turned a quarter to the left: forward is -x, right is -z.
    b.forward = v3(-1_000_000_000, 0, 0);
    b.right = v3(0, 0, -1_000_000_000);
    b.linear_velocity = v3(100, 200, 300);
    let mut bodies = vec![b];
    movement(Scalar::new(TICK), &vec![MovementAction::Move(v2(0, 1_000_000_000))], &mut bodies);
    assert_eq!(bodies[0].linear_velocity, v3(100 - 500_000_010, 200, 300));
    movement(Scalar::new(TICK), &vec![MovementAction::Move(v2(1_000_000_000, 0))], &mut bodies);
    assert_eq!(bodies[0].linear_velocity, v3(100 - 500_000_010, 200, 300 - 500_000_010));
}

#[test]
fn move_leaves_vertical_velocity_even_on_tilted_axes() {
    let mut b = body(true, true);
    b.forward = v3(0, 1_000_000_000, 0);
    b.linear_velocity = v3(0, -4_000_000_000, 0);
    let mut bodies = vec![b];
    movement(Scalar::new(TICK), &vec![MovementAction::Move(v2(0, 1_000_000_000))], &mut bodies);
    assert_eq!(bodies[0].linear_velocity, v3(0, -4_000_000_000, 0));
}

#[test]
fn moves_add_up_without_a_speed_limit() {
    let mut bodies = vec![body(true, true)];
    let events = vec![MovementAction::Move(v2(1_000_000_000, 0)); 3];
    movement(Scalar::new(TICK), &events, &mut bodies);
    assert_eq!(bodies[0].linear_velocity, v3(1_500_000_030, 0, 0));
    bodies[0].linear_velocity = v3(i64::MAX - 5, 0, 0);
    movement(Scalar::new(TICK), &events, &mut bodies);
    assert_eq!(bodies[0].linear_velocity, v3(i64::MAX, 0, 0));
}

#[test]
fn jump_on_the_ground_sets_the_impulse() {
    let mut b = body(true, true);
    b.linear_velocity = v3(11, -3_000_000_000, 13);
    let mut bodies = vec![b];
    movement(Scalar::new(TICK), &vec![MovementAction::Jump], &mut bodies);
    assert_eq!(bodies[0].linear_velocity, v3(11, 7_000_000_000, 13));
}

#[test]
fn jumps_do_not_stack() {
    let mut bodies = vec![body(true, true)];
    movement(Scalar::new(TICK), &vec![MovementAction::Jump; 4], &mut bodies);
    assert_eq!(bodies[0].linear_velocity, v3(0, 7_000_000_000, 0));
}

#[test]
fn jump_in_the_air_is_dropped() {
    let mut b = body(true, false);
    b.linear_velocity = v3(11, -3_000_000_000, 13);
    let mut bodies = vec![b];
    movement(Scalar::new(TICK), &vec![MovementAction::Jump], &mut bodies);
    assert_eq!(bodies[0].linear_velocity, v3(11, -3_000_000_000, 13));
}

#[test]
fn look_is_ignored_by_the_velocity_stage() {
    let mut b = body(true, true);
    b.linear_velocity = v3(1, 2, 3);
    let mut bodies = vec![b];
    let events = vec![MovementAction::Look(v2(9_000_000_000, 9_000_000_000))];
    movement(Scalar::new(TICK), &events, &mut bodies);
    assert_eq!(bodies[0].linear_velocity, v3(1, 2, 3));
    assert_eq!(bodies[0].pitch, Pitch::default());
}

#[test]
fn disabled_input_changes_nothing() {
    let mut b = body(false, true);
    b.linear_velocity = v3(1, 2, 3);
    b.pitch.angle = Scalar::new(250_000_000);
    let mut bodies = vec![b];
    let events = vec![
        MovementAction::Move(v2(1_000_000_000, 0)),
        MovementAction::Jump,
        MovementAction::Look(v2(40_000_000_000, -30_000_000_000)),
    ];
    movement(Scalar::new(TICK), &events, &mut bodies);
    let outcomes = mouse_look(&events, &mut bodies);
    assert_eq!(outcomes, vec![no_turn()]);
    assert_eq!(bodies[0].linear_velocity, v3(1, 2, 3));
    assert_eq!(bodies[0].pitch.angle, Scalar::new(250_000_000));
    assert_eq!(bodies[0].forward, v3(0, 0, -1_000_000_000));
    assert_eq!(bodies[0].right, v3(1_000_000_000, 0, 0));
    assert!(bodies[0].grounded);
    assert!(!bodies[0].input.enable_input);
}

#[test]
fn each_controller_is_gated_on_its_own() {
    let mut bodies = vec![body(false, true), body(true, true), body(true, false)];
    let events = vec![MovementAction::Jump, MovementAction::Move(v2(1_000_000_000, 0))];
    movement(Scalar::new(TICK), &events, &mut bodies);
    assert_eq!(bodies[0].linear_velocity, v3(0, 0, 0));
    assert_eq!(bodies[1].linear_velocity, v3(500_000_010, 7_000_000_000, 0));
    assert_eq!(bodies[2].linear_velocity, v3(500_000_010, 0, 0));
}

#[test]
fn no_events_no_change() {
    let mut bodies = vec![body(true, true)];
    movement(Scalar::new(TICK), &vec![], &mut bodies);
    assert_eq!(bodies[0].linear_velocity, v3(0, 0, 0));
    assert_eq!(mouse_look(&vec![], &mut bodies), vec![no_turn()]);
    let others = vec![MovementAction::Jump, MovementAction::Move(v2(1, 1))];
    assert_eq!(mouse_look(&others, &mut bodies), vec![no_turn()]);
    let mut none: Vec<ControllerBody> = vec![];
    movement(Scalar::new(TICK), &vec![MovementAction::Jump], &mut none);
    assert!(mouse_look(&vec![MovementAction::Jump], &mut none).is_empty());
}

#[test]
fn look_turns_against_the_pointer() {
    let mut bodies = vec![body(true, false)];
    let outcomes =
        mouse_look(&vec![MovementAction::Look(v2(100_000_000_000, -50_000_000_000))], &mut bodies);
    assert_eq!(outcomes, vec![turn(-200_000_000, 100_000_000)]);
    assert_eq!(bodies[0].pitch.angle, Scalar::new(100_000_000));
    assert_eq!(bodies[0].pitch.max, Scalar::new(1_470_796_327));
}

#[test]
fn looks_add_up_in_one_tick() {
    let mut bodies = vec![body(true, false)];
    let events = vec![
        MovementAction::Look(v2(100_000_000_000, -50_000_000_000)),
        MovementAction::Jump,
        MovementAction::Look(v2(-30_000_000_000, 20_000_000_000)),
        MovementAction::Move(v2(1_000_000_000, 0)),
        MovementAction::Look(v2(5_000_000_000, 5_000_000_000)),
    ];
    let outcomes = mouse_look(&events, &mut bodies);
    assert_eq!(
        outcomes,
        vec![turn(-200_000_000 + 60_000_000 - 10_000_000, 100_000_000 - 40_000_000 - 10_000_000)]
    );
    assert_eq!(bodies[0].pitch.angle, Scalar::new(100_000_000 - 40_000_000 - 10_000_000));
    assert_eq!(bodies[0].linear_velocity, v3(0, 0, 0));
}

#[test]
fn looks_reach_listening_controllers_only() {
    let mut bodies = vec![body(true, false), body(false, false), body(true, true)];
    let events = vec![MovementAction::Look(v2(-1_000_000_000, 2_000_000_000))];
    let outcomes = mouse_look(&events, &mut bodies);
    assert_eq!(outcomes, vec![turn(2_000_000, -4_000_000), no_turn(), turn(2_000_000, -4_000_000)]);
    assert_eq!(bodies[0].pitch.angle, Scalar::new(-4_000_000));
    assert_eq!(bodies[1].pitch.angle, Scalar::new(0));
    assert_eq!(bodies[2].pitch.angle, Scalar::new(-4_000_000));
}

#[test]
fn yaw_saturates() {
    let mut b = body(true, false);
    b.mouse_sensitivity = MouseSensitivity(Scalar::from_int(1_000));
    let mut bodies = vec![b];
    let events = vec![MovementAction::Look(v2(i64::MIN, 0)); 2];
    let outcomes = mouse_look(&events, &mut bodies);
    assert_eq!(outcomes, vec![turn(i64::MAX, 0)]);
}

#[test]
fn pitch_stops_at_the_limit() {
    let mut bodies = vec![body(true, false)];
    let up = vec![MovementAction::Look(v2(0, -1_000_000_000_000))];
    mouse_look(&up, &mut bodies);
    assert_eq!(bodies[0].pitch.angle, Scalar::new(1_470_796_327));
    mouse_look(&up, &mut bodies);
    mouse_look(&up, &mut bodies);
    assert_eq!(bodies[0].pitch.angle, Scalar::new(1_470_796_327));
    let down = vec![MovementAction::Look(v2(0, i64::MAX)); 3];
    mouse_look(&down, &mut bodies);
    assert_eq!(bodies[0].pitch.angle, Scalar::new(-1_470_796_327));
}

#[test]
fn pitch_creeps_up_to_the_limit_and_no_further() {
    let mut bodies = vec![body(true, false)];
    let nudge = vec![MovementAction::Look(v2(0, -100_000_000_000))];
    for n in 1..=20i64 {
        mouse_look(&nudge, &mut bodies);
        let asked = 200_000_000 * n;
        let expected = if asked > 1_470_796_327 { 1_470_796_327 } else { asked };
        assert_eq!(bodies[0].pitch.angle, Scalar::new(expected));
    }
}

#[test]
fn pitch_comes_back_from_the_limit() {
    let mut bodies = vec![body(true, false)];
    mouse_look(&vec![MovementAction::Look(v2(0, -5_000_000_000_000))], &mut bodies);
    assert_eq!(bodies[0].pitch.angle, Scalar::new(1_470_796_327));
    mouse_look(&vec![MovementAction::Look(v2(0, 100_000_000_000))], &mut bodies);
    assert_eq!(bodies[0].pitch.angle, Scalar::new(1_270_796_327));
}

#[test]
fn pitch_out_of_bounds_is_brought_back_by_a_look() {
    let mut b = body(true, false);
    b.pitch.angle = Scalar::new(3_000_000_000);
    let mut bodies = vec![b];
    let outcomes = mouse_look(&vec![MovementAction::Look(v2(0, 0))], &mut bodies);
    assert_eq!(outcomes, vec![turn(0, 1_470_796_327)]);
    assert_eq!(bodies[0].pitch.angle, Scalar::new(1_470_796_327));
}

#[test]
fn damping_slows_the_plane_only() {
    let mut b = body(false, false);
    b.linear_velocity = v3(1_000_000_000, 5_000_000_000, -2_000_000_000);
    let mut bodies = vec![b];
    apply_movement_damping(&mut bodies);
    assert_eq!(bodies[0].linear_velocity, v3(900_000_000, 5_000_000_000, -1_800_000_000));
    apply_movement_damping(&mut bodies);
    assert_eq!(bodies[0].linear_velocity, v3(810_000_000, 5_000_000_000, -1_620_000_000));
    apply_movement_damping(&mut bodies);
    assert_eq!(bodies[0].linear_velocity, v3(729_000_000, 5_000_000_000, -1_458_000_000));
}

#[test]
fn damping_over_ticks_follows_the_power() {
    let mut b = body(true, true);
    b.linear_velocity = v3(1_234_567_891, -9_000_000_000, -1_000_000_000);
    let mut bodies = vec![b];
    let expected = [1_111_111_101i64, 999_999_990, 899_999_991, 809_999_991, 728_999_991];
    for (n, x) in expected.iter().enumerate() {
        apply_movement_damping(&mut bodies);
        assert_eq!(bodies[0].linear_velocity.x.raw, *x);
        assert_eq!(bodies[0].linear_velocity.y.raw, -9_000_000_000);
        let exact = 1_234_567_891.0 * 0.9f64.powi(n as i32 + 1);
        assert!((*x as f64 - exact).abs() <= (n + 1) as f64);
    }
    for _ in 5..10 {
        apply_movement_damping(&mut bodies);
    }
    assert_eq!(bodies[0].linear_velocity.z.raw, -348_678_440);
}

#[test]
fn a_factor_above_one_follows_the_power_until_it_saturates() {
    let mut b = body(true, true);
    b.damping = MovementDampingFactor(Scalar::new(1_500_000_000));
    b.linear_velocity = v3(1_000_000_000, 42, 7);
    let mut bodies = vec![b];
    apply_movement_damping(&mut bodies);
    assert_eq!(bodies[0].linear_velocity, v3(1_500_000_000, 42, 10));
    apply_movement_damping(&mut bodies);
    assert_eq!(bodies[0].linear_velocity, v3(2_250_000_000, 42, 15));
    apply_movement_damping(&mut bodies);
    assert_eq!(bodies[0].linear_velocity, v3(3_375_000_000, 42, 22));
    // 7 * 1.5^3 is 23.625: three roundings, each carried on by the factor,
    // lose less than 1.5 * (1.5 * 1 + 1) + 1 raw units.
    assert!((23.625f64 - 22.0).abs() <= 4.75);

    bodies[0].damping = MovementDampingFactor(Scalar::from_int(2));
    bodies[0].linear_velocity = v3(i64::MAX, 42, i64::MIN);
    apply_movement_damping(&mut bodies);
    assert_eq!(bodies[0].linear_velocity, v3(i64::MAX, 42, i64::MIN));
}

#[test]
fn damping_factor_of_one_and_zero() {
    let mut keep = body(true, true);
    keep.damping = MovementDampingFactor(Scalar::one());
    keep.linear_velocity = v3(123, 456, -789);
    let mut stop = keep;
    stop.damping = MovementDampingFactor(Scalar::zero());
    let mut bodies = vec![keep, stop];
    apply_movement_damping(&mut bodies);
    assert_eq!(bodies[0].linear_velocity, v3(123, 456, -789));
    assert_eq!(bodies[1].linear_velocity, v3(0, 456, 0));
}

#[test]
fn per_body_methods_agree_with_the_stages() {
    let mut b = body(true, true);
    b.apply_action(MovementAction::Move(v2(1_000_000_000, 0)), Scalar::new(TICK));
    b.apply_action(MovementAction::Jump, Scalar::new(TICK));
    assert_eq!(b.linear_velocity, v3(500_000_010, 7_000_000_000, 0));
    let yaw = b.look(MovementAction::Look(v2(1_000_000_000, 1_000_000_000)));
    assert_eq!(yaw, Some(Scalar::new(-2_000_000)));
    assert_eq!(b.pitch.angle, Scalar::new(-2_000_000));
    assert_eq!(b.look(MovementAction::Jump), None);
    assert_eq!(b.look(MovementAction::Move(v2(1, 1))), None);
    b.input.enable_input = false;
    assert_eq!(b.look(MovementAction::Look(v2(1_000_000_000, 1_000_000_000))), None);
    assert_eq!(b.pitch.angle, Scalar::new(-2_000_000));
    b.damp();
    assert_eq!(b.linear_velocity, v3(450_000_009, 7_000_000_000, 0));
}
