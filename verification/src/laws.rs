//! What holds of the stages for every body and every input.

use vstd::prelude::*;
use crate::scalar::{
    Scalar, SCALE, fixed_clamp, fixed_mul, fixed_neg, lemma_trunc_div_bounds, magnitude, saturate,
    trunc_div,
};
use crate::vector::{
    Vector2, Vector3, is_ceil_sqrt, lemma_ceil_sqrt_is, lemma_clamp_bounds_length, norm_squared,
};
use crate::input::{
    GamepadState, KeyboardState, MovementAction, axis, gamepad_actions, keyboard_actions,
    keyboard_direction, pad_actions, pads_actions, single_move, stick,
};
use crate::controller::{ControllerBody, ShapeHit, after_grounding, after_stages};
use crate::movement::{
    Pitch, after_action, after_actions, after_damping, after_look, after_looks, look_angle,
    look_outcome, looked, looks, move_delta, yaw_of_looks,
};

verus! {

/// A body whose input is disabled ignores every action: the velocity stage
/// and the look stage leave it as it is, no yaw is asked for, and its camera
/// is left alone.
pub proof fn lemma_disabled_input_changes_nothing(
    body: ControllerBody,
    actions: Seq<MovementAction>,
    dt: Scalar,
)
    requires
        !body.input.enable_input,
    ensures
        after_actions(body, actions, dt) == body,
        after_looks(body, actions) == body,
        yaw_of_looks(body, actions) == 0,
        !looked(body, actions),
        look_outcome(body, actions).yaw@ == 0,
        look_outcome(body, actions).camera_pitch is None,
    decreases actions.len(),
{
    if actions.len() > 0 {
        lemma_disabled_input_changes_nothing(body, actions.drop_last(), dt);
    }
}

/// A jump changes nothing of a body in the air. Of a grounded body that
/// listens to input it sets the vertical velocity to the jump impulse,
/// whatever that velocity was, and changes nothing else.
pub proof fn lemma_jump(body: ControllerBody, dt: Scalar)
    ensures
        !body.grounded ==> after_action(body, MovementAction::Jump, dt) == body,
        body.grounded && body.input.enable_input ==> after_action(
            body,
            MovementAction::Jump,
            dt,
        ).linear_velocity.y == body.jump_impulse.0,
        after_action(body, MovementAction::Jump, dt).linear_velocity.x == body.linear_velocity.x,
        after_action(body, MovementAction::Jump, dt).linear_velocity.z == body.linear_velocity.z,
{
}

/// A move never changes the vertical velocity, and a look never changes the
/// velocity at all.
pub proof fn lemma_move_keeps_vertical_velocity(
    body: ControllerBody,
    action: MovementAction,
    dt: Scalar,
)
    requires
        !(action is Jump),
    ensures
        after_action(body, action, dt).linear_velocity.y == body.linear_velocity.y,
        action is Look ==> after_action(body, action, dt) == body,
{
}

/// The look stage changes the pitch angle of a body and nothing else.
pub proof fn lemma_looks_change_pitch_only(body: ControllerBody, actions: Seq<MovementAction>)
    ensures
        after_looks(body, actions) == (ControllerBody {
            pitch: Pitch { angle: after_looks(body, actions).pitch.angle, max: body.pitch.max },
            ..body
        }),
    decreases actions.len(),
{
    if actions.len() > 0 {
        lemma_looks_change_pitch_only(body, actions.drop_last());
    }
}

/// The look stage acts exactly if the body listens and a look is among the
/// actions; and if it acts, the camera is given the body's pitch.
pub proof fn lemma_looked(body: ControllerBody, actions: Seq<MovementAction>)
    ensures
        looked(body, actions) == (body.input.enable_input && exists|i: int|
            0 <= i < actions.len() && (#[trigger] actions[i]) is Look),
        looked(body, actions) ==> look_outcome(body, actions).camera_pitch == Some(
            after_looks(body, actions).pitch.angle,
        ),
    decreases actions.len(),
{
    if actions.len() > 0 {
        let front = actions.drop_last();
        lemma_looked(body, front);
        lemma_looks_change_pitch_only(body, front);
        if exists|i: int| 0 <= i < front.len() && (#[trigger] front[i]) is Look {
            let i = choose|i: int| 0 <= i < front.len() && (#[trigger] front[i]) is Look;
            assert(actions[i] is Look);
        }
        if exists|i: int| 0 <= i < actions.len() && (#[trigger] actions[i]) is Look {
            let i = choose|i: int| 0 <= i < actions.len() && (#[trigger] actions[i]) is Look;
            if i < front.len() {
                assert(front[i] is Look);
            } else {
                assert(actions.last() is Look);
            }
        }
        if actions.last() is Look {
            assert(actions[actions.len() - 1] is Look);
        }
    }
}

/// Whatever the pitch was, after a look it lies within the limit.
pub proof fn lemma_look_bounds_pitch(body: ControllerBody, action: MovementAction)
    requires
        body.pitch.max@ >= 0,
        looks(body, action),
    ensures
        after_look(body, action).pitch.wf(),
{
}

/// A pitch within its limit stays within it, whatever is looked at.
pub proof fn lemma_pitch_stays_within_limit(body: ControllerBody, actions: Seq<MovementAction>)
    requires
        body.pitch.wf(),
    ensures
        after_looks(body, actions).pitch.wf(),
    decreases actions.len(),
{
    if actions.len() > 0 {
        lemma_pitch_stays_within_limit(body, actions.drop_last());
        lemma_looks_change_pitch_only(body, actions.drop_last());
    }
}

/// The sum of the pitch angles that the looks among `actions` ask for, with
/// no limit applied.
pub open spec fn pitch_asked(sensitivity: int, actions: Seq<MovementAction>) -> int
    decreases actions.len(),
{
    if actions.len() == 0 {
        0
    } else {
        pitch_asked(sensitivity, actions.drop_last()) + (if actions.last() is Look {
            look_angle(actions.last()->Look_0.y@, sensitivity)
        } else {
            0
        })
    }
}

/// Whether every look among `actions` asks for a pitch angle of the sign
/// `upward` says: none negative, or none positive.
pub open spec fn looks_one_way(sensitivity: int, actions: Seq<MovementAction>, upward: bool)
    -> bool {
    forall|i: int|
        0 <= i < actions.len() && (#[trigger] actions[i]) is Look ==> if upward {
            look_angle(actions[i]->Look_0.y@, sensitivity) >= 0
        } else {
            look_angle(actions[i]->Look_0.y@, sensitivity) <= 0
        }
}

/// Looks that all drive the pitch one way add up until the limit is reached,
/// and then the pitch is exactly the limit: it never passes it, however much
/// is asked for.
pub proof fn lemma_pitch_converges(body: ControllerBody, actions: Seq<MovementAction>, upward: bool)
    requires
        body.pitch.wf(),
        body.input.enable_input,
        looks_one_way(body.mouse_sensitivity.0@, actions, upward),
    ensures
        upward ==> after_looks(body, actions).pitch.angle@ == fixed_clamp(
            body.pitch.angle@ + pitch_asked(body.mouse_sensitivity.0@, actions),
            body.pitch.angle@,
            body.pitch.max@,
        ),
        !upward ==> after_looks(body, actions).pitch.angle@ == fixed_clamp(
            body.pitch.angle@ + pitch_asked(body.mouse_sensitivity.0@, actions),
            -body.pitch.max@,
            body.pitch.angle@,
        ),
        upward ==> pitch_asked(body.mouse_sensitivity.0@, actions) >= 0,
        !upward ==> pitch_asked(body.mouse_sensitivity.0@, actions) <= 0,
        upward && body.pitch.angle@ + pitch_asked(body.mouse_sensitivity.0@, actions)
            >= body.pitch.max@ ==> after_looks(body, actions).pitch.angle == body.pitch.max,
        !upward && body.pitch.angle@ + pitch_asked(body.mouse_sensitivity.0@, actions)
            <= -body.pitch.max@ ==> after_looks(body, actions).pitch.angle@ == -body.pitch.max@,
    decreases actions.len(),
{
    if actions.len() > 0 {
        let front = actions.drop_last();
        assert(looks_one_way(body.mouse_sensitivity.0@, front, upward)) by {
            assert forall|i: int| 0 <= i < front.len() implies front[i] == actions[i] by {}
        }
        lemma_pitch_converges(body, front, upward);
        lemma_looks_change_pitch_only(body, front);
        lemma_pitch_stays_within_limit(body, front);
        let last = actions[actions.len() - 1];
        assert(last == actions.last());
    }
}

/// `b` multiplied by itself `n` times.
pub open spec fn power(b: int, n: nat) -> int
    decreases n,
{
    if n == 0 {
        1
    } else {
        b * power(b, (n - 1) as nat)
    }
}

/// What `n` ticks of damping by `factor` make of one raw velocity component.
pub open spec fn damped(v: int, factor: int, n: nat) -> int
    decreases n,
{
    if n == 0 {
        v
    } else {
        fixed_mul(damped(v, factor, (n - 1) as nat), factor)
    }
}

/// The body after `n` ticks of damping and nothing else.
pub open spec fn after_dampings(body: ControllerBody, n: nat) -> ControllerBody
    decreases n,
{
    if n == 0 {
        body
    } else {
        after_damping(after_dampings(body, (n - 1) as nat))
    }
}

/// Damping, tick after tick, never touches the vertical velocity nor anything
/// but the velocity, and it damps each planar component on its own.
pub proof fn lemma_damping_repeated(body: ControllerBody, n: nat)
    ensures
        after_dampings(body, n).linear_velocity.y == body.linear_velocity.y,
        after_dampings(body, n).linear_velocity.x@ == damped(
            body.linear_velocity.x@,
            body.damping.0@,
            n,
        ),
        after_dampings(body, n).linear_velocity.z@ == damped(
            body.linear_velocity.z@,
            body.damping.0@,
            n,
        ),
        after_dampings(body, n) == (ControllerBody {
            linear_velocity: after_dampings(body, n).linear_velocity,
            ..body
        }),
    decreases n,
{
    if n > 0 {
        lemma_damping_repeated(body, (n - 1) as nat);
    }
}

/// A power of a positive number is positive.
pub proof fn lemma_power_positive(b: int, n: nat)
    requires
        b > 0,
    ensures
        power(b, n) > 0,
    decreases n,
{
    if n > 0 {
        lemma_power_positive(b, (n - 1) as nat);
        let p = power(b, (n - 1) as nat);
        assert(b * p > 0) by (nonlinear_arith)
            requires
                b > 0,
                p > 0,
        ;
    }
}

/// How far `n` ticks of damping by `factor` can be from the exact power, in
/// raw units times the `n`-th power of the scale: each tick rounds by less
/// than one raw unit, and each later tick multiplies what was lost before by
/// the factor.
pub open spec fn rounding_bound(factor: int, n: nat) -> int
    decreases n,
{
    if n == 0 {
        0
    } else {
        magnitude(factor) * rounding_bound(factor, (n - 1) as nat) + power(SCALE as int, n)
    }
}

/// Whether none of the first `n` ticks of damping leaves the range of a
/// scalar, so that none saturates.
pub open spec fn damps_in_range(v: int, factor: int, n: nat) -> bool
    decreases n,
{
    n == 0 || {
        &&& damps_in_range(v, factor, (n - 1) as nat)
        &&& i64::MIN <= trunc_div(damped(v, factor, (n - 1) as nat) * factor, SCALE as int)
            <= i64::MAX
    }
}

/// The rounding bound is never negative.
pub proof fn lemma_rounding_bound_positive(factor: int, n: nat)
    ensures
        rounding_bound(factor, n) >= 0,
    decreases n,
{
    if n > 0 {
        let m = (n - 1) as nat;
        lemma_rounding_bound_positive(factor, m);
        lemma_power_positive(SCALE as int, n);
        let b = rounding_bound(factor, m);
        let a = magnitude(factor);
        assert(a * b >= 0) by (nonlinear_arith)
            requires
                a >= 0,
                b >= 0,
        ;
    }
}

/// Whatever the factor, as long as no tick saturates, `n` ticks of damping
/// multiply a velocity component `v` by the `n`-th power of the factor, up to
/// the rounding of each tick: the result times the `n`-th power of the scale
/// is within the rounding bound of `v` times the `n`-th power of the factor.
pub proof fn lemma_damping_follows_power_in_range(v: int, factor: int, n: nat)
    requires
        damps_in_range(v, factor, n),
    ensures
        magnitude(damped(v, factor, n) * power(SCALE as int, n) - v * power(factor, n))
            <= rounding_bound(factor, n),
    decreases n,
{
    if n > 0 {
        let m = (n - 1) as nat;
        lemma_damping_follows_power_in_range(v, factor, m);
        lemma_rounding_bound_positive(factor, m);
        lemma_power_positive(SCALE as int, m);
        let x = damped(v, factor, m);
        let s = SCALE as int;
        let t = trunc_div(x * factor, s);
        lemma_trunc_div_bounds(x * factor, s);
        assert(saturate(t) == t);
        assert(damped(v, factor, n) == t);
        let p = power(s, m);
        let q = power(factor, m);
        let d = x * p - v * q;
        let e = t * s - x * factor;
        let bound = rounding_bound(factor, m);
        let a = magnitude(factor);
        assert(power(s, n) == s * p);
        assert(power(factor, n) == factor * q);
        assert(t * (s * p) == (t * s) * p) by (nonlinear_arith);
        assert(v * (factor * q) == factor * (v * q)) by (nonlinear_arith);
        assert(factor * (x * p) == (x * factor) * p) by (nonlinear_arith);
        assert(factor * d == factor * (x * p) - factor * (v * q)) by (nonlinear_arith)
            requires
                d == x * p - v * q,
        ;
        assert(e * p == (t * s) * p - (x * factor) * p) by (nonlinear_arith)
            requires
                e == t * s - x * factor,
        ;
        assert(t * (s * p) - v * (factor * q) == factor * d + e * p);
        assert(magnitude(factor * d) <= a * bound) by (nonlinear_arith)
            requires
                magnitude(d) <= bound,
                a == magnitude(factor),
        ;
        assert(magnitude(e * p) <= s * p) by (nonlinear_arith)
            requires
                -s < e < s,
                p > 0,
        ;
    }
}

/// With a factor between zero and one no tick of damping saturates, and the
/// velocity never grows.
pub proof fn lemma_damping_never_amplifies(v: int, factor: int, n: nat)
    requires
        i64::MIN <= v <= i64::MAX,
        0 <= factor <= SCALE,
    ensures
        magnitude(damped(v, factor, n)) <= magnitude(v),
        i64::MIN <= damped(v, factor, n) <= i64::MAX,
        damps_in_range(v, factor, n),
    decreases n,
{
    if n > 0 {
        let m = (n - 1) as nat;
        lemma_damping_never_amplifies(v, factor, m);
        let x = damped(v, factor, m);
        let s = SCALE as int;
        let t = trunc_div(x * factor, s);
        lemma_trunc_div_bounds(x * factor, s);
        let ax = magnitude(x);
        let a = magnitude(factor);
        assert(magnitude(x * factor) == ax * a) by (nonlinear_arith)
            requires
                a == magnitude(factor),
                ax == magnitude(x),
        ;
        assert(magnitude(t) <= ax) by (nonlinear_arith)
            requires
                magnitude(t) * s <= ax * a,
                0 <= a <= s,
                s > 0,
                ax >= 0,
                magnitude(t) >= 0,
        ;
        // The quotient has the sign of the velocity, so it stays in range.
        assert((x >= 0 ==> x * factor >= 0) && (x <= 0 ==> x * factor <= 0)) by (nonlinear_arith)
            requires
                factor >= 0,
        ;
        assert(saturate(t) == t);
        assert(damped(v, factor, n) == t);
    }
}

/// With a factor between zero and one, the rounding of `n` ticks amounts to
/// at most `n` raw units.
pub proof fn lemma_rounding_bound_of_damping(factor: int, n: nat)
    requires
        0 <= factor <= SCALE,
    ensures
        rounding_bound(factor, n) <= n * power(SCALE as int, n),
    decreases n,
{
    if n > 0 {
        let m = (n - 1) as nat;
        lemma_rounding_bound_of_damping(factor, m);
        lemma_rounding_bound_positive(factor, m);
        lemma_power_positive(SCALE as int, m);
        let s = SCALE as int;
        let p = power(s, m);
        let bound = rounding_bound(factor, m);
        let a = magnitude(factor);
        assert(power(s, n) == s * p);
        assert(a * bound + s * p <= n * (s * p)) by (nonlinear_arith)
            requires
                0 <= bound <= m * p,
                0 <= a <= s,
                p > 0,
                n == m + 1,
        {
            assert(a * bound <= s * (m * p));
        }
    }
}

/// With a factor `f` between zero and one, `n` ticks of damping multiply a
/// velocity component `v` by the `n`-th power of `f`, up to the rounding of
/// each tick: the result is within `n` raw units of `v` times `f` to the
/// `n`, and it is never larger in magnitude than `v`.
pub proof fn lemma_damping_follows_power(v: int, factor: int, n: nat)
    requires
        i64::MIN <= v <= i64::MAX,
        0 <= factor <= SCALE,
    ensures
        magnitude(damped(v, factor, n)) <= magnitude(v),
        magnitude(damped(v, factor, n) * power(SCALE as int, n) - v * power(factor, n)) <= n
            * power(SCALE as int, n),
{
    lemma_damping_never_amplifies(v, factor, n);
    lemma_damping_follows_power_in_range(v, factor, n);
    lemma_rounding_bound_of_damping(factor, n);
}

/// One over the square root of two, rounded as the clamping of a diagonal of
/// unit axes rounds it.
pub const DIAGONAL: i64 = 707_106_780;

/// The held keys give one of nine directions: nothing, a unit along one axis,
/// or a diagonal whose two components are both `DIAGONAL` in magnitude.
pub proof fn lemma_keyboard_directions(keys: KeyboardState)
    ensures
        ({
            let h = axis(keys.right, keys.left);
            let v = axis(keys.up, keys.down);
            let direction = keyboard_direction(keys);
            if h != 0 && v != 0 {
                direction.x@ == h * DIAGONAL && direction.y@ == v * DIAGONAL
            } else {
                direction.x@ == h * SCALE && direction.y@ == v * SCALE
            }
        }),
{
    let h = axis(keys.right, keys.left);
    let v = axis(keys.up, keys.down);
    let s = SCALE as int;
    let x = h * s;
    let y = v * s;
    assert(s * s == 1_000_000_000_000_000_000) by (nonlinear_arith)
        requires
            s == 1_000_000_000,
    ;
    assert(x * x == (if h == 0 { 0 } else { s * s }) && x * s == h * (s * s)) by (nonlinear_arith)
        requires
            x == h * s,
            -1 <= h <= 1,
    ;
    assert(y * y == (if v == 0 { 0 } else { s * s }) && y * s == v * (s * s)) by (nonlinear_arith)
        requires
            y == v * s,
            -1 <= v <= 1,
    ;
    if h != 0 && v != 0 {
        let root = 1_414_213_563int;
        assert(root * root >= 2_000_000_000_000_000_000 && (root - 1) * (root - 1)
            < 2_000_000_000_000_000_000) by (nonlinear_arith)
            requires
                root == 1_414_213_563,
        ;
        assert(is_ceil_sqrt(2_000_000_000_000_000_000, root));
        lemma_ceil_sqrt_is(2_000_000_000_000_000_000, root);
        assert(norm_squared(x, y) == 2_000_000_000_000_000_000);
        assert(1_000_000_000_000_000_000int / 1_414_213_563 == 707_106_780) by (nonlinear_arith);
        assert(trunc_div(x * s, root) == h * DIAGONAL);
        assert(trunc_div(y * s, root) == v * DIAGONAL);
    } else {
        assert(norm_squared(x, y) <= s * s);
    }
}

/// While no controller listens, all input is suppressed: neither the keyboard
/// and pointer nor the gamepads give an action, and the tick's queue is
/// empty.
pub proof fn lemma_no_listener_no_input(
    keys: KeyboardState,
    motions: Seq<Vector2>,
    pads: Seq<GamepadState>,
)
    ensures
        keyboard_actions(keys, motions, false).len() == 0,
        gamepad_actions(pads, false).len() == 0,
        single_move(keyboard_actions(keys, motions, false) + gamepad_actions(pads, false)).len()
            == 0,
{
    let written = keyboard_actions(keys, motions, false) + gamepad_actions(pads, false);
    assert(written.len() == 0);
}

/// Whether `v` is no longer than one unit.
pub open spec fn within_unit(v: Vector2) -> bool {
    norm_squared(v.x@, v.y@) <= SCALE * SCALE
}

/// Every move that the gamepads write is no longer than one unit.
pub proof fn lemma_pad_moves_are_short(pads: Seq<GamepadState>)
    ensures
        forall|i: int|
            0 <= i < pads_actions(pads).len() && (#[trigger] pads_actions(pads)[i]) is Move
                ==> within_unit(pads_actions(pads)[i]->Move_0),
    decreases pads.len(),
{
    if pads.len() > 0 {
        lemma_pad_moves_are_short(pads.drop_last());
        let pad = pads.last();
        let left = stick(pad.left_stick_x, pad.left_stick_y);
        if left is Some {
            lemma_clamp_bounds_length(left->Some_0, Scalar { raw: SCALE });
        }
        let head = pads_actions(pads.drop_last());
        let tail = pad_actions(pad);
        let all = pads_actions(pads);
        assert forall|i: int| 0 <= i < all.len() && (#[trigger] all[i]) is Move implies within_unit(
            all[i]->Move_0,
        ) by {
            if i < head.len() {
                assert(all[i] == head[i]);
            } else {
                assert(all[i] == tail[i - head.len()]);
            }
        }
    }
}

/// Every move that the input stages write, from the keyboard or from a
/// gamepad, is no longer than one unit.
pub proof fn lemma_written_moves_are_short(
    keys: KeyboardState,
    motions: Seq<Vector2>,
    pads: Seq<GamepadState>,
    input_enabled: bool,
)
    ensures
        forall|i: int|
            #![trigger keyboard_actions(keys, motions, input_enabled)[i]]
            0 <= i < keyboard_actions(keys, motions, input_enabled).len() && keyboard_actions(
                keys,
                motions,
                input_enabled,
            )[i] is Move ==> within_unit(
                keyboard_actions(keys, motions, input_enabled)[i]->Move_0,
            ),
        forall|i: int|
            #![trigger gamepad_actions(pads, input_enabled)[i]]
            0 <= i < gamepad_actions(pads, input_enabled).len() && gamepad_actions(
                pads,
                input_enabled,
            )[i] is Move ==> within_unit(gamepad_actions(pads, input_enabled)[i]->Move_0),
{
    lemma_pad_moves_are_short(pads);
    let direction = keyboard_direction(keys);
    let axes = Vector2 {
        x: Scalar { raw: (axis(keys.right, keys.left) * SCALE) as i64 },
        y: Scalar { raw: (axis(keys.up, keys.down) * SCALE) as i64 },
    };
    lemma_clamp_bounds_length(axes, Scalar { raw: SCALE });
    let written = keyboard_actions(keys, motions, input_enabled);
    assert forall|i: int|
        0 <= i < written.len() && (#[trigger] written[i]) is Move implies within_unit(
        written[i]->Move_0,
    ) by {
        if input_enabled && i == 0 && (direction.x@ != 0 || direction.y@ != 0) {
            assert(written[i] == MovementAction::Move(direction));
        }
    }
}

/// A body that does not listen gets nothing from the stages of a tick but
/// ground detection and damping.
pub proof fn lemma_tick_of_deaf_body(
    body: ControllerBody,
    hits: Option<Seq<ShapeHit>>,
    queue: Seq<MovementAction>,
    dt: Scalar,
)
    requires
        !body.input.enable_input,
    ensures
        after_stages(body, hits, queue, dt) == after_damping(after_grounding(body, hits)),
        look_outcome(after_actions(after_grounding(body, hits), queue, dt), queue).yaw@ == 0,
        look_outcome(
            after_actions(after_grounding(body, hits), queue, dt),
            queue,
        ).camera_pitch is None,
{
    let grounded = after_grounding(body, hits);
    lemma_disabled_input_changes_nothing(grounded, queue, dt);
}

/// Whether the body's axes are those of a body that has not been turned:
/// right along x, forward against z.
pub open spec fn unturned(body: ControllerBody) -> bool {
    &&& body.right == (Vector3 {
        x: Scalar { raw: SCALE },
        y: Scalar { raw: 0 },
        z: Scalar { raw: 0 },
    })
    &&& body.forward == (Vector3 {
        x: Scalar { raw: 0 },
        y: Scalar { raw: 0 },
        z: Scalar { raw: (-SCALE) as i64 },
    })
}

/// A move accelerates an unturned body by the direction times the
/// acceleration times the length of the tick: to the right along x, forward
/// against z.
pub proof fn lemma_move_of_unturned_body(body: ControllerBody, dir: Vector2, dt: Scalar)
    requires
        unturned(body),
    ensures
        move_delta(body, dir, dt).x@ == fixed_mul(fixed_mul(dir.x@, body.acceleration.0@), dt@),
        move_delta(body, dir, dt).z@ == fixed_mul(
            fixed_mul(fixed_neg(dir.y@), body.acceleration.0@),
            dt@,
        ),
{
    let s = SCALE as int;
    let x = dir.x@;
    let y = dir.y@;
    assert(trunc_div(s * x, s) == x) by {
        lemma_trunc_div_bounds(s * x, s);
        let q = trunc_div(s * x, s);
        assert(q == x) by (nonlinear_arith)
            requires
                s * x - s < q * s < s * x + s,
                s > 0,
        ;
    }
    assert(trunc_div((-s) * y, s) == -y) by {
        lemma_trunc_div_bounds((-s) * y, s);
        let q = trunc_div((-s) * y, s);
        assert(q == -y) by (nonlinear_arith)
            requires
                (-s) * y - s < q * s < (-s) * y + s,
                s > 0,
        ;
    }
    assert(0 * x == 0 && 0 * y == 0);
    assert(trunc_div(0, s) == 0);
}

} // verus!
