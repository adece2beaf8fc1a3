//! Movement parameters and the stages that act on a controller's velocity,
//! yaw and pitch.

use vstd::prelude::*;
use crate::scalar::{Scalar, fixed_add, fixed_clamp, fixed_mul, fixed_neg};
use crate::vector::{Vector2, Vector3};
use crate::input::MovementAction;
use crate::controller::ControllerBody;

verus! {

/// Default acceleration: 30 units per second squared.
pub const DEFAULT_ACCELERATION: i64 = 30_000_000_000;

/// Default damping factor: 0.9 per tick.
pub const DEFAULT_DAMPING: i64 = 900_000_000;

/// Default jump impulse: 7 units per second.
pub const DEFAULT_JUMP_IMPULSE: i64 = 7_000_000_000;

/// Default maximum slope angle: 0.45 pi radians, to the nearest billionth.
pub const DEFAULT_MAX_SLOPE_ANGLE: i64 = 1_413_716_694;

/// Default mouse sensitivity: 0.002 radians per input unit.
pub const DEFAULT_MOUSE_SENSITIVITY: i64 = 2_000_000;

/// Default pitch limit: a tenth of a radian short of a right angle.
pub const DEFAULT_PITCH_MAX: i64 = 1_470_796_327;

/// Mouse sensitivity for looking around, in radians per input unit.
#[derive(Clone, Copy, Debug, PartialEq, Eq, Structural)]
pub struct MouseSensitivity(pub Scalar);

impl Default for MouseSensitivity {
    fn default() -> (r: MouseSensitivity)
        ensures
            r.0@ == DEFAULT_MOUSE_SENSITIVITY,
    {
        MouseSensitivity(Scalar { raw: DEFAULT_MOUSE_SENSITIVITY })
    }
}

/// Pitch angle of the camera (up and down), with its limit.
#[derive(Clone, Copy, Debug, PartialEq, Eq, Structural)]
pub struct Pitch {
    pub angle: Scalar,
    pub max: Scalar,
}

impl Pitch {
    /// The limit is not negative and the angle lies within it.
    pub open spec fn wf(self) -> bool {
        0 <= self.max@ && -self.max@ <= self.angle@ <= self.max@
    }
}

impl Default for Pitch {
    /// Level, with the default limit.
    fn default() -> (r: Pitch)
        ensures
            r.angle@ == 0,
            r.max@ == DEFAULT_PITCH_MAX,
            r.wf(),
    {
        Pitch { angle: Scalar { raw: 0 }, max: Scalar { raw: DEFAULT_PITCH_MAX } }
    }
}

/// The acceleration used for character movement.
#[derive(Clone, Copy, Debug, PartialEq, Eq, Structural)]
pub struct MovementAcceleration(pub Scalar);

/// The factor by which planar velocity is multiplied each tick.
#[derive(Clone, Copy, Debug, PartialEq, Eq, Structural)]
pub struct MovementDampingFactor(pub Scalar);

/// The vertical velocity that a jump sets.
#[derive(Clone, Copy, Debug, PartialEq, Eq, Structural)]
pub struct JumpImpulse(pub Scalar);

/// The steepest slope, in radians, on which a controller counts as grounded.
#[derive(Clone, Copy, Debug, PartialEq, Eq, Structural)]
pub struct MaxSlopeAngle(pub Scalar);

/// The movement parameters of one controller.
#[derive(Clone, Copy, Debug, PartialEq, Eq, Structural)]
pub struct MovementBundle {
    pub acceleration: MovementAcceleration,
    pub damping: MovementDampingFactor,
    pub jump_impulse: JumpImpulse,
    pub max_slope_angle: MaxSlopeAngle,
    pub mouse_sensitivity: MouseSensitivity,
    pub pitch: Pitch,
}

impl MovementBundle {
    /// The bundle that `new` builds from the four parameters.
    pub open spec fn spec_new(
        acceleration: Scalar,
        damping: Scalar,
        jump_impulse: Scalar,
        max_slope_angle: Scalar,
    ) -> MovementBundle {
        MovementBundle {
            acceleration: MovementAcceleration(acceleration),
            damping: MovementDampingFactor(damping),
            jump_impulse: JumpImpulse(jump_impulse),
            max_slope_angle: MaxSlopeAngle(max_slope_angle),
            mouse_sensitivity: MouseSensitivity(Scalar { raw: DEFAULT_MOUSE_SENSITIVITY }),
            pitch: Pitch { angle: Scalar { raw: 0 }, max: Scalar { raw: DEFAULT_PITCH_MAX } },
        }
    }

    /// A bundle with the given parameters, the default mouse sensitivity and
    /// a level pitch with the default limit.
    pub fn new(
        acceleration: Scalar,
        damping: Scalar,
        jump_impulse: Scalar,
        max_slope_angle: Scalar,
    ) -> (r: MovementBundle)
        ensures
            r == MovementBundle::spec_new(acceleration, damping, jump_impulse, max_slope_angle),
            r.pitch.wf(),
    {
        MovementBundle {
            acceleration: MovementAcceleration(acceleration),
            damping: MovementDampingFactor(damping),
            jump_impulse: JumpImpulse(jump_impulse),
            max_slope_angle: MaxSlopeAngle(max_slope_angle),
            mouse_sensitivity: MouseSensitivity(Scalar { raw: DEFAULT_MOUSE_SENSITIVITY }),
            pitch: Pitch { angle: Scalar { raw: 0 }, max: Scalar { raw: DEFAULT_PITCH_MAX } },
        }
    }
}

impl Default for MovementBundle {
    /// The default movement parameters.
    fn default() -> (r: MovementBundle)
        ensures
            r == MovementBundle::spec_new(
                Scalar { raw: DEFAULT_ACCELERATION },
                Scalar { raw: DEFAULT_DAMPING },
                Scalar { raw: DEFAULT_JUMP_IMPULSE },
                Scalar { raw: DEFAULT_MAX_SLOPE_ANGLE },
            ),
            r.pitch.wf(),
    {
        MovementBundle::new(
            Scalar { raw: DEFAULT_ACCELERATION },
            Scalar { raw: DEFAULT_DAMPING },
            Scalar { raw: DEFAULT_JUMP_IMPULSE },
            Scalar { raw: DEFAULT_MAX_SLOPE_ANGLE },
        )
    }
}

/// The velocity that a move in direction `dir` adds over a tick of `dt`
/// seconds: the direction taken along the body's own axes, times the
/// acceleration, times the length of the tick.
pub open spec fn move_delta(body: ControllerBody, dir: Vector2, dt: Scalar) -> Vector3 {
    body.right.spec_scaled(dir.x).spec_plus(body.forward.spec_scaled(dir.y)).spec_scaled(
        body.acceleration.0,
    ).spec_scaled(dt)
}

/// `velocity` with `delta` added in the ground plane; the vertical component
/// stays.
pub open spec fn accelerated(velocity: Vector3, delta: Vector3) -> Vector3 {
    Vector3 {
        x: Scalar { raw: fixed_add(velocity.x@, delta.x@) as i64 },
        y: velocity.y,
        z: Scalar { raw: fixed_add(velocity.z@, delta.z@) as i64 },
    }
}

/// The body after the velocity stage has handled one action.
///
/// A body whose input is disabled stays as it is. A move accelerates it in
/// the ground plane. A jump sets the vertical velocity to the jump impulse
/// if the body is grounded, and does nothing otherwise. A look is not this
/// stage's business.
pub open spec fn after_action(body: ControllerBody, action: MovementAction, dt: Scalar)
    -> ControllerBody {
    if !body.input.enable_input {
        body
    } else {
        match action {
            MovementAction::Move(dir) => ControllerBody {
                linear_velocity: accelerated(body.linear_velocity, move_delta(body, dir, dt)),
                ..body
            },
            MovementAction::Jump => if body.grounded {
                ControllerBody {
                    linear_velocity: Vector3 { y: body.jump_impulse.0, ..body.linear_velocity },
                    ..body
                }
            } else {
                body
            },
            MovementAction::Look(_) => body,
        }
    }
}

/// The body after the velocity stage has handled `actions`, first to last.
pub open spec fn after_actions(body: ControllerBody, actions: Seq<MovementAction>, dt: Scalar)
    -> ControllerBody
    decreases actions.len(),
{
    if actions.len() == 0 {
        body
    } else {
        after_action(after_actions(body, actions.drop_last(), dt), actions.last(), dt)
    }
}

impl ControllerBody {
    /// Handles one action in the velocity stage.
    pub fn apply_action(&mut self, action: MovementAction, delta_time: Scalar)
        ensures
            *final(self) == after_action(*old(self), action, delta_time),
    {
        if !self.input.enable_input {
            return ;
        }
        match action {
            MovementAction::Move(direction) => {
                let movement_vector = self.right.scale(direction.x).add(
                    self.forward.scale(direction.y),
                ).scale(self.acceleration.0).scale(delta_time);
                self.linear_velocity.x = self.linear_velocity.x.add(movement_vector.x);
                self.linear_velocity.z = self.linear_velocity.z.add(movement_vector.z);
            },
            MovementAction::Jump => {
                if self.grounded {
                    self.linear_velocity.y = self.jump_impulse.0;
                }
            },
            MovementAction::Look(_) => {},
        }
    }
}

/// The velocity stage: every action, in order, on every controller. A move
/// goes along the `forward` and `right` axes that each body holds; the caller
/// has set them from the body's rotation.
pub fn movement(
    delta_time: Scalar,
    events: &Vec<MovementAction>,
    controllers: &mut Vec<ControllerBody>,
)
    ensures
        final(controllers)@.len() == old(controllers)@.len(),
        forall|i: int|
            0 <= i < old(controllers)@.len() ==> final(controllers)@[i] == after_actions(
                old(controllers)@[i],
                events@,
                delta_time,
            ),
{
    let ghost before = controllers@;
    let mut k: usize = 0;
    while k < events.len()
        invariant
            k <= events@.len(),
            controllers@.len() == before.len(),
            forall|i: int|
                0 <= i < before.len() ==> controllers@[i] == after_actions(
                    before[i],
                    events@.take(k as int),
                    delta_time,
                ),
        decreases events@.len() - k,
    {
        let event = events[k];
        assert(events@.take(k + 1).drop_last() =~= events@.take(k as int));
        let mut i: usize = 0;
        while i < controllers.len()
            invariant
                k < events@.len(),
                event == events@[k as int],
                events@.take(k + 1).drop_last() == events@.take(k as int),
                i <= controllers@.len(),
                controllers@.len() == before.len(),
                forall|j: int|
                    0 <= j < i ==> controllers@[j] == after_actions(
                        before[j],
                        events@.take(k + 1),
                        delta_time,
                    ),
                forall|j: int|
                    i <= j < before.len() ==> controllers@[j] == after_actions(
                        before[j],
                        events@.take(k as int),
                        delta_time,
                    ),
            decreases controllers@.len() - i,
        {
            let mut body = controllers[i];
            body.apply_action(event, delta_time);
            controllers.set(i, body);
            i += 1;
        }
        k += 1;
    }
    assert(events@.take(k as int) =~= events@);
}

/// The angle that a pointer delta of `delta` turns by at `sensitivity`: the
/// delta negated, times the sensitivity.
pub open spec fn look_angle(delta: int, sensitivity: int) -> int {
    fixed_mul(fixed_neg(delta), sensitivity)
}

/// The pitch after `pitch_delta` has been added and the sum clamped to the
/// limit on either side.
pub open spec fn pitched(pitch: Pitch, pitch_delta: int) -> Pitch {
    Pitch {
        angle: Scalar {
            raw: fixed_clamp(
                fixed_add(pitch.angle@, pitch_delta),
                fixed_neg(pitch.max@),
                pitch.max@,
            ) as i64,
        },
        max: pitch.max,
    }
}

/// Whether the look stage acts on `action` for `body`.
pub open spec fn looks(body: ControllerBody, action: MovementAction) -> bool {
    body.input.enable_input && action is Look
}

/// The body after the look stage has handled one action: a look changes the
/// pitch of a body whose input is enabled, and nothing else changes.
pub open spec fn after_look(body: ControllerBody, action: MovementAction) -> ControllerBody {
    if looks(body, action) {
        ControllerBody {
            pitch: pitched(
                body.pitch,
                look_angle(action->Look_0.y@, body.mouse_sensitivity.0@),
            ),
            ..body
        }
    } else {
        body
    }
}

/// The yaw, about the world's up axis, that one action asks for.
pub open spec fn yaw_of_look(body: ControllerBody, action: MovementAction) -> int {
    if looks(body, action) {
        look_angle(action->Look_0.x@, body.mouse_sensitivity.0@)
    } else {
        0
    }
}

/// The body after the look stage has handled `actions`, first to last.
pub open spec fn after_looks(body: ControllerBody, actions: Seq<MovementAction>)
    -> ControllerBody
    decreases actions.len(),
{
    if actions.len() == 0 {
        body
    } else {
        after_look(after_looks(body, actions.drop_last()), actions.last())
    }
}

/// The yaw that `actions` ask for in all: the saturating sum, first to last.
pub open spec fn yaw_of_looks(body: ControllerBody, actions: Seq<MovementAction>) -> int
    decreases actions.len(),
{
    if actions.len() == 0 {
        0
    } else {
        fixed_add(
            yaw_of_looks(body, actions.drop_last()),
            yaw_of_look(after_looks(body, actions.drop_last()), actions.last()),
        )
    }
}

/// Whether the look stage acts on any of `actions`.
pub open spec fn looked(body: ControllerBody, actions: Seq<MovementAction>) -> bool
    decreases actions.len(),
{
    if actions.len() == 0 {
        false
    } else {
        looked(body, actions.drop_last()) || looks(
            after_looks(body, actions.drop_last()),
            actions.last(),
        )
    }
}

/// What the look stage asks of whoever owns the body's rotation and its
/// camera.
#[derive(Clone, Copy, Debug, PartialEq, Eq)]
pub struct LookOutcome {
    /// The angle to turn the body by: a rotation about the world's up axis,
    /// to be composed on the left of the body's rotation.
    pub yaw: Scalar,
    /// The angle to set the camera's own rotation about its x axis to,
    /// replacing what it was; nothing where no look was handled.
    pub camera_pitch: Option<Scalar>,
}

/// What the look stage asks for once it has handled `actions`.
pub open spec fn look_outcome(body: ControllerBody, actions: Seq<MovementAction>) -> LookOutcome {
    LookOutcome {
        yaw: Scalar { raw: yaw_of_looks(body, actions) as i64 },
        camera_pitch: if looked(body, actions) {
            Some(after_looks(body, actions).pitch.angle)
        } else {
            None
        },
    }
}

/// The body after one tick of damping: the planar velocity multiplied by the
/// damping factor, the vertical velocity as it was.
pub open spec fn after_damping(body: ControllerBody) -> ControllerBody {
    ControllerBody {
        linear_velocity: Vector3 {
            x: Scalar { raw: fixed_mul(body.linear_velocity.x@, body.damping.0@) as i64 },
            y: body.linear_velocity.y,
            z: Scalar { raw: fixed_mul(body.linear_velocity.z@, body.damping.0@) as i64 },
        },
        ..body
    }
}

impl ControllerBody {
    /// Handles one action in the look stage. Where the action is a look and
    /// the body listens, the pitch moves, within its limit, and the yaw to
    /// turn the body by is returned.
    pub fn look(&mut self, action: MovementAction) -> (yaw: Option<Scalar>)
        ensures
            *final(self) == after_look(*old(self), action),
            yaw is Some == looks(*old(self), action),
            yaw is Some ==> yaw->Some_0@ == yaw_of_look(*old(self), action),
    {
        if !self.input.enable_input {
            return None;
        }
        match action {
            MovementAction::Look(delta) => {
                let yaw_delta = delta.x.neg().mul(self.mouse_sensitivity.0);
                let pitch_delta = delta.y.neg().mul(self.mouse_sensitivity.0);
                let angle = self.pitch.angle.add(pitch_delta);
                self.pitch.angle = angle.clamp(self.pitch.max.neg(), self.pitch.max);
                Some(yaw_delta)
            },
            _ => None,
        }
    }

    /// One tick of damping.
    pub fn damp(&mut self)
        ensures
            *final(self) == after_damping(*old(self)),
    {
        self.linear_velocity.x = self.linear_velocity.x.mul(self.damping.0);
        self.linear_velocity.z = self.linear_velocity.z.mul(self.damping.0);
    }
}

/// The look stage: every look, in order, on every controller. Returns, for
/// each controller, what to do with its body's rotation and its camera. The
/// bodies' `forward` and `right` axes are not turned here: the caller sets
/// them again once it has turned the rotation.
pub fn mouse_look(events: &Vec<MovementAction>, controllers: &mut Vec<ControllerBody>) -> (outcomes:
    Vec<LookOutcome>)
    ensures
        final(controllers)@.len() == old(controllers)@.len(),
        outcomes@.len() == old(controllers)@.len(),
        forall|i: int|
            0 <= i < old(controllers)@.len() ==> final(controllers)@[i] == after_looks(
                old(controllers)@[i],
                events@,
            ),
        forall|i: int|
            0 <= i < old(controllers)@.len() ==> outcomes@[i] == look_outcome(
                old(controllers)@[i],
                events@,
            ),
{
    let ghost before = controllers@;
    let mut outcomes: Vec<LookOutcome> = Vec::new();
    let mut n: usize = 0;
    while n < controllers.len()
        invariant
            n <= controllers@.len(),
            outcomes@.len() == n,
            forall|j: int|
                0 <= j < n ==> outcomes@[j] == (LookOutcome {
                    yaw: Scalar { raw: 0 },
                    camera_pitch: None,
                }),
        decreases controllers@.len() - n,
    {
        outcomes.push(LookOutcome { yaw: Scalar::zero(), camera_pitch: None });
        n += 1;
    }
    let mut k: usize = 0;
    while k < events.len()
        invariant
            k <= events@.len(),
            controllers@.len() == before.len(),
            outcomes@.len() == before.len(),
            forall|i: int|
                0 <= i < before.len() ==> controllers@[i] == after_looks(
                    before[i],
                    events@.take(k as int),
                ),
            forall|i: int|
                0 <= i < before.len() ==> outcomes@[i] == look_outcome(
                    before[i],
                    events@.take(k as int),
                ),
        decreases events@.len() - k,
    {
        let event = events[k];
        assert(events@.take(k + 1).drop_last() =~= events@.take(k as int));
        let mut i: usize = 0;
        while i < controllers.len()
            invariant
                k < events@.len(),
                event == events@[k as int],
                events@.take(k + 1).drop_last() == events@.take(k as int),
                i <= controllers@.len(),
                controllers@.len() == before.len(),
                outcomes@.len() == before.len(),
                forall|j: int|
                    0 <= j < i ==> controllers@[j] == after_looks(before[j], events@.take(k + 1)),
                forall|j: int|
                    0 <= j < i ==> outcomes@[j] == look_outcome(before[j], events@.take(k + 1)),
                forall|j: int|
                    i <= j < before.len() ==> controllers@[j] == after_looks(
                        before[j],
                        events@.take(k as int),
                    ),
                forall|j: int|
                    i <= j < before.len() ==> outcomes@[j] == look_outcome(
                        before[j],
                        events@.take(k as int),
                    ),
            decreases controllers@.len() - i,
        {
            let mut body = controllers[i];
            if let Some(yaw) = body.look(event) {
                controllers.set(i, body);
                let total = outcomes[i].yaw.add(yaw);
                outcomes.set(i, LookOutcome { yaw: total, camera_pitch: Some(body.pitch.angle) });
            }
            i += 1;
        }
        k += 1;
    }
    assert(events@.take(k as int) =~= events@);
    outcomes
}

/// The damping stage: slows every controller down in the ground plane,
/// whether or not its input is enabled.
pub fn apply_movement_damping(controllers: &mut Vec<ControllerBody>)
    ensures
        final(controllers)@.len() == old(controllers)@.len(),
        forall|i: int|
            0 <= i < old(controllers)@.len() ==> final(controllers)@[i] == after_damping(
                old(controllers)@[i],
            ),
{
    let ghost before = controllers@;
    let mut i: usize = 0;
    while i < controllers.len()
        invariant
            i <= controllers@.len(),
            controllers@.len() == before.len(),
            forall|j: int| 0 <= j < i ==> controllers@[j] == after_damping(before[j]),
            forall|j: int| i <= j < before.len() ==> controllers@[j] == before[j],
        decreases controllers@.len() - i,
    {
        let mut body = controllers[i];
        body.damp();
        controllers.set(i, body);
        i += 1;
    }
}

} // verus!
