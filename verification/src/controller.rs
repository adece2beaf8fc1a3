//! The state of one controlled body, ground detection, and the tick.

use vstd::prelude::*;
use crate::scalar::{Scalar, SCALE, fixed_abs};
use crate::vector::{Vector2, Vector3};
use crate::input::{
    CursorOptions, FpsController, GamepadState, KeyboardState, MovementAction, after_cursor,
    aggregate_input, any_enabled, cursor_after, gamepad_actions, input_enabled, keyboard_actions,
    manage_cursor, single_move,
};
use crate::movement::{
    JumpImpulse, MaxSlopeAngle, MouseSensitivity, MovementAcceleration, MovementBundle,
    LookOutcome, MovementDampingFactor, Pitch, after_actions, after_damping, after_looks,
    apply_movement_damping, look_outcome, mouse_look, movement,
};

verus! {

/// One character-controlled body: its parameters, and the part of its
/// physical state that the controller reads and writes.
///
/// The controller writes `linear_velocity`, `pitch`, `input` and `grounded`.
/// It only reads `forward` and `right`: they are the body's rotation as the
/// stages see it, and whoever owns the rotation sets them before every tick.
#[derive(Clone, Copy, Debug)]
pub struct ControllerBody {
    pub acceleration: MovementAcceleration,
    pub damping: MovementDampingFactor,
    pub jump_impulse: JumpImpulse,
    /// Without a limit every contact grounds the body.
    pub max_slope_angle: Option<MaxSlopeAngle>,
    pub mouse_sensitivity: MouseSensitivity,
    pub pitch: Pitch,
    pub input: FpsController,
    pub linear_velocity: Vector3,
    /// The body's forward axis in world space: its local forward axis turned
    /// by its rotation. No stage changes it. After a tick that asked for a
    /// yaw, it is stale until it is set again from the turned rotation.
    pub forward: Vector3,
    /// The body's right axis in world space, kept as `forward` is.
    pub right: Vector3,
    /// Whether the latest ground probe found a surface to stand on.
    pub grounded: bool,
}

/// One contact that the ground probe found under a body.
#[derive(Clone, Copy, Debug, PartialEq, Eq, Structural)]
pub struct ShapeHit {
    /// The angle, in radians, between the world's up axis and the contact's
    /// normal, turned into world space and negated.
    pub slope_angle: Scalar,
    /// How far the probe travelled before the contact.
    pub distance: Scalar,
}

/// Whether `hit` is a surface that a body with the limit `max` can stand on.
pub open spec fn walkable(hit: ShapeHit, max: Option<MaxSlopeAngle>) -> bool {
    match max {
        Some(angle) => fixed_abs(hit.slope_angle@) <= angle.0@,
        None => true,
    }
}

/// Whether one of `hits` is a surface to stand on.
pub open spec fn grounded_by(hits: Seq<ShapeHit>, max: Option<MaxSlopeAngle>) -> bool {
    exists|i: int| 0 <= i < hits.len() && walkable(#[trigger] hits[i], max)
}

/// Tells whether a body with these probe hits is grounded.
///
/// Without a limit the body is grounded exactly if there is a hit. With a
/// limit it is grounded exactly if some hit is no steeper than the limit. No
/// hit, no ground.
pub fn is_grounded(hits: &Vec<ShapeHit>, max_slope_angle: Option<MaxSlopeAngle>) -> (grounded:
    bool)
    ensures
        grounded == grounded_by(hits@, max_slope_angle),
        max_slope_angle is None ==> grounded == (hits@.len() > 0),
        max_slope_angle is Some ==> grounded == exists|i: int|
            0 <= i < hits@.len() && fixed_abs(#[trigger] hits@[i].slope_angle@)
                <= max_slope_angle->Some_0.0@,
        hits@.len() == 0 ==> !grounded,
{
    let mut i: usize = 0;
    while i < hits.len()
        invariant
            i <= hits@.len(),
            forall|j: int| 0 <= j < i ==> !walkable(#[trigger] hits@[j], max_slope_angle),
        decreases hits@.len() - i,
    {
        let steep = match max_slope_angle {
            Some(angle) => !hits[i].slope_angle.abs().le(angle.0),
            None => false,
        };
        if !steep {
            assert(walkable(hits@[i as int], max_slope_angle));
            proof {
                lemma_grounded_by(hits@, max_slope_angle);
            }
            return true;
        }
        i += 1;
    }
    proof {
        lemma_grounded_by(hits@, max_slope_angle);
    }
    false
}

/// What being grounded comes to, with and without a limit.
pub proof fn lemma_grounded_by(hits: Seq<ShapeHit>, max: Option<MaxSlopeAngle>)
    ensures
        max is None ==> grounded_by(hits, max) == (hits.len() > 0),
        max is Some ==> grounded_by(hits, max) == exists|i: int|
            0 <= i < hits.len() && fixed_abs(#[trigger] hits[i].slope_angle@) <= max->Some_0.0@,
        hits.len() == 0 ==> !grounded_by(hits, max),
{
    if max is None {
        if hits.len() > 0 {
            assert(walkable(hits[0], max));
        }
    } else {
        if grounded_by(hits, max) {
            let i = choose|i: int| 0 <= i < hits.len() && walkable(#[trigger] hits[i], max);
            assert(fixed_abs(hits[i].slope_angle@) <= max->Some_0.0@);
        }
        if exists|i: int|
            0 <= i < hits.len() && fixed_abs(#[trigger] hits[i].slope_angle@) <= max->Some_0.0@ {
            let i = choose|i: int|
                0 <= i < hits.len() && fixed_abs(#[trigger] hits[i].slope_angle@)
                    <= max->Some_0.0@;
            assert(walkable(hits[i], max));
        }
    }
}

/// The body after ground detection: grounded as its probe hits say, or as
/// before where the probe reported nothing for it.
pub open spec fn after_grounding(body: ControllerBody, hits: Option<Seq<ShapeHit>>)
    -> ControllerBody {
    match hits {
        Some(found) => ControllerBody {
            grounded: grounded_by(found, body.max_slope_angle),
            ..body
        },
        None => body,
    }
}

/// The hits that the probe reported for the body at place `i`.
pub open spec fn hits_for(hits: Seq<Vec<ShapeHit>>, i: int) -> Option<Seq<ShapeHit>> {
    if 0 <= i < hits.len() {
        Some(hits[i]@)
    } else {
        None
    }
}

/// Ground detection: sets each controller's grounded flag from the probe hits
/// at the same place of `hits`.
pub fn update_grounded(hits: &Vec<Vec<ShapeHit>>, controllers: &mut Vec<ControllerBody>)
    ensures
        final(controllers)@.len() == old(controllers)@.len(),
        forall|i: int|
            0 <= i < old(controllers)@.len() ==> final(controllers)@[i] == after_grounding(
                old(controllers)@[i],
                hits_for(hits@, i),
            ),
{
    let ghost before = controllers@;
    let mut i: usize = 0;
    while i < controllers.len()
        invariant
            i <= controllers@.len(),
            controllers@.len() == before.len(),
            forall|j: int|
                0 <= j < i ==> controllers@[j] == after_grounding(before[j], hits_for(hits@, j)),
            forall|j: int| i <= j < before.len() ==> controllers@[j] == before[j],
        decreases controllers@.len() - i,
    {
        if i < hits.len() {
            let mut body = controllers[i];
            body.grounded = is_grounded(&hits[i], body.max_slope_angle);
            controllers.set(i, body);
        }
        i += 1;
    }
}

/// The probe's shape is the body's collider at 99% of its size.
pub const GROUND_CASTER_SCALE: i64 = 990_000_000;

/// The probe reaches 0.2 units below the body.
pub const GROUND_CASTER_MAX_DISTANCE: i64 = 200_000_000;

/// The probe that looks for ground under a body: a copy of its collider,
/// shrunk, cast from the body's origin.
#[derive(Clone, Copy, Debug, PartialEq, Eq, Structural)]
pub struct ShapeCaster {
    /// The size of the probe's shape relative to the body's collider.
    pub shape_scale: Scalar,
    /// Where the cast starts, relative to the body.
    pub origin: Vector3,
    /// The direction of the cast, in world space.
    pub direction: Vector3,
    /// How far the probe is cast.
    pub max_distance: Scalar,
}

/// How the physics step treats a body.
#[derive(Clone, Copy, Debug, PartialEq, Eq, Structural)]
pub enum RigidBody {
    /// Moved by forces and contacts.
    Dynamic,
    /// Never moved.
    Static,
    /// Moved by its velocity alone.
    Kinematic,
}

/// The axes about which the physics step may not turn a body.
#[derive(Clone, Copy, Debug, PartialEq, Eq, Structural)]
pub struct LockedAxes {
    pub rotation_x: bool,
    pub rotation_y: bool,
    pub rotation_z: bool,
}

/// What a character controller is spawned with.
#[derive(Clone, Copy, Debug, PartialEq, Eq, Structural)]
pub struct CharacterControllerBundle {
    pub body: RigidBody,
    pub ground_caster: ShapeCaster,
    pub locked_axes: LockedAxes,
    pub movement: MovementBundle,
}

impl CharacterControllerBundle {
    /// The bundle that `new` builds.
    pub open spec fn spec_new() -> CharacterControllerBundle {
        CharacterControllerBundle {
            body: RigidBody::Dynamic,
            ground_caster: ShapeCaster {
                shape_scale: Scalar { raw: GROUND_CASTER_SCALE },
                origin: Vector3 {
                    x: Scalar { raw: 0 },
                    y: Scalar { raw: 0 },
                    z: Scalar { raw: 0 },
                },
                direction: Vector3 {
                    x: Scalar { raw: 0 },
                    y: Scalar { raw: (-SCALE) as i64 },
                    z: Scalar { raw: 0 },
                },
                max_distance: Scalar { raw: GROUND_CASTER_MAX_DISTANCE },
            },
            locked_axes: LockedAxes { rotation_x: true, rotation_y: false, rotation_z: true },
            movement: MovementBundle::spec_new(
                Scalar { raw: crate::movement::DEFAULT_ACCELERATION },
                Scalar { raw: crate::movement::DEFAULT_DAMPING },
                Scalar { raw: crate::movement::DEFAULT_JUMP_IMPULSE },
                Scalar { raw: crate::movement::DEFAULT_MAX_SLOPE_ANGLE },
            ),
        }
    }

    /// A controller with the default movement parameters, a ground probe
    /// slightly smaller than its collider that is cast straight down, and a
    /// dynamic body that stays upright: it may turn about the up axis only.
    pub fn new() -> (r: CharacterControllerBundle)
        ensures
            r == CharacterControllerBundle::spec_new(),
    {
        CharacterControllerBundle {
            body: RigidBody::Dynamic,
            ground_caster: ShapeCaster {
                shape_scale: Scalar { raw: GROUND_CASTER_SCALE },
                origin: Vector3::zero(),
                direction: Vector3::new(Scalar::zero(), Scalar { raw: -SCALE }, Scalar::zero()),
                max_distance: Scalar { raw: GROUND_CASTER_MAX_DISTANCE },
            },
            locked_axes: LockedAxes { rotation_x: true, rotation_y: false, rotation_z: true },
            movement: MovementBundle::default(),
        }
    }

    /// The same controller with other movement parameters.
    pub fn with_movement(
        self,
        acceleration: Scalar,
        damping: Scalar,
        jump_impulse: Scalar,
        max_slope_angle: Scalar,
    ) -> (r: CharacterControllerBundle)
        ensures
            r == (CharacterControllerBundle {
                movement: MovementBundle::spec_new(
                    acceleration,
                    damping,
                    jump_impulse,
                    max_slope_angle,
                ),
                ..self
            }),
    {
        let mut bundle = self;
        bundle.movement = MovementBundle::new(acceleration, damping, jump_impulse, max_slope_angle);
        bundle
    }
}

impl ControllerBody {
    /// The body that `new` builds from `movement`.
    pub open spec fn spec_new(movement: MovementBundle) -> ControllerBody {
        ControllerBody {
            acceleration: movement.acceleration,
            damping: movement.damping,
            jump_impulse: movement.jump_impulse,
            max_slope_angle: Some(movement.max_slope_angle),
            mouse_sensitivity: movement.mouse_sensitivity,
            pitch: movement.pitch,
            input: FpsController { enable_input: false },
            linear_velocity: Vector3 {
                x: Scalar { raw: 0 },
                y: Scalar { raw: 0 },
                z: Scalar { raw: 0 },
            },
            forward: Vector3 {
                x: Scalar { raw: 0 },
                y: Scalar { raw: 0 },
                z: Scalar { raw: (-SCALE) as i64 },
            },
            right: Vector3 { x: Scalar { raw: SCALE }, y: Scalar { raw: 0 }, z: Scalar { raw: 0 } },
            grounded: false,
        }
    }

    /// A body with the parameters of `movement`: at rest, unturned, in the
    /// air, its input disabled.
    pub fn new(movement: MovementBundle) -> (r: ControllerBody)
        ensures
            r == ControllerBody::spec_new(movement),
    {
        ControllerBody {
            acceleration: movement.acceleration,
            damping: movement.damping,
            jump_impulse: movement.jump_impulse,
            max_slope_angle: Some(movement.max_slope_angle),
            mouse_sensitivity: movement.mouse_sensitivity,
            pitch: movement.pitch,
            input: FpsController { enable_input: false },
            linear_velocity: Vector3::zero(),
            forward: Vector3::new(Scalar::zero(), Scalar::zero(), Scalar { raw: -SCALE }),
            right: Vector3::new(Scalar { raw: SCALE }, Scalar::zero(), Scalar::zero()),
            grounded: false,
        }
    }
}

/// What the devices and the ground probe report for one tick.
#[derive(Debug)]
pub struct TickInput {
    /// The button that holds the pointer went down in this tick.
    pub grab: bool,
    /// The key that frees the pointer went down in this tick.
    pub release: bool,
    pub keys: KeyboardState,
    /// The pointer's motions, in the order in which they came.
    pub mouse_motion: Vec<Vector2>,
    pub gamepads: Vec<GamepadState>,
    /// The probe hits of each controller, at the controller's place.
    pub hits: Vec<Vec<ShapeHit>>,
    /// The length of the tick in seconds.
    pub delta_time: Scalar,
}

/// The queue of actions of a tick, given whether any controller listens.
pub open spec fn tick_queue(input: TickInput, enabled: bool) -> Seq<MovementAction> {
    single_move(
        keyboard_actions(input.keys, input.mouse_motion@, enabled) + gamepad_actions(
            input.gamepads@,
            enabled,
        ),
    )
}

/// The input switches of the controllers, in their order.
pub open spec fn switches(controllers: Seq<ControllerBody>) -> Seq<FpsController> {
    Seq::new(controllers.len(), |i: int| controllers[i].input)
}

/// Whether any controller listens once the pointer stage of a tick has run.
pub open spec fn tick_enabled(controllers: Seq<ControllerBody>, input: TickInput) -> bool {
    any_enabled(
        Seq::new(
            controllers.len(),
            |i: int| after_cursor(controllers[i].input, input.grab, input.release),
        ),
    )
}

/// The body with its input switched as the pointer stage of a tick asks;
/// nothing else changes.
pub open spec fn after_switch(body: ControllerBody, input: TickInput) -> ControllerBody {
    ControllerBody { input: after_cursor(body.input, input.grab, input.release), ..body }
}

/// The body after the stages of one tick that follow the pointer stage, in
/// their fixed order: ground detection, velocity, look, damping.
pub open spec fn after_stages(
    body: ControllerBody,
    hits: Option<Seq<ShapeHit>>,
    queue: Seq<MovementAction>,
    dt: Scalar,
) -> ControllerBody {
    after_damping(after_looks(after_actions(after_grounding(body, hits), queue, dt), queue))
}

/// One tick of the controller, its stages in their fixed order: pointer and
/// input switch, keyboard, gamepads, ground detection, velocity, look,
/// damping. Returns, for each controller, what the look stage asks for.
///
/// The tick moves each body along the `forward` and `right` axes that it
/// finds, and leaves them as they are. The caller turns each body's rotation
/// by the yaw returned for it and sets both axes from the new rotation before
/// the next tick; else that tick moves the body along the old axes.
pub fn step(
    input: &TickInput,
    cursor_options: &mut CursorOptions,
    controllers: &mut Vec<ControllerBody>,
) -> (outcomes: Vec<LookOutcome>)
    ensures
        *final(cursor_options) == cursor_after(*old(cursor_options), input.grab, input.release),
        final(controllers)@.len() == old(controllers)@.len(),
        outcomes@.len() == old(controllers)@.len(),
        forall|i: int|
            0 <= i < old(controllers)@.len() ==> final(controllers)@[i] == after_stages(
                after_switch(old(controllers)@[i], *input),
                hits_for(input.hits@, i),
                tick_queue(*input, tick_enabled(old(controllers)@, *input)),
                input.delta_time,
            ),
        forall|i: int|
            0 <= i < old(controllers)@.len() ==> outcomes@[i] == look_outcome(
                after_actions(
                    after_grounding(
                        after_switch(old(controllers)@[i], *input),
                        hits_for(input.hits@, i),
                    ),
                    tick_queue(*input, tick_enabled(old(controllers)@, *input)),
                    input.delta_time,
                ),
                tick_queue(*input, tick_enabled(old(controllers)@, *input)),
            ),
{
    let ghost before = controllers@;
    let mut flags: Vec<FpsController> = Vec::new();
    let mut i: usize = 0;
    while i < controllers.len()
        invariant
            i <= controllers@.len(),
            controllers@ == before,
            flags@ == switches(before).take(i as int),
        decreases controllers@.len() - i,
    {
        flags.push(controllers[i].input);
        assert(flags@ =~= switches(before).take(i + 1));
        i += 1;
    }
    assert(flags@ =~= switches(before));
    manage_cursor(input.grab, input.release, cursor_options, &mut flags);
    assert(flags@ =~= Seq::new(
        before.len(),
        |i: int| after_cursor(before[i].input, input.grab, input.release),
    ));
    let mut n: usize = 0;
    while n < controllers.len()
        invariant
            n <= controllers@.len(),
            controllers@.len() == before.len(),
            flags@.len() == before.len(),
            forall|j: int|
                0 <= j < before.len() ==> flags@[j] == after_cursor(
                    before[j].input,
                    input.grab,
                    input.release,
                ),
            forall|j: int| 0 <= j < n ==> controllers@[j] == after_switch(before[j], *input),
            forall|j: int| n <= j < before.len() ==> controllers@[j] == before[j],
        decreases controllers@.len() - n,
    {
        let mut body = controllers[n];
        body.input = flags[n];
        controllers.set(n, body);
        n += 1;
    }
    let enabled = input_enabled(&flags);
    let queue = aggregate_input(&input.keys, &input.mouse_motion, &input.gamepads, enabled);
    update_grounded(&input.hits, controllers);
    movement(input.delta_time, &queue, controllers);
    let outcomes = mouse_look(&queue, controllers);
    apply_movement_damping(controllers);
    outcomes
}

} // verus!
