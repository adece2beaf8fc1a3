//! Input handling: what the devices report, and the actions that follow.

use vstd::prelude::*;
use crate::scalar::{Scalar, SCALE, fixed_mul, fixed_neg};
use crate::vector::{Vector2, clamped_to_length};

verus! {

/// Whether a controller listens to input.
#[derive(Clone, Copy, Debug, PartialEq, Eq, Structural)]
pub struct FpsController {
    pub enable_input: bool,
}

impl Default for FpsController {
    /// Input starts disabled.
    fn default() -> (r: FpsController)
        ensures
            !r.enable_input,
    {
        FpsController { enable_input: false }
    }
}

/// A movement input action.
#[derive(Clone, Copy, Debug, PartialEq, Eq, Structural)]
pub enum MovementAction {
    /// Move in a direction of the ground plane: `x` to the right, `y` forward.
    Move(Vector2),
    /// Jump.
    Jump,
    /// Look around by a pointer delta.
    Look(Vector2),
}

/// What the keyboard reports for one tick.
#[derive(Clone, Copy, Debug, PartialEq, Eq, Structural)]
pub struct KeyboardState {
    /// A key for moving forward is held.
    pub up: bool,
    /// A key for moving backward is held.
    pub down: bool,
    /// A key for moving left is held.
    pub left: bool,
    /// A key for moving right is held.
    pub right: bool,
    /// The jump key went down in this tick.
    pub jump: bool,
}

/// What one gamepad reports for one tick. An axis that the device does not
/// report is absent.
#[derive(Clone, Copy, Debug)]
pub struct GamepadState {
    pub left_stick_x: Option<Scalar>,
    pub left_stick_y: Option<Scalar>,
    /// The jump button went down in this tick.
    pub jump: bool,
    pub right_stick_x: Option<Scalar>,
    pub right_stick_y: Option<Scalar>,
}

/// How the window holds the pointer.
#[derive(Clone, Copy, Debug, PartialEq, Eq, Structural)]
pub enum CursorGrabMode {
    /// The pointer moves freely.
    Free,
    /// The pointer is kept inside the window.
    Confined,
    /// The pointer is held in place.
    Locked,
}

/// The window's pointer settings.
#[derive(Clone, Copy, Debug, PartialEq, Eq, Structural)]
pub struct CursorOptions {
    pub grab_mode: CursorGrabMode,
    pub visible: bool,
}

/// The factor by which a gamepad's right stick is scaled into a look delta.
pub const GAMEPAD_LOOK_SENSITIVITY: i64 = 2_000_000_000;

/// One axis from a pair of opposed keys: 1, 0 or -1.
pub open spec fn axis(positive: bool, negative: bool) -> int {
    (if positive { 1int } else { 0int }) - (if negative { 1int } else { 0int })
}

/// The direction that the held keys ask for, no longer than one unit.
pub open spec fn keyboard_direction(keys: KeyboardState) -> Vector2 {
    clamped_to_length(
        Vector2 {
            x: Scalar { raw: (axis(keys.right, keys.left) * SCALE) as i64 },
            y: Scalar { raw: (axis(keys.up, keys.down) * SCALE) as i64 },
        },
        Scalar { raw: SCALE },
    )
}

/// One look for each pointer motion, in order.
pub open spec fn looks_of(motions: Seq<Vector2>) -> Seq<MovementAction> {
    Seq::new(motions.len(), |i: int| MovementAction::Look(motions[i]))
}

/// The actions that the keyboard and the pointer give in one tick. Unless
/// input is enabled there are none. Else: a move if the held keys give a
/// direction, then a jump if the jump key went down, then one look for each
/// pointer motion.
pub open spec fn keyboard_actions(
    keys: KeyboardState,
    motions: Seq<Vector2>,
    input_enabled: bool,
) -> Seq<MovementAction> {
    if input_enabled {
        let direction = keyboard_direction(keys);
        let moves = if direction.x@ != 0 || direction.y@ != 0 {
            seq![MovementAction::Move(direction)]
        } else {
            Seq::empty()
        };
        let jumps = if keys.jump {
            seq![MovementAction::Jump]
        } else {
            Seq::empty()
        };
        moves + jumps + looks_of(motions)
    } else {
        Seq::empty()
    }
}

/// The look delta of a right stick: both axes doubled, the vertical one
/// turned over.
pub open spec fn stick_look(stick: Vector2) -> Vector2 {
    Vector2 {
        x: Scalar { raw: fixed_mul(stick.x@, GAMEPAD_LOOK_SENSITIVITY as int) as i64 },
        y: Scalar { raw: fixed_mul(fixed_neg(stick.y@), GAMEPAD_LOOK_SENSITIVITY as int) as i64 },
    }
}

/// A stick counts only where both of its axes are known.
pub open spec fn stick(x: Option<Scalar>, y: Option<Scalar>) -> Option<Vector2> {
    match (x, y) {
        (Some(x), Some(y)) => Some(Vector2 { x, y }),
        _ => None,
    }
}

/// The actions that one gamepad gives in one tick: a move along its left
/// stick, no longer than one unit; a jump if its jump button went down; a
/// look along its right stick.
pub open spec fn pad_actions(pad: GamepadState) -> Seq<MovementAction> {
    let moves = match stick(pad.left_stick_x, pad.left_stick_y) {
        Some(left) => seq![MovementAction::Move(clamped_to_length(left, Scalar { raw: SCALE }))],
        None => Seq::empty(),
    };
    let jumps = if pad.jump {
        seq![MovementAction::Jump]
    } else {
        Seq::empty()
    };
    let looks = match stick(pad.right_stick_x, pad.right_stick_y) {
        Some(right) => seq![MovementAction::Look(stick_look(right))],
        None => Seq::empty(),
    };
    moves + jumps + looks
}

/// The actions of all gamepads, in the order of the gamepads.
pub open spec fn pads_actions(pads: Seq<GamepadState>) -> Seq<MovementAction>
    decreases pads.len(),
{
    if pads.len() == 0 {
        Seq::empty()
    } else {
        pads_actions(pads.drop_last()) + pad_actions(pads.last())
    }
}

/// The actions that the gamepads give in one tick: none unless input is
/// enabled.
pub open spec fn gamepad_actions(pads: Seq<GamepadState>, input_enabled: bool) -> Seq<
    MovementAction,
> {
    if input_enabled {
        pads_actions(pads)
    } else {
        Seq::empty()
    }
}

/// One unit.
fn unit() -> (r: Scalar)
    ensures
        r@ == SCALE,
{
    Scalar { raw: SCALE }
}

/// One axis from a pair of opposed keys, as a scalar.
fn key_axis(positive: bool, negative: bool) -> (r: Scalar)
    ensures
        r@ == axis(positive, negative) * SCALE,
{
    let p: i64 = if positive { 1 } else { 0 };
    let n: i64 = if negative { 1 } else { 0 };
    Scalar { raw: (p - n) * SCALE }
}

/// Gives the actions of the keyboard and the pointer for one tick; none while
/// no controller listens.
pub fn keyboard_input(keys: &KeyboardState, mouse_motion: &Vec<Vector2>, input_enabled: bool)
    -> (actions: Vec<MovementAction>)
    ensures
        actions@ == keyboard_actions(*keys, mouse_motion@, input_enabled),
{
    let mut actions: Vec<MovementAction> = Vec::new();
    if !input_enabled {
        return actions;
    }
    let horizontal = key_axis(keys.right, keys.left);
    let vertical = key_axis(keys.up, keys.down);
    let direction = Vector2::new(horizontal, vertical).clamp_length_max(unit());
    assert(direction == keyboard_direction(*keys));
    if !direction.is_zero() {
        actions.push(MovementAction::Move(direction));
    }
    if keys.jump {
        actions.push(MovementAction::Jump);
    }
    let ghost head = actions@;
    let mut i: usize = 0;
    while i < mouse_motion.len()
        invariant
            i <= mouse_motion@.len(),
            actions@ == head + looks_of(mouse_motion@.take(i as int)),
        decreases mouse_motion@.len() - i,
    {
        actions.push(MovementAction::Look(mouse_motion[i]));
        assert(looks_of(mouse_motion@.take(i + 1)) =~= looks_of(mouse_motion@.take(i as int)).push(
            MovementAction::Look(mouse_motion@[i as int]),
        ));
        assert(actions@ =~= head + looks_of(mouse_motion@.take(i + 1)));
        i += 1;
    }
    assert(mouse_motion@.take(i as int) =~= mouse_motion@);
    assert(actions@ =~= keyboard_actions(*keys, mouse_motion@, input_enabled));
    actions
}

/// Gives the actions of the gamepads for one tick; none while no controller
/// listens.
pub fn gamepad_input(gamepads: &Vec<GamepadState>, input_enabled: bool) -> (actions: Vec<
    MovementAction,
>)
    ensures
        actions@ == gamepad_actions(gamepads@, input_enabled),
{
    let mut actions: Vec<MovementAction> = Vec::new();
    if !input_enabled {
        return actions;
    }
    let look_sensitivity = Scalar { raw: GAMEPAD_LOOK_SENSITIVITY };
    let mut i: usize = 0;
    while i < gamepads.len()
        invariant
            i <= gamepads@.len(),
            look_sensitivity@ == GAMEPAD_LOOK_SENSITIVITY,
            actions@ == pads_actions(gamepads@.take(i as int)),
        decreases gamepads@.len() - i,
    {
        let ghost head = actions@;
        let gamepad = gamepads[i];
        if let (Some(x), Some(y)) = (gamepad.left_stick_x, gamepad.left_stick_y) {
            actions.push(MovementAction::Move(Vector2::new(x, y).clamp_length_max(unit())));
        }
        if gamepad.jump {
            actions.push(MovementAction::Jump);
        }
        if let (Some(x), Some(y)) = (gamepad.right_stick_x, gamepad.right_stick_y) {
            actions.push(
                MovementAction::Look(
                    Vector2::new(x.mul(look_sensitivity), y.neg().mul(look_sensitivity)),
                ),
            );
        }
        assert(gamepads@.take(i + 1).drop_last() =~= gamepads@.take(i as int));
        assert(actions@ =~= head + pad_actions(gamepad));
        i += 1;
    }
    assert(gamepads@.take(i as int) =~= gamepads@);
    actions
}

/// The pointer settings after a tick in which the grab button went down
/// (`grab`) or the release key went down (`release`): released if the release
/// key went down, else grabbed if the grab button did, else as before.
pub open spec fn cursor_after(cursor: CursorOptions, grab: bool, release: bool) -> CursorOptions {
    if release {
        CursorOptions { grab_mode: CursorGrabMode::Free, visible: true }
    } else if grab {
        CursorOptions { grab_mode: CursorGrabMode::Locked, visible: false }
    } else {
        cursor
    }
}

/// Whether a controller listens to input after such a tick.
pub open spec fn enabled_after(enabled: bool, grab: bool, release: bool) -> bool {
    if release {
        false
    } else if grab {
        true
    } else {
        enabled
    }
}

/// The controller with its input switched as the tick asks.
pub open spec fn after_cursor(controller: FpsController, grab: bool, release: bool)
    -> FpsController {
    FpsController { enable_input: enabled_after(controller.enable_input, grab, release) }
}

/// Whether any of the controllers listens to input.
pub open spec fn any_enabled(controllers: Seq<FpsController>) -> bool {
    exists|i: int| 0 <= i < controllers.len() && #[trigger] controllers[i].enable_input
}

/// Holds or frees the pointer, and switches every controller's input with it.
pub fn manage_cursor(
    grab: bool,
    release: bool,
    cursor_options: &mut CursorOptions,
    controllers: &mut Vec<FpsController>,
)
    ensures
        *final(cursor_options) == cursor_after(*old(cursor_options), grab, release),
        final(controllers)@.len() == old(controllers)@.len(),
        forall|i: int|
            0 <= i < old(controllers)@.len() ==> final(controllers)@[i] == after_cursor(
                old(controllers)@[i],
                grab,
                release,
            ),
{
    if grab {
        cursor_options.grab_mode = CursorGrabMode::Locked;
        cursor_options.visible = false;
    }
    if release {
        cursor_options.grab_mode = CursorGrabMode::Free;
        cursor_options.visible = true;
    }
    let ghost before = controllers@;
    let mut i: usize = 0;
    while i < controllers.len()
        invariant
            i <= controllers@.len(),
            controllers@.len() == before.len(),
            forall|j: int| 0 <= j < i ==> controllers@[j] == after_cursor(before[j], grab, release),
            forall|j: int| i <= j < before.len() ==> controllers@[j] == before[j],
        decreases controllers@.len() - i,
    {
        let mut controller = controllers[i];
        if grab {
            controller.enable_input = true;
        }
        if release {
            controller.enable_input = false;
        }
        controllers.set(i, controller);
        i += 1;
    }
}

/// Tells whether any of the controllers listens to input.
pub fn input_enabled(controllers: &Vec<FpsController>) -> (r: bool)
    ensures
        r == any_enabled(controllers@),
{
    let mut i: usize = 0;
    while i < controllers.len()
        invariant
            i <= controllers@.len(),
            forall|j: int| 0 <= j < i ==> !controllers@[j].enable_input,
        decreases controllers@.len() - i,
    {
        if controllers[i].enable_input {
            return true;
        }
        i += 1;
    }
    false
}

/// The place of the last move among `actions`, or -1 where there is none.
pub open spec fn last_move(actions: Seq<MovementAction>) -> int
    decreases actions.len(),
{
    if actions.len() == 0 {
        -1
    } else if actions.last() is Move {
        actions.len() - 1
    } else {
        last_move(actions.drop_last())
    }
}

/// The first `n` of `actions` without the moves that stand elsewhere than at
/// `keep`.
pub open spec fn kept_upto(actions: Seq<MovementAction>, keep: int, n: nat) -> Seq<MovementAction>
    decreases n,
{
    if n == 0 || n > actions.len() {
        Seq::empty()
    } else {
        let head = kept_upto(actions, keep, (n - 1) as nat);
        if actions[n - 1] is Move && n - 1 != keep {
            head
        } else {
            head.push(actions[n - 1])
        }
    }
}

/// `actions` with at most one move: the last one written stays, the moves
/// before it are dropped, and everything else stays in its order.
pub open spec fn single_move(actions: Seq<MovementAction>) -> Seq<MovementAction> {
    kept_upto(actions, last_move(actions), actions.len())
}

/// The place of the last move is a place of `actions`, or -1; a move stands
/// there, and none after it.
pub proof fn lemma_last_move(actions: Seq<MovementAction>)
    ensures
        -1 <= last_move(actions) < actions.len(),
        last_move(actions) >= 0 ==> actions[last_move(actions)] is Move,
        forall|j: int| last_move(actions) < j < actions.len() ==> !(#[trigger] actions[j] is Move),
    decreases actions.len(),
{
    if actions.len() > 0 && !(actions.last() is Move) {
        let front = actions.drop_last();
        lemma_last_move(front);
        assert forall|j: int| last_move(actions) < j < actions.len() implies !(
        #[trigger] actions[j] is Move) by {
            if j < front.len() {
                assert(front[j] == actions[j]);
            }
        }
    }
}

/// The tick's queue of actions: those of the keyboard and pointer, then those
/// of the gamepads, with only the last move kept.
pub fn aggregate_input(
    keys: &KeyboardState,
    mouse_motion: &Vec<Vector2>,
    gamepads: &Vec<GamepadState>,
    input_enabled: bool,
) -> (queue: Vec<MovementAction>)
    ensures
        queue@ == single_move(
            keyboard_actions(*keys, mouse_motion@, input_enabled) + gamepad_actions(
                gamepads@,
                input_enabled,
            ),
        ),
{
    let mut written = keyboard_input(keys, mouse_motion, input_enabled);
    let mut from_pads = gamepad_input(gamepads, input_enabled);
    written.append(&mut from_pads);
    keep_last_move(&written)
}

/// Drops every move but the last one written.
pub fn keep_last_move(actions: &Vec<MovementAction>) -> (kept: Vec<MovementAction>)
    ensures
        kept@ == single_move(actions@),
{
    let mut last: Option<usize> = None;
    let mut i: usize = 0;
    while i < actions.len()
        invariant
            i <= actions@.len(),
            match last {
                Some(at) => at as int == last_move(actions@.take(i as int)),
                None => last_move(actions@.take(i as int)) == -1,
            },
        decreases actions@.len() - i,
    {
        assert(actions@.take(i + 1).drop_last() =~= actions@.take(i as int));
        if let MovementAction::Move(_) = actions[i] {
            last = Some(i);
        }
        i += 1;
    }
    assert(actions@.take(i as int) =~= actions@);
    let ghost keep = last_move(actions@);
    let mut kept: Vec<MovementAction> = Vec::new();
    let mut n: usize = 0;
    while n < actions.len()
        invariant
            n <= actions@.len(),
            keep == last_move(actions@),
            match last {
                Some(at) => at as int == keep,
                None => keep == -1,
            },
            kept@ == kept_upto(actions@, keep, n as nat),
        decreases actions@.len() - n,
    {
        let action = actions[n];
        let dropped = match action {
            MovementAction::Move(_) => match last {
                Some(at) => at != n,
                None => true,
            },
            _ => false,
        };
        if !dropped {
            kept.push(action);
        }
        n += 1;
    }
    kept
}

/// How many moves stand among `actions`.
pub open spec fn moves_in(actions: Seq<MovementAction>) -> nat
    decreases actions.len(),
{
    if actions.len() == 0 {
        0
    } else {
        moves_in(actions.drop_last()) + (if actions.last() is Move { 1nat } else { 0nat })
    }
}

/// The jumps and looks among `actions`, in their order.
pub open spec fn others_in(actions: Seq<MovementAction>) -> Seq<MovementAction>
    decreases actions.len(),
{
    if actions.len() == 0 {
        Seq::empty()
    } else if actions.last() is Move {
        others_in(actions.drop_last())
    } else {
        others_in(actions.drop_last()).push(actions.last())
    }
}

/// What holds of the first `n` actions once all moves but the one at `keep`
/// are dropped.
proof fn lemma_kept_upto(actions: Seq<MovementAction>, keep: int, n: nat)
    requires
        n <= actions.len(),
        keep == last_move(actions),
    ensures
        others_in(kept_upto(actions, keep, n)) == others_in(actions.take(n as int)),
        moves_in(kept_upto(actions, keep, n)) == (if 0 <= keep < n { 1nat } else { 0nat }),
        0 <= keep < n ==> {
            let kept = kept_upto(actions, keep, n);
            0 <= last_move(kept) < kept.len() && kept[last_move(kept)] == actions[keep]
        },
    decreases n,
{
    lemma_last_move(actions);
    if n > 0 {
        let m = (n - 1) as nat;
        lemma_kept_upto(actions, keep, m);
        let head = kept_upto(actions, keep, m);
        let kept = kept_upto(actions, keep, n);
        assert(actions.take(n as int).drop_last() =~= actions.take(m as int));
        assert(actions.take(n as int).last() == actions[m as int]);
        if !(actions[m as int] is Move && m != keep) {
            assert(kept == head.push(actions[m as int]));
            assert(kept.drop_last() =~= head);
            assert(kept.last() == actions[m as int]);
        }
    }
}

/// The queue holds at most one move, the last one written, and every jump and
/// look that was written, in the order of writing.
pub proof fn lemma_single_move(actions: Seq<MovementAction>)
    ensures
        moves_in(single_move(actions)) <= 1,
        moves_in(single_move(actions)) == 1 <==> last_move(actions) >= 0,
        last_move(actions) >= 0 ==> {
            let queue = single_move(actions);
            0 <= last_move(queue) < queue.len() && queue[last_move(queue)]
                == actions[last_move(actions)]
        },
        others_in(single_move(actions)) == others_in(actions),
{
    lemma_last_move(actions);
    lemma_kept_upto(actions, last_move(actions), actions.len());
    assert(actions.take(actions.len() as int) =~= actions);
}

} // verus!
