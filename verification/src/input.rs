//! Turning pressed direction keys into a direction.
//!
//! The keyboard is read through bevy's `Input<KeyCode>`, the set of keys that
//! are down. Of those only the four arrow keys matter here. What bevy does is
//! taken on trust, in the few places that say so; the rule that turns keys
//! into a direction is proved.

use bevy::input::keyboard::KeyCode;
use bevy::input::Input;
use vstd::prelude::*;
use crate::geometry::Vec2;

verus! {

/// bevy's `Input`: the state of a set of buttons. Its inside is not looked
/// at; [`held`] stands for what it holds.
#[verifier::external_type_specification]
#[verifier::external_body]
#[verifier::reject_recursive_types(T)]
pub struct ExInput<T>(Input<T>);

/// bevy's `KeyCode`: the name of a key. It only serves to say which buttons a
/// keyboard state is about.
#[verifier::external_type_specification]
#[verifier::external_body]
pub struct ExKeyCode(KeyCode);

/// One of the four direction keys.
#[derive(Clone, Copy, Debug, PartialEq, Eq, Structural)]
pub enum Arrow {
    Left,
    Right,
    Down,
    Up,
}

/// The arrow keys among the keys that a keyboard state holds as pressed.
///
/// This is a name for what bevy keeps inside the state: nothing is proved of
/// it, and all that is claimed of it is that [`pressed`] looks keys up in it.
pub uninterp spec fn held(keyboard_input: Input<KeyCode>) -> Set<Arrow>;

/// The pull along one axis: the key towards the negative side wins over the
/// one towards the positive side.
pub open spec fn axis_pull(negative: bool, positive: bool) -> int {
    if negative {
        -1
    } else if positive {
        1
    } else {
        0
    }
}

/// The direction in which a set of held arrow keys pushes: one step left or
/// right, one step down or up, or none.
pub open spec fn push(held: Set<Arrow>) -> Vec2 {
    Vec2 {
        x: axis_pull(held.contains(Arrow::Left), held.contains(Arrow::Right)) as i32,
        y: axis_pull(held.contains(Arrow::Down), held.contains(Arrow::Up)) as i32,
    }
}

/// Asks bevy's `Input::pressed` about one arrow key.
///
/// Taken on trust: `Input::pressed` tells whether the key is in the set of
/// pressed keys that the state holds, and leaves the state as it is.
#[verifier::external_body]
fn pressed(keyboard_input: &Input<KeyCode>, arrow: Arrow) -> (down: bool)
    ensures
        down == held(*keyboard_input).contains(arrow),
{
    let key = match arrow {
        Arrow::Left => KeyCode::Left,
        Arrow::Right => KeyCode::Right,
        Arrow::Down => KeyCode::Down,
        Arrow::Up => KeyCode::Up,
    };
    keyboard_input.pressed(key)
}

fn pull(negative: bool, positive: bool) -> (p: i32)
    ensures
        p == axis_pull(negative, positive),
{
    if negative {
        -1
    } else if positive {
        1
    } else {
        0
    }
}

/// The direction in which four direction inputs push an agent: one step left
/// or right, one step down or up, or none. Left wins over right, and down
/// over up.
pub fn key_direction(left: bool, right: bool, down: bool, up: bool) -> (direction: Vec2)
    ensures
        direction.x == axis_pull(left, right),
        direction.y == axis_pull(down, up),
        direction.is_null() <==> !(left || right || down || up),
{
    Vec2 { x: pull(left, right), y: pull(down, up) }
}

/// The direction in which the arrow keys that are down push an agent. There
/// is a direction exactly when an arrow key is down.
pub fn keyboard_direction(keyboard_input: &Input<KeyCode>) -> (direction: Vec2)
    ensures
        direction == push(held(*keyboard_input)),
        direction.is_null() <==> held(*keyboard_input) == Set::<Arrow>::empty(),
{
    let direction = key_direction(
        pressed(keyboard_input, Arrow::Left),
        pressed(keyboard_input, Arrow::Right),
        pressed(keyboard_input, Arrow::Down),
        pressed(keyboard_input, Arrow::Up),
    );
    proof {
        if direction.is_null() {
            assert forall|arrow: Arrow| !held(*keyboard_input).contains(arrow) by {
                match arrow {
                    Arrow::Left => {},
                    Arrow::Right => {},
                    Arrow::Down => {},
                    Arrow::Up => {},
                }
            }
            assert(held(*keyboard_input) == Set::<Arrow>::empty());
        }
    }
    direction
}

} // verus!
