//! What a key does to the player.

use vstd::prelude::*;
use crate::player::Player;

verus! {

/// How far one key press moves the player: half a block (`1 << 7` in q8).
pub const MOVE_STEP: i32 = 128;

/// The keys the game listens to; every other key is `Other`.
#[derive(Clone, Copy, Debug, PartialEq, Eq, Structural)]
pub enum Key {
    Escape,
    ShiftLeft,
    Space,
    KeyA,
    KeyD,
    KeyS,
    KeyW,
    ArrowLeft,
    ArrowRight,
    ArrowUp,
    ArrowDown,
    Other,
}

/// What the front end has to do after a key event.
#[derive(Clone, Copy, Debug, PartialEq, Eq, Structural)]
pub enum KeyAction {
    /// The key was released: nothing to do.
    Released,
    /// Leave the game.
    Exit,
    /// The player moved.
    Moved,
    /// Turn the view left, right, up or down by one step.
    LookLeft,
    LookRight,
    LookUp,
    LookDown,
    /// A key that does nothing was pressed.
    Unbound,
}

/// How a pressed key moves the player, in q8: (x, y, z).
pub open spec fn key_move(key: Key) -> (int, int, int) {
    match key {
        Key::ShiftLeft => (0, -MOVE_STEP as int, 0),
        Key::Space => (0, MOVE_STEP as int, 0),
        Key::KeyA => (-MOVE_STEP as int, 0, 0),
        Key::KeyD => (MOVE_STEP as int, 0, 0),
        Key::KeyS => (0, 0, -MOVE_STEP as int),
        Key::KeyW => (0, 0, MOVE_STEP as int),
        _ => (0, 0, 0),
    }
}

/// What the front end does for a pressed key.
pub open spec fn key_action(key: Key) -> KeyAction {
    match key {
        Key::Escape => KeyAction::Exit,
        Key::ShiftLeft | Key::Space | Key::KeyA | Key::KeyD | Key::KeyS | Key::KeyW => KeyAction::Moved,
        Key::ArrowLeft => KeyAction::LookLeft,
        Key::ArrowRight => KeyAction::LookRight,
        Key::ArrowUp => KeyAction::LookUp,
        Key::ArrowDown => KeyAction::LookDown,
        Key::Other => KeyAction::Unbound,
    }
}

/// Whether the move of a pressed key keeps the player's coordinates within
/// their types.
pub open spec fn key_move_fits(player: Player, key: Key) -> bool {
    let (dx, dy, dz) = key_move(key);
    &&& i32::MIN <= player.position_x + dx <= i32::MAX
    &&& i16::MIN <= player.position_y + dy <= i16::MAX
    &&& i32::MIN <= player.position_z + dz <= i32::MAX
}

/// Opposite movement keys undo each other: shift and space, A and D, S and
/// W move by opposite amounts, and every other key moves nothing.
pub proof fn lemma_opposite_keys_cancel()
    ensures
        key_move(Key::ShiftLeft).1 + key_move(Key::Space).1 == 0,
        key_move(Key::KeyA).0 + key_move(Key::KeyD).0 == 0,
        key_move(Key::KeyS).2 + key_move(Key::KeyW).2 == 0,
        forall|k: Key|
            key_action(k) != KeyAction::Moved ==> #[trigger] key_move(k) == (0int, 0int, 0int),
        forall|k: Key|
            #![trigger key_move(k)]
            key_action(k) == KeyAction::Moved ==> (key_move(k).0 != 0) as int + (key_move(k).1
                != 0) as int + (key_move(k).2 != 0) as int == 1,
{
}

/// Whether `key_input` accepts the event.
pub fn key_input_allowed(key: Key, pressed: bool, player: &Player) -> (ok: bool)
    ensures
        ok == (pressed ==> key_move_fits(*player, key)),
{
    if !pressed {
        return true;
    }
    match key {
        Key::ShiftLeft => player.position_y >= i16::MIN + 128,
        Key::Space => player.position_y <= i16::MAX - 128,
        Key::KeyA => player.position_x >= i32::MIN + MOVE_STEP,
        Key::KeyD => player.position_x <= i32::MAX - MOVE_STEP,
        Key::KeyS => player.position_z >= i32::MIN + MOVE_STEP,
        Key::KeyW => player.position_z <= i32::MAX - MOVE_STEP,
        _ => true,
    }
}

/// Handle a key event: a pressed movement key moves the player by half a
/// block along its axis; the front end is told what else to do.
pub fn key_input(key: Key, pressed: bool, player: &mut Player) -> (action: KeyAction)
    requires
        pressed ==> key_move_fits(*old(player), key),
    ensures
        final(player).world == old(player).world,
        !pressed ==> action == KeyAction::Released && *final(player) == *old(player),
        pressed ==> action == key_action(key) && ({
            let (dx, dy, dz) = key_move(key);
            &&& final(player).position_x == old(player).position_x + dx
            &&& final(player).position_y == old(player).position_y + dy
            &&& final(player).position_z == old(player).position_z + dz
        }),
{
    if !pressed {
        return KeyAction::Released;
    }
    match key {
        Key::Escape => KeyAction::Exit,
        Key::ShiftLeft => {
            player.position_y = player.position_y - 128;
            KeyAction::Moved
        },
        Key::Space => {
            player.position_y = player.position_y + 128;
            KeyAction::Moved
        },
        Key::KeyA => {
            player.position_x = player.position_x - MOVE_STEP;
            KeyAction::Moved
        },
        Key::KeyD => {
            player.position_x = player.position_x + MOVE_STEP;
            KeyAction::Moved
        },
        Key::KeyS => {
            player.position_z = player.position_z - MOVE_STEP;
            KeyAction::Moved
        },
        Key::KeyW => {
            player.position_z = player.position_z + MOVE_STEP;
            KeyAction::Moved
        },
        Key::ArrowLeft => KeyAction::LookLeft,
        Key::ArrowRight => KeyAction::LookRight,
        Key::ArrowUp => KeyAction::LookUp,
        Key::ArrowDown => KeyAction::LookDown,
        Key::Other => KeyAction::Unbound,
    }
}

} // verus!
