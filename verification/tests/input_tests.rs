use minicrust::input::{key_input, key_input_allowed, Key, KeyAction};
use minicrust::player::Player;
use minicrust::world::World;

#[test]
fn player_starts_at_spawn() {
    let p = Player::new(World::new());
    assert_eq!((p.position_x, p.position_y, p.position_z), (0, 13 << 8, 0));
}

#[test]
fn movement_keys() {
    let mut p = Player::new(World::new());
    assert_eq!(key_input(Key::KeyD, true, &mut p), KeyAction::Moved);
    assert_eq!(p.position_x, 128);
    assert_eq!(key_input(Key::KeyW, true, &mut p), KeyAction::Moved);
    assert_eq!(p.position_z, 128);
    assert_eq!(key_input(Key::Space, true, &mut p), KeyAction::Moved);
    assert_eq!(p.position_y, (13 << 8) + 128);
    assert_eq!(key_input(Key::ShiftLeft, true, &mut p), KeyAction::Moved);
    assert_eq!(key_input(Key::KeyA, true, &mut p), KeyAction::Moved);
    assert_eq!(key_input(Key::KeyS, true, &mut p), KeyAction::Moved);
    assert_eq!((p.position_x, p.position_y, p.position_z), (0, 13 << 8, 0));
}

#[test]
fn released_keys_do_nothing() {
    let mut p = Player::new(World::new());
    assert_eq!(key_input(Key::KeyD, false, &mut p), KeyAction::Released);
    assert_eq!(key_input(Key::Escape, false, &mut p), KeyAction::Released);
    assert_eq!(p.position_x, 0);
}

#[test]
fn other_actions() {
    let mut p = Player::new(World::new());
    assert_eq!(key_input(Key::Escape, true, &mut p), KeyAction::Exit);
    assert_eq!(key_input(Key::ArrowLeft, true, &mut p), KeyAction::LookLeft);
    assert_eq!(key_input(Key::ArrowRight, true, &mut p), KeyAction::LookRight);
    assert_eq!(key_input(Key::ArrowUp, true, &mut p), KeyAction::LookUp);
    assert_eq!(key_input(Key::ArrowDown, true, &mut p), KeyAction::LookDown);
    assert_eq!(key_input(Key::Other, true, &mut p), KeyAction::Unbound);
    assert_eq!((p.position_x, p.position_y, p.position_z), (0, 13 << 8, 0));
}

#[test]
fn overflowing_moves_are_refused() {
    let mut p = Player::new(World::new());
    p.position_y = i16::MAX - 100;
    assert!(!key_input_allowed(Key::Space, true, &p));
    assert!(key_input_allowed(Key::Space, false, &p));
    assert!(key_input_allowed(Key::ShiftLeft, true, &p));
    p.position_x = i32::MIN;
    assert!(!key_input_allowed(Key::KeyA, true, &p));
    assert!(key_input_allowed(Key::KeyD, true, &p));
}
