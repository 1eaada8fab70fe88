use visual::keyboard::{Key, KeyInput, KeyboardState};
use visual::util::{movement_delta, Direction8};

fn keyboard_with(left: bool, right: bool, up: bool, down: bool) -> KeyboardState {
    let mut keyboard = KeyboardState::default();
    keyboard.update(KeyInput::Left, left);
    keyboard.update(KeyInput::Right, right);
    keyboard.update(KeyInput::Up, up);
    keyboard.update(KeyInput::Down, down);
    keyboard
}

#[test]
fn direction_single_keys() {
    assert_eq!(keyboard_with(true, false, false, false).direction(), Ok(Direction8::Left));
    assert_eq!(keyboard_with(false, true, false, false).direction(), Ok(Direction8::Right));
    assert_eq!(keyboard_with(false, false, true, false).direction(), Ok(Direction8::Up));
    assert_eq!(keyboard_with(false, false, false, true).direction(), Ok(Direction8::Down));
}

#[test]
fn direction_diagonals() {
    assert_eq!(keyboard_with(true, false, true, false).direction(), Ok(Direction8::LeftUp));
    assert_eq!(keyboard_with(true, false, false, true).direction(), Ok(Direction8::LeftDown));
    assert_eq!(keyboard_with(false, true, true, false).direction(), Ok(Direction8::RightUp));
    assert_eq!(keyboard_with(false, true, false, true).direction(), Ok(Direction8::RightDown));
}

#[test]
fn direction_three_keys_cancel_two() {
    assert_eq!(keyboard_with(true, false, true, true).direction(), Ok(Direction8::Left));
    assert_eq!(keyboard_with(false, true, true, true).direction(), Ok(Direction8::Right));
    assert_eq!(keyboard_with(true, true, true, false).direction(), Ok(Direction8::Up));
    assert_eq!(keyboard_with(true, true, false, true).direction(), Ok(Direction8::Down));
}

#[test]
fn direction_none() {
    assert_eq!(keyboard_with(false, false, false, false).direction(), Err("Not a direction!"));
    assert_eq!(keyboard_with(true, true, false, false).direction(), Err("Not a direction!"));
    assert_eq!(keyboard_with(false, false, true, true).direction(), Err("Not a direction!"));
    assert_eq!(keyboard_with(true, true, true, true).direction(), Err("Not a direction!"));
}

#[test]
fn direction_matches_net_movement() {
    // Every combination: a direction exactly when the keys do not cancel, and
    // then its step is the net of the held keys.
    for bits in 0..16u8 {
        let (l, r, u, d) = (bits & 1 != 0, bits & 2 != 0, bits & 4 != 0, bits & 8 != 0);
        let net = (r as i8 - l as i8, u as i8 - d as i8);
        match keyboard_with(l, r, u, d).direction() {
            Ok(dir) => assert_eq!(movement_delta(dir), net),
            Err(_) => assert_eq!(net, (0, 0)),
        }
    }
}

#[test]
fn wasd_drive_the_same_keys_as_arrows() {
    let mut keyboard = KeyboardState::default();
    keyboard.update(KeyInput::A, true);
    assert!(keyboard.left.is_down);
    keyboard.update(KeyInput::W, true);
    assert!(keyboard.up.is_down);
    assert_eq!(keyboard.direction(), Ok(Direction8::LeftUp));
    keyboard.update(KeyInput::D, true);
    assert!(keyboard.right.is_down);
    keyboard.update(KeyInput::S, true);
    assert!(keyboard.down.is_down);
    keyboard.update(KeyInput::Space, true);
    assert!(keyboard.space.is_down);
    keyboard.update(KeyInput::Left, false);
    assert!(!keyboard.left.is_down);
}

#[test]
fn other_keys_change_nothing() {
    let mut keyboard = KeyboardState::default();
    keyboard.update(KeyInput::P, true);
    keyboard.update(KeyInput::X, true);
    keyboard.update(KeyInput::Other, true);
    assert!(!keyboard.left.is_down && !keyboard.right.is_down);
    assert!(!keyboard.up.is_down && !keyboard.down.is_down && !keyboard.space.is_down);
}

#[test]
fn key_update_records_state() {
    let mut key = Key::default();
    assert!(!key.is_down);
    key.update(true);
    assert!(key.is_down);
    key.update(false);
    assert!(!key.is_down);
}

#[test]
fn movement_deltas() {
    assert_eq!(movement_delta(Direction8::Left), (-1, 0));
    assert_eq!(movement_delta(Direction8::Right), (1, 0));
    assert_eq!(movement_delta(Direction8::Up), (0, 1));
    assert_eq!(movement_delta(Direction8::Down), (0, -1));
    assert_eq!(movement_delta(Direction8::LeftUp), (-1, 1));
    assert_eq!(movement_delta(Direction8::LeftDown), (-1, -1));
    assert_eq!(movement_delta(Direction8::RightUp), (1, 1));
    assert_eq!(movement_delta(Direction8::RightDown), (1, -1));
}

fn mirror_x(d: Direction8) -> Direction8 {
    match d {
        Direction8::Left => Direction8::Right,
        Direction8::Right => Direction8::Left,
        Direction8::LeftUp => Direction8::RightUp,
        Direction8::RightUp => Direction8::LeftUp,
        Direction8::LeftDown => Direction8::RightDown,
        Direction8::RightDown => Direction8::LeftDown,
        other => other,
    }
}

#[test]
fn swapping_left_and_right_mirrors_the_direction() {
    for bits in 0..16u8 {
        let (l, r, u, d) = (bits & 1 != 0, bits & 2 != 0, bits & 4 != 0, bits & 8 != 0);
        let direction = keyboard_with(l, r, u, d).direction();
        let mirrored = keyboard_with(r, l, u, d).direction();
        assert_eq!(mirrored.map(|_| ()), direction.map(|_| ()));
        if let (Ok(a), Ok(b)) = (direction, mirrored) {
            assert_eq!(b, mirror_x(a));
        }
    }
}

#[test]
fn distinct_directions_move_differently() {
    let all = [
        Direction8::Left,
        Direction8::Right,
        Direction8::Up,
        Direction8::Down,
        Direction8::LeftUp,
        Direction8::LeftDown,
        Direction8::RightUp,
        Direction8::RightDown,
    ];
    for a in all {
        for b in all {
            assert_eq!(movement_delta(a) == movement_delta(b), a == b);
        }
    }
}

#[test]
fn all_keys_held_is_not_a_direction() {
    let keyboard = keyboard_with(true, true, true, true);
    assert_eq!(keyboard.direction(), Err("Not a direction!"));
}

#[test]
fn key_update_at_records_press_moment() {
    let mut key = Key::default();
    let moment = std::time::Instant::now();
    key.update_at(true, moment);
    assert!(key.is_down);
    key.update_at(false, std::time::Instant::now());
    assert!(!key.is_down);
}

#[test]
fn keyboard_update_at_drives_one_key() {
    let mut keyboard = KeyboardState::default();
    let moment = std::time::Instant::now();
    keyboard.update_at(KeyInput::D, true, moment);
    assert!(keyboard.right.is_down);
    assert!(!keyboard.left.is_down && !keyboard.up.is_down && !keyboard.down.is_down);
    keyboard.update_at(KeyInput::Right, false, std::time::Instant::now());
    assert!(!keyboard.right.is_down);
    keyboard.update_at(KeyInput::X, true, moment);
    assert_eq!(keyboard.direction(), Err("Not a direction!"));
}
