use hex_world::util::input::{key_effect, KeyEffect, MoveKey};

#[test]
fn movement_keys_move_one_axis() {
    assert_eq!(key_effect(MoveKey::W, true, false), KeyEffect::Move(0, 1));
    assert_eq!(key_effect(MoveKey::S, true, false), KeyEffect::Move(0, -1));
    assert_eq!(key_effect(MoveKey::A, true, false), KeyEffect::Move(-1, 0));
    assert_eq!(key_effect(MoveKey::D, true, false), KeyEffect::Move(1, 0));
    assert_eq!(key_effect(MoveKey::W, false, false), KeyEffect::Move(0, -1));
    assert_eq!(key_effect(MoveKey::S, false, false), KeyEffect::Move(0, 1));
    assert_eq!(key_effect(MoveKey::A, false, false), KeyEffect::Move(1, 0));
    assert_eq!(key_effect(MoveKey::D, false, false), KeyEffect::Move(-1, 0));
}

#[test]
fn other_keys_are_pressed_and_released() {
    assert_eq!(key_effect(MoveKey::Other, true, false), KeyEffect::Press);
    assert_eq!(key_effect(MoveKey::Other, false, false), KeyEffect::Release);
}

#[test]
fn repeats_are_ignored() {
    for key in [MoveKey::W, MoveKey::A, MoveKey::S, MoveKey::D, MoveKey::Other] {
        assert_eq!(key_effect(key, true, true), KeyEffect::Ignore);
        assert_eq!(key_effect(key, false, true), KeyEffect::Ignore);
    }
}

#[test]
fn press_then_release_cancels() {
    for key in [MoveKey::W, MoveKey::A, MoveKey::S, MoveKey::D] {
        match (key_effect(key, true, false), key_effect(key, false, false)) {
            (KeyEffect::Move(a, b), KeyEffect::Move(c, d)) => {
                assert_eq!((a + c, b + d), (0, 0));
                assert!(a != 0 || b != 0);
            }
            _ => panic!("a movement key must move"),
        }
    }
}
