use vstd::prelude::*;

verus! {

/// A keyboard key as movement input sees it: one of the four movement keys,
/// or any other key.
#[derive(Copy, Clone, Debug, PartialEq, Eq, Structural)]
pub enum MoveKey {
    W,
    A,
    S,
    D,
    Other,
}

/// What one key event does to the input state: move along the axes by
/// `(dx, dy)`, add the key to the pressed keys, remove it from them, or
/// nothing.
#[derive(Copy, Clone, Debug, PartialEq, Eq, Structural)]
pub enum KeyEffect {
    Move(i8, i8),
    Press,
    Release,
    Ignore,
}

/// The effect of a key event. Repeats are ignored; W and S move up and
/// down, A and D left and right while held (the reverse step on release);
/// any other key is pressed or released.
pub open spec fn spec_key_effect(key: MoveKey, pressed: bool, repeat: bool) -> KeyEffect {
    if repeat {
        KeyEffect::Ignore
    } else if pressed {
        match key {
            MoveKey::W => KeyEffect::Move(0, 1),
            MoveKey::S => KeyEffect::Move(0, -1i8),
            MoveKey::D => KeyEffect::Move(1, 0),
            MoveKey::A => KeyEffect::Move(-1i8, 0),
            MoveKey::Other => KeyEffect::Press,
        }
    } else {
        match key {
            MoveKey::W => KeyEffect::Move(0, -1i8),
            MoveKey::S => KeyEffect::Move(0, 1),
            MoveKey::D => KeyEffect::Move(-1i8, 0),
            MoveKey::A => KeyEffect::Move(1, 0),
            MoveKey::Other => KeyEffect::Release,
        }
    }
}

/// Decides what a key event does to the movement and the pressed keys.
pub fn key_effect(key: MoveKey, pressed: bool, repeat: bool) -> (e: KeyEffect)
    ensures
        e == spec_key_effect(key, pressed, repeat),
{
    if repeat {
        KeyEffect::Ignore
    } else if pressed {
        match key {
            MoveKey::S => KeyEffect::Move(0, -1),
            MoveKey::W => KeyEffect::Move(0, 1),
            MoveKey::A => KeyEffect::Move(-1, 0),
            MoveKey::D => KeyEffect::Move(1, 0),
            MoveKey::Other => KeyEffect::Press,
        }
    } else {
        match key {
            MoveKey::S => KeyEffect::Move(0, 1),
            MoveKey::W => KeyEffect::Move(0, -1),
            MoveKey::A => KeyEffect::Move(1, 0),
            MoveKey::D => KeyEffect::Move(-1, 0),
            MoveKey::Other => KeyEffect::Release,
        }
    }
}

/// Pressing a key and then releasing it leaves the input as it was: the
/// two moves of a movement key cancel, and any other key is pressed and then
/// released. Repeated events change nothing.
pub proof fn lemma_press_release_cancels(key: MoveKey)
    ensures
        spec_key_effect(key, true, true) == KeyEffect::Ignore,
        spec_key_effect(key, false, true) == KeyEffect::Ignore,
        match (spec_key_effect(key, true, false), spec_key_effect(key, false, false)) {
            (KeyEffect::Move(a, b), KeyEffect::Move(c, d)) => key != MoveKey::Other && a + c == 0
                && b + d == 0 && (a != 0 || b != 0),
            (KeyEffect::Press, KeyEffect::Release) => key == MoveKey::Other,
            _ => false,
        },
{
}

} // verus!

verus! {

/// W and S move along the vertical axis in opposite directions, W upwards;
/// D and A along the horizontal axis in opposite directions, D to the right.
pub proof fn lemma_movement_axes(pressed: bool)
    ensures
        ({
            let w = spec_key_effect(MoveKey::W, pressed, false);
            let s = spec_key_effect(MoveKey::S, pressed, false);
            let d = spec_key_effect(MoveKey::D, pressed, false);
            let a = spec_key_effect(MoveKey::A, pressed, false);
            &&& w matches KeyEffect::Move(wx, wy) && wx == 0 && (pressed ==> wy > 0) && (!pressed
                ==> wy < 0)
            &&& s matches KeyEffect::Move(sx, sy) && sx == 0 && (w matches KeyEffect::Move(_, wy2) && wy2 == -sy)
            &&& d matches KeyEffect::Move(dx, dy) && dy == 0 && (pressed ==> dx > 0) && (!pressed
                ==> dx < 0)
            &&& a matches KeyEffect::Move(ax, ay) && ay == 0 && (d matches KeyEffect::Move(dx2, _) && dx2 == -ax)
        }),
{
}

} // verus!
