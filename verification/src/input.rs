//! Keys and buttons, and which of the game's own they press.

use vstd::prelude::*;

verus! {

/// A key, by its place on the keyboard, so that the mapping stays put
/// whatever the layout.
#[derive(Clone, Copy, PartialEq, Eq, Structural)]
pub enum Key {
    Z,
    X,
    Backspace,
    Enter,
    Right,
    Left,
    Up,
    Down,
    S,
    A,
    /// Any other key.
    Other,
}

/// A button of a gamepad.
#[derive(Clone, Copy, PartialEq, Eq, Structural)]
pub enum PadButton {
    South,
    East,
    Back,
    Start,
    Right,
    Left,
    Up,
    Down,
    RightShoulder,
    LeftShoulder,
    /// Any other button.
    Other,
}

/// A key of the game console.
#[derive(Clone, Copy, PartialEq, Eq, Structural)]
pub enum Pressed {
    A,
    B,
    Select,
    Start,
    Right,
    Left,
    Up,
    Down,
    R,
    L,
}

impl Pressed {
    /// The bit by which the emulator knows the key.
    pub open spec fn bit(self) -> u32 {
        match self {
            Pressed::A => 0x001,
            Pressed::B => 0x002,
            Pressed::Select => 0x004,
            Pressed::Start => 0x008,
            Pressed::Right => 0x010,
            Pressed::Left => 0x020,
            Pressed::Up => 0x040,
            Pressed::Down => 0x080,
            Pressed::R => 0x100,
            Pressed::L => 0x200,
        }
    }
}

/// The bit of the key that a press stands for, if it stands for one.
pub open spec fn bit_of(pressed: Option<Pressed>) -> Option<u32> {
    match pressed {
        Some(p) => Some(p.bit()),
        None => None,
    }
}

/// What a key on the keyboard presses.
pub open spec fn key_presses(key: Key) -> Option<Pressed> {
    match key {
        Key::Z => Some(Pressed::A),
        Key::X => Some(Pressed::B),
        Key::Backspace => Some(Pressed::Select),
        Key::Enter => Some(Pressed::Start),
        Key::Right => Some(Pressed::Right),
        Key::Left => Some(Pressed::Left),
        Key::Up => Some(Pressed::Up),
        Key::Down => Some(Pressed::Down),
        Key::S => Some(Pressed::R),
        Key::A => Some(Pressed::L),
        Key::Other => None,
    }
}

/// What a button of a gamepad presses.
pub open spec fn button_presses(button: PadButton) -> Option<Pressed> {
    match button {
        PadButton::South => Some(Pressed::A),
        PadButton::East => Some(Pressed::B),
        PadButton::Back => Some(Pressed::Select),
        PadButton::Start => Some(Pressed::Start),
        PadButton::Right => Some(Pressed::Right),
        PadButton::Left => Some(Pressed::Left),
        PadButton::Up => Some(Pressed::Up),
        PadButton::Down => Some(Pressed::Down),
        PadButton::RightShoulder => Some(Pressed::R),
        PadButton::LeftShoulder => Some(Pressed::L),
        PadButton::Other => None,
    }
}

/// The bit that a key on the keyboard sets, or `None` if it is not bound.
pub fn key_bit(key: Key) -> (bit: Option<u32>)
    ensures
        bit == bit_of(key_presses(key)),
{
    match key {
        Key::Z => Some(0x001),
        Key::X => Some(0x002),
        Key::Backspace => Some(0x004),
        Key::Enter => Some(0x008),
        Key::Right => Some(0x010),
        Key::Left => Some(0x020),
        Key::Up => Some(0x040),
        Key::Down => Some(0x080),
        Key::S => Some(0x100),
        Key::A => Some(0x200),
        Key::Other => None,
    }
}

/// The bit that a button of a gamepad sets, or `None` if it is not bound.
pub fn gamepad_bit(button: PadButton) -> (bit: Option<u32>)
    ensures
        bit == bit_of(button_presses(button)),
{
    match button {
        PadButton::South => Some(0x001),
        PadButton::East => Some(0x002),
        PadButton::Back => Some(0x004),
        PadButton::Start => Some(0x008),
        PadButton::Right => Some(0x010),
        PadButton::Left => Some(0x020),
        PadButton::Up => Some(0x040),
        PadButton::Down => Some(0x080),
        PadButton::RightShoulder => Some(0x100),
        PadButton::LeftShoulder => Some(0x200),
        PadButton::Other => None,
    }
}

/// What happened on the keyboard.
#[derive(Clone, Copy, PartialEq, Eq, Structural)]
pub enum KeyEvent {
    Pressed(Key),
    Released(Key),
}

/// What happened on a gamepad.
#[derive(Clone, Copy, PartialEq, Eq, Structural)]
pub enum PadEvent {
    Pressed(PadButton),
    Released(PadButton),
}

/// A change to the keys that are held, by the key's bit.
#[derive(Clone, Copy, PartialEq, Eq, Structural)]
pub enum Change {
    Down(u32),
    Up(u32),
}

/// What an event on the keyboard changes. `captured` says that a widget has
/// taken the event for itself.
pub open spec fn key_change(event: KeyEvent, captured: bool) -> Option<Change> {
    match event {
        KeyEvent::Pressed(key) => match key_presses(key) {
            Some(p) if !captured => Some(Change::Down(p.bit())),
            _ => None,
        },
        KeyEvent::Released(key) => match key_presses(key) {
            Some(p) => Some(Change::Up(p.bit())),
            None => None,
        },
    }
}

/// What an event on the keyboard changes. Presses only count when no widget
/// captured them (typing a link code must not press game buttons); releases
/// always count, so that a key cannot stick if focus moves while it is held.
pub fn key_message(event: KeyEvent, captured: bool) -> (change: Option<Change>)
    ensures
        change == key_change(event, captured),
{
    match event {
        KeyEvent::Pressed(key) => {
            if captured {
                return None;
            }
            match key_bit(key) {
                Some(bit) => Some(Change::Down(bit)),
                None => None,
            }
        },
        KeyEvent::Released(key) => match key_bit(key) {
            Some(bit) => Some(Change::Up(bit)),
            None => None,
        },
    }
}

/// The keys that are held after a change.
pub open spec fn held_after(mask: u32, change: Change) -> u32 {
    match change {
        Change::Down(bit) => mask | bit,
        Change::Up(bit) => mask & !bit,
    }
}

/// The buttons that are held after an event on a gamepad.
pub open spec fn pad_after(mask: u32, event: PadEvent) -> u32 {
    match event {
        PadEvent::Pressed(button) => match button_presses(button) {
            Some(p) => held_after(mask, Change::Down(p.bit())),
            None => mask,
        },
        PadEvent::Released(button) => match button_presses(button) {
            Some(p) => held_after(mask, Change::Up(p.bit())),
            None => mask,
        },
    }
}

/// The buttons that are held after an event on a gamepad.
pub fn pad_event(mask: u32, event: PadEvent) -> (after: u32)
    ensures
        after == pad_after(mask, event),
{
    match event {
        PadEvent::Pressed(button) => match gamepad_bit(button) {
            Some(bit) => mask | bit,
            None => mask,
        },
        PadEvent::Released(button) => match gamepad_bit(button) {
            Some(bit) => mask & !bit,
            None => mask,
        },
    }
}

/// The key is held.
pub open spec fn is_held(mask: u32, key: Pressed) -> bool {
    mask & key.bit() != 0
}

/// Each of the console's keys has a bit of its own, among the lowest ten.
pub proof fn law_keys_have_bits_of_their_own(a: Pressed, b: Pressed)
    ensures
        a.bit() == b.bit() ==> a == b,
        a.bit() < 0x400,
        a != b ==> a.bit() & b.bit() == 0,
{
    let x = a.bit();
    let y = b.bit();
    assert((x == 0x001 || x == 0x002 || x == 0x004 || x == 0x008 || x == 0x010 || x == 0x020 || x
        == 0x040 || x == 0x080 || x == 0x100 || x == 0x200) && (y == 0x001 || y == 0x002 || y
        == 0x004 || y == 0x008 || y == 0x010 || y == 0x020 || y == 0x040 || y == 0x080 || y == 0x100
        || y == 0x200) && x != y ==> x & y == 0) by (bit_vector);
}

/// Every one of the console's keys can be pressed, on the keyboard and on a
/// gamepad, and by no two keys or buttons.
pub proof fn law_every_key_is_bound_once(key: Pressed, k: Key, l: Key, m: PadButton, n: PadButton)
    ensures
        exists|k: Key| key_presses(k) == Some(key),
        exists|m: PadButton| button_presses(m) == Some(key),
        key_presses(k) == key_presses(l) && key_presses(k) is Some ==> k == l,
        button_presses(m) == button_presses(n) && button_presses(m) is Some ==> m == n,
{
    match key {
        Pressed::A => {
            assert(key_presses(Key::Z) == Some(key));
            assert(button_presses(PadButton::South) == Some(key));
        },
        Pressed::B => {
            assert(key_presses(Key::X) == Some(key));
            assert(button_presses(PadButton::East) == Some(key));
        },
        Pressed::Select => {
            assert(key_presses(Key::Backspace) == Some(key));
            assert(button_presses(PadButton::Back) == Some(key));
        },
        Pressed::Start => {
            assert(key_presses(Key::Enter) == Some(key));
            assert(button_presses(PadButton::Start) == Some(key));
        },
        Pressed::Right => {
            assert(key_presses(Key::Right) == Some(key));
            assert(button_presses(PadButton::Right) == Some(key));
        },
        Pressed::Left => {
            assert(key_presses(Key::Left) == Some(key));
            assert(button_presses(PadButton::Left) == Some(key));
        },
        Pressed::Up => {
            assert(key_presses(Key::Up) == Some(key));
            assert(button_presses(PadButton::Up) == Some(key));
        },
        Pressed::Down => {
            assert(key_presses(Key::Down) == Some(key));
            assert(button_presses(PadButton::Down) == Some(key));
        },
        Pressed::R => {
            assert(key_presses(Key::S) == Some(key));
            assert(button_presses(PadButton::RightShoulder) == Some(key));
        },
        Pressed::L => {
            assert(key_presses(Key::A) == Some(key));
            assert(button_presses(PadButton::LeftShoulder) == Some(key));
        },
    }
}

/// A press holds its key, a release lets it go, and neither touches another
/// key.
pub proof fn law_changes_touch_one_key(mask: u32, key: Pressed, other: Pressed)
    ensures
        is_held(held_after(mask, Change::Down(key.bit())), key),
        !is_held(held_after(mask, Change::Up(key.bit())), key),
        other != key ==> is_held(held_after(mask, Change::Down(key.bit())), other) == is_held(
            mask,
            other,
        ),
        other != key ==> is_held(held_after(mask, Change::Up(key.bit())), other) == is_held(
            mask,
            other,
        ),
{
    law_keys_have_bits_of_their_own(key, other);
    let x = key.bit();
    let y = other.bit();
    assert((mask | x) & x == x) by (bit_vector);
    assert((mask & !x) & x == 0) by (bit_vector);
    assert(x & y == 0 ==> (mask | x) & y == mask & y && (mask & !x) & y == mask & y)
        by (bit_vector);
}

/// A key that was released is not held, whatever had the focus when it went
/// down or came up.
pub proof fn law_released_keys_do_not_stick(mask: u32, key: Key, console: Pressed, captured: bool)
    requires
        key_presses(key) == Some(console),
    ensures
        key_change(KeyEvent::Released(key), captured) matches Some(change) && !is_held(
            held_after(mask, change),
            console,
        ),
{
    law_changes_touch_one_key(mask, console, console);
}

/// A change sets or clears exactly the bits it names, whatever they are.
pub proof fn law_changes_set_and_clear_bits(mask: u32, bits: u32)
    ensures
        held_after(mask, Change::Down(bits)) == mask | bits,
        held_after(mask, Change::Up(bits)) == mask & !bits,
{
}

/// A bound button on a gamepad is held from its press to its release, an
/// unbound one does nothing, and no other button is touched.
pub proof fn law_pads_hold_what_is_pressed(mask: u32, button: PadButton, key: Pressed)
    requires
        button_presses(button) == Some(key),
    ensures
        pad_after(mask, PadEvent::Pressed(button)) == mask | key.bit(),
        pad_after(mask, PadEvent::Released(button)) == mask & !key.bit(),
        pad_after(mask, PadEvent::Pressed(PadButton::Other)) == mask,
        pad_after(mask, PadEvent::Released(PadButton::Other)) == mask,
{
}

/// A press counts unless it was captured, a release always does, and each is
/// of the key that the game knows.
pub proof fn law_which_keys_count(key: Key, console: Pressed, captured: bool)
    requires
        key_presses(key) == Some(console),
    ensures
        !captured ==> key_change(KeyEvent::Pressed(key), captured) == Some(
            Change::Down(console.bit()),
        ),
        captured ==> key_change(KeyEvent::Pressed(key), captured) is None,
        key_change(KeyEvent::Released(key), captured) == Some(Change::Up(console.bit())),
        key_change(KeyEvent::Pressed(Key::Other), captured) is None,
        key_change(KeyEvent::Released(Key::Other), captured) is None,
        bit_of(Some(console)) == Some(console.bit()),
        bit_of(None) is None,
{
}

} // verus!
