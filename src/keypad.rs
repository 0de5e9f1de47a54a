//! The sixteen keys of the CHIP-8 keypad.
use vstd::prelude::*;

verus! {

/// One key of the hexadecimal keypad.
#[derive(PartialEq, Eq, Structural, Copy, Clone, Debug)]
pub enum KeyPad {
    Num0,
    Num1,
    Num2,
    Num3,
    Num4,
    Num5,
    Num6,
    Num7,
    Num8,
    Num9,
    A,
    B,
    C,
    D,
    E,
    F,
}

/// The keypad position (0 to 15) of a key.
pub open spec fn key_index(k: KeyPad) -> int {
    match k {
        KeyPad::Num0 => 0,
        KeyPad::Num1 => 1,
        KeyPad::Num2 => 2,
        KeyPad::Num3 => 3,
        KeyPad::Num4 => 4,
        KeyPad::Num5 => 5,
        KeyPad::Num6 => 6,
        KeyPad::Num7 => 7,
        KeyPad::Num8 => 8,
        KeyPad::Num9 => 9,
        KeyPad::A => 10,
        KeyPad::B => 11,
        KeyPad::C => 12,
        KeyPad::D => 13,
        KeyPad::E => 14,
        KeyPad::F => 15,
    }
}

/// The hexadecimal digit printed on a key.
pub open spec fn hex_digit(i: int) -> Seq<char> {
    if i == 0 { "0"@ } else if i == 1 { "1"@ } else if i == 2 { "2"@ } else if i == 3 { "3"@ }
    else if i == 4 { "4"@ } else if i == 5 { "5"@ } else if i == 6 { "6"@ } else if i == 7 { "7"@ }
    else if i == 8 { "8"@ } else if i == 9 { "9"@ } else if i == 10 { "A"@ } else if i == 11 { "B"@ }
    else if i == 12 { "C"@ } else if i == 13 { "D"@ } else if i == 14 { "E"@ } else { "F"@ }
}

/// The physical key of the conventional QWERTY layout that stands for a keypad position:
/// `1 2 3 4 / Q W E R / A S D F / Z X C V` for `1 2 3 C / 4 5 6 D / 7 8 9 E / A 0 B F`.
pub open spec fn keyboard_key(i: int) -> Seq<char> {
    if i == 0 { "X"@ } else if i == 1 { "1"@ } else if i == 2 { "2"@ } else if i == 3 { "3"@ }
    else if i == 4 { "Q"@ } else if i == 5 { "W"@ } else if i == 6 { "E"@ } else if i == 7 { "A"@ }
    else if i == 8 { "S"@ } else if i == 9 { "D"@ } else if i == 10 { "Z"@ } else if i == 11 { "C"@ }
    else if i == 12 { "4"@ } else if i == 13 { "R"@ } else if i == 14 { "F"@ } else { "V"@ }
}

impl KeyPad {
    /// Every key, in keypad order.
    pub fn all() -> (r: [KeyPad; 16])
        ensures
            forall|i: int| 0 <= i < 16 ==> key_index(#[trigger] r@[i]) == i,
    {
        [
            KeyPad::Num0, KeyPad::Num1, KeyPad::Num2, KeyPad::Num3,
            KeyPad::Num4, KeyPad::Num5, KeyPad::Num6, KeyPad::Num7,
            KeyPad::Num8, KeyPad::Num9, KeyPad::A, KeyPad::B,
            KeyPad::C, KeyPad::D, KeyPad::E, KeyPad::F,
        ]
    }

    /// The keypad position of this key.
    pub fn index(&self) -> (r: usize)
        ensures
            r == key_index(*self),
            r < 16,
    {
        match self {
            KeyPad::Num0 => 0,
            KeyPad::Num1 => 1,
            KeyPad::Num2 => 2,
            KeyPad::Num3 => 3,
            KeyPad::Num4 => 4,
            KeyPad::Num5 => 5,
            KeyPad::Num6 => 6,
            KeyPad::Num7 => 7,
            KeyPad::Num8 => 8,
            KeyPad::Num9 => 9,
            KeyPad::A => 10,
            KeyPad::B => 11,
            KeyPad::C => 12,
            KeyPad::D => 13,
            KeyPad::E => 14,
            KeyPad::F => 15,
        }
    }

    /// The key at a keypad position.
    pub fn from_index(i: usize) -> (r: Option<KeyPad>)
        ensures
            r is Some <==> i < 16,
            r matches Some(k) ==> key_index(k) == i,
    {
        let keys = KeyPad::all();
        if i < 16 {
            Some(keys[i])
        } else {
            None
        }
    }

    /// The hexadecimal digit printed on this key.
    pub fn to_chip8_str(&self) -> (r: &'static str)
        ensures
            r@ == hex_digit(key_index(*self)),
    {
        match self {
            KeyPad::Num0 => "0",
            KeyPad::Num1 => "1",
            KeyPad::Num2 => "2",
            KeyPad::Num3 => "3",
            KeyPad::Num4 => "4",
            KeyPad::Num5 => "5",
            KeyPad::Num6 => "6",
            KeyPad::Num7 => "7",
            KeyPad::Num8 => "8",
            KeyPad::Num9 => "9",
            KeyPad::A => "A",
            KeyPad::B => "B",
            KeyPad::C => "C",
            KeyPad::D => "D",
            KeyPad::E => "E",
            KeyPad::F => "F",
        }
    }

    /// The physical key that stands for this key in the conventional QWERTY layout.
    pub fn to_keyboard_str(&self) -> (r: &'static str)
        ensures
            r@ == keyboard_key(key_index(*self)),
    {
        match self {
            KeyPad::Num0 => "X",
            KeyPad::Num1 => "1",
            KeyPad::Num2 => "2",
            KeyPad::Num3 => "3",
            KeyPad::Num4 => "Q",
            KeyPad::Num5 => "W",
            KeyPad::Num6 => "E",
            KeyPad::Num7 => "A",
            KeyPad::Num8 => "S",
            KeyPad::Num9 => "D",
            KeyPad::A => "Z",
            KeyPad::B => "C",
            KeyPad::C => "4",
            KeyPad::D => "R",
            KeyPad::E => "F",
            KeyPad::F => "V",
        }
    }
}

} // verus!
