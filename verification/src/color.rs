//! The tile colors: five drawable colors plus a `NOCOLOR` sentinel that
//! stands for "empty" in pattern lines and is never a drawable tile.

use vstd::prelude::*;

verus! {

/// One of the five drawable tile colors, or the `NOCOLOR` sentinel.
#[derive(Clone, Copy, Debug, PartialEq, Eq, Structural)]
pub enum TileColor {
    RED,
    BLUE,
    GREEN,
    YELLOW,
    WHITE,
    NOCOLOR,
}

/// The stable integer encoding of a drawable color: `RED..WHITE` map to
/// `0..4`; `NOCOLOR` maps outside that range.
pub open spec fn color_index(c: TileColor) -> int {
    match c {
        TileColor::RED => 0,
        TileColor::BLUE => 1,
        TileColor::GREEN => 2,
        TileColor::YELLOW => 3,
        TileColor::WHITE => 4,
        TileColor::NOCOLOR => 5,
    }
}

/// The drawable color with encoding `i`; anything outside `0..=4` is the
/// sentinel.
pub open spec fn color_of(i: int) -> TileColor {
    if i == 0 {
        TileColor::RED
    } else if i == 1 {
        TileColor::BLUE
    } else if i == 2 {
        TileColor::GREEN
    } else if i == 3 {
        TileColor::YELLOW
    } else if i == 4 {
        TileColor::WHITE
    } else {
        TileColor::NOCOLOR
    }
}

/// A color that may appear in the bag, a display or the pool.
pub open spec fn is_drawable(c: TileColor) -> bool {
    c != TileColor::NOCOLOR
}

impl TileColor {
    /// The stable integer encoding, with `99` for the sentinel.
    pub fn to_integer(&self) -> (r: i32)
        ensures
            is_drawable(*self) ==> r == color_index(*self),
            !is_drawable(*self) ==> r == 99,
    {
        match self {
            TileColor::RED => 0,
            TileColor::BLUE => 1,
            TileColor::GREEN => 2,
            TileColor::YELLOW => 3,
            TileColor::WHITE => 4,
            TileColor::NOCOLOR => 99,
        }
    }

    /// Decodes the stable integer encoding; anything outside `0..=4` is the
    /// sentinel.
    pub fn from_integer(input: i32) -> (r: Self)
        ensures
            r == color_of(input as int),
    {
        match input {
            0 => TileColor::RED,
            1 => TileColor::BLUE,
            2 => TileColor::GREEN,
            3 => TileColor::YELLOW,
            4 => TileColor::WHITE,
            _ => TileColor::NOCOLOR,
        }
    }

    /// The terminal rendering of a color: its letter on a colored
    /// background, or a blank for the sentinel.
    pub fn color_string(&self) -> (r: String)
        ensures
            r@ == spec_color_string(*self),
    {
        match self {
            TileColor::RED => String::from_str("\x1B[1;41mR\x1B[0m"),
            TileColor::BLUE => String::from_str("\x1B[1;44mB\x1B[0m"),
            TileColor::GREEN => String::from_str("\x1B[1;42mG\x1B[0m"),
            TileColor::YELLOW => String::from_str("\x1B[1;30;103mY\x1B[0m"),
            TileColor::WHITE => String::from_str("\x1B[1;30;107mW\x1B[0m"),
            TileColor::NOCOLOR => String::from_str(" "),
        }
    }

    /// The terminal rendering of a color given by its integer encoding.
    pub fn int_to_color_string(input: i32) -> (r: String)
        ensures
            r@ == spec_color_string(color_of(input as int)),
    {
        TileColor::from_integer(input).color_string()
    }

    /// Decodes a color name; anything unrecognized is the sentinel.
    pub fn from_string(input: &str) -> (r: Self)
        ensures
            r == spec_color_from_string(input@),
    {
        let owned = input.to_owned();
        if owned == String::from_str("RED") {
            TileColor::RED
        } else if owned == String::from_str("BLUE") {
            TileColor::BLUE
        } else if owned == String::from_str("GREEN") {
            TileColor::GREEN
        } else if owned == String::from_str("YELLOW") {
            TileColor::YELLOW
        } else if owned == String::from_str("WHITE") {
            TileColor::WHITE
        } else {
            TileColor::NOCOLOR
        }
    }

    /// The one-letter lowercase symbol of a color, or a dash for the
    /// sentinel.
    pub fn to_char_symbol(&self) -> (r: &str)
        ensures
            r@ == spec_char_symbol(*self),
    {
        match self {
            TileColor::RED => "r",
            TileColor::BLUE => "b",
            TileColor::GREEN => "g",
            TileColor::YELLOW => "y",
            TileColor::WHITE => "w",
            TileColor::NOCOLOR => "-",
        }
    }

    /// The signed integer encoding, with `-1` for the sentinel.
    pub fn into(&self) -> (r: i32)
        ensures
            is_drawable(*self) ==> r == color_index(*self),
            !is_drawable(*self) ==> r == -1,
    {
        match self {
            TileColor::NOCOLOR => -1,
            TileColor::RED => 0,
            TileColor::BLUE => 1,
            TileColor::GREEN => 2,
            TileColor::YELLOW => 3,
            TileColor::WHITE => 4,
        }
    }

    /// Decodes the stable integer encoding, as `from_integer` does.
    pub fn from(input: i32) -> (r: Self)
        ensures
            r == color_of(input as int),
    {
        match input {
            0 => TileColor::RED,
            1 => TileColor::BLUE,
            2 => TileColor::GREEN,
            3 => TileColor::YELLOW,
            4 => TileColor::WHITE,
            _ => TileColor::NOCOLOR,
        }
    }
}

/// The terminal rendering of each color.
pub open spec fn spec_color_string(c: TileColor) -> Seq<char> {
    match c {
        TileColor::RED => "\x1B[1;41mR\x1B[0m"@,
        TileColor::BLUE => "\x1B[1;44mB\x1B[0m"@,
        TileColor::GREEN => "\x1B[1;42mG\x1B[0m"@,
        TileColor::YELLOW => "\x1B[1;30;103mY\x1B[0m"@,
        TileColor::WHITE => "\x1B[1;30;107mW\x1B[0m"@,
        TileColor::NOCOLOR => " "@,
    }
}

/// The color a name denotes; an unrecognized name is the sentinel.
pub open spec fn spec_color_from_string(s: Seq<char>) -> TileColor {
    if s == "RED"@ {
        TileColor::RED
    } else if s == "BLUE"@ {
        TileColor::BLUE
    } else if s == "GREEN"@ {
        TileColor::GREEN
    } else if s == "YELLOW"@ {
        TileColor::YELLOW
    } else if s == "WHITE"@ {
        TileColor::WHITE
    } else {
        TileColor::NOCOLOR
    }
}

/// The one-letter symbol of each color.
pub open spec fn spec_char_symbol(c: TileColor) -> Seq<char> {
    match c {
        TileColor::RED => "r"@,
        TileColor::BLUE => "b"@,
        TileColor::GREEN => "g"@,
        TileColor::YELLOW => "y"@,
        TileColor::WHITE => "w"@,
        TileColor::NOCOLOR => "-"@,
    }
}

} // verus!
