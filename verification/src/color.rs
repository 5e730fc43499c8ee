//! Eight-bit colours and the rule that turns scaled channels into them.

use vstd::prelude::*;

verus! {

/// An opaque colour with eight bits per channel.
#[derive(Clone, Copy, Debug, PartialEq, Eq, Structural)]
pub struct Rgb {
    pub red: u8,
    pub green: u8,
    pub blue: u8,
}

/// The colour of points that never escape.
pub open spec fn black() -> Rgb {
    Rgb { red: 0, green: 0, blue: 0 }
}

/// The eight-bit level of a channel whose value, scaled by 256 and rounded
/// down, is `scaled`: the level is `scaled` itself, held inside `0..=255`.
/// A channel at full intensity scales to 256 and maps to 255.
pub open spec fn level_of(scaled: int) -> int {
    if scaled < 0 {
        0
    } else if scaled > 255 {
        255
    } else {
        scaled
    }
}

/// The colour whose channels have the levels of the three scaled values.
pub open spec fn color_of_scaled(red: int, green: int, blue: int) -> Rgb {
    Rgb { red: level_of(red) as u8, green: level_of(green) as u8, blue: level_of(blue) as u8 }
}

/// The colour painted for one entry of a row: black where the point did not
/// escape, the entry's own colour otherwise.
pub open spec fn shade_of(entry: Option<Rgb>) -> Rgb {
    match entry {
        Some(color) => color,
        None => black(),
    }
}

/// Computes [`level_of`].
pub fn channel_level(scaled: i64) -> (level: u8)
    ensures
        level as int == level_of(scaled as int),
{
    if scaled < 0 {
        0
    } else if scaled > 255 {
        255
    } else {
        scaled as u8
    }
}

/// Computes [`shade_of`].
pub fn shade(entry: Option<Rgb>) -> (color: Rgb)
    ensures
        color == shade_of(entry),
{
    match entry {
        Some(color) => color,
        None => Rgb::black(),
    }
}

impl Rgb {
    /// Pure black.
    pub fn black() -> (color: Rgb)
        ensures
            color == black(),
    {
        Rgb { red: 0, green: 0, blue: 0 }
    }

    /// Builds a colour from channels that were scaled by 256 and rounded
    /// down, holding each inside the eight-bit range.
    pub fn from_scaled(red: i64, green: i64, blue: i64) -> (color: Rgb)
        ensures
            color == color_of_scaled(red as int, green as int, blue as int),
    {
        Rgb { red: channel_level(red), green: channel_level(green), blue: channel_level(blue) }
    }
}

} // verus!
