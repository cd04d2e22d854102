//! Colors for the dots of a simulated LCD screen.

use vstd::prelude::*;

verus! {

/// An RGBA color, one byte per channel.
///
/// The library never interprets the channels; it only stores colors and
/// selects between the `on` and `off` color when a dot changes state.
#[derive(Clone, Copy, PartialEq, Eq, Structural, Debug)]
pub struct Color {
    /// The red channel.
    pub r: u8,
    /// The green channel.
    pub g: u8,
    /// The blue channel.
    pub b: u8,
    /// The alpha channel; 255 is fully opaque.
    pub a: u8,
}

impl Color {
    /// Builds a fully opaque color from its red, green and blue channels.
    pub fn rgb(r: u8, g: u8, b: u8) -> (c: Color)
        ensures
            c == (Color { r, g, b, a: 255u8 }),
    {
        Color { r, g, b, a: 255 }
    }
}

/// The 'on' color of green backlight LCD screens: a dark green.
pub fn lcd_dark_green() -> (c: Color)
    ensures
        c == (Color { r: 69u8, g: 75u8, b: 59u8, a: 255u8 }),
{
    Color::rgb(69, 75, 59)
}

/// The 'off' color of green backlight LCD screens: a light green.
pub fn lcd_light_green() -> (c: Color)
    ensures
        c == (Color { r: 158u8, g: 171u8, b: 136u8, a: 255u8 }),
{
    Color::rgb(158, 171, 136)
}

} // verus!
