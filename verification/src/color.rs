use vstd::prelude::*;

verus! {

/// A 24-bit RGB colour, as the terminal renderer understands it.
#[derive(Clone, Copy, Debug, PartialEq, Eq, Structural)]
pub struct Color {
    pub r: u8,
    pub g: u8,
    pub b: u8,
}

/// The colour with the given red, green and blue components.
pub open spec fn rgb(r: u8, g: u8, b: u8) -> Color {
    Color { r, g, b }
}

pub fn black() -> (c: Color)
    ensures
        c == rgb(0, 0, 0),
{
    Color { r: 0, g: 0, b: 0 }
}

pub fn white() -> (c: Color)
    ensures
        c == rgb(255, 255, 255),
{
    Color { r: 255, g: 255, b: 255 }
}

pub fn red() -> (c: Color)
    ensures
        c == rgb(255, 0, 0),
{
    Color { r: 255, g: 0, b: 0 }
}

pub fn dark_red() -> (c: Color)
    ensures
        c == rgb(191, 0, 0),
{
    Color { r: 191, g: 0, b: 0 }
}

pub fn orange() -> (c: Color)
    ensures
        c == rgb(255, 127, 0),
{
    Color { r: 255, g: 127, b: 0 }
}

pub fn green() -> (c: Color)
    ensures
        c == rgb(0, 255, 0),
{
    Color { r: 0, g: 255, b: 0 }
}

/// Background of a wall tile that has been seen but is not in view.
pub fn color_dark_wall() -> (c: Color)
    ensures
        c == rgb(0, 0, 100),
{
    Color { r: 0, g: 0, b: 100 }
}

/// Background of a wall tile in view.
pub fn color_light_wall() -> (c: Color)
    ensures
        c == rgb(130, 110, 50),
{
    Color { r: 130, g: 110, b: 50 }
}

/// Background of a floor tile that has been seen but is not in view.
pub fn color_dark_ground() -> (c: Color)
    ensures
        c == rgb(50, 50, 150),
{
    Color { r: 50, g: 50, b: 150 }
}

/// Background of a floor tile in view.
pub fn color_light_ground() -> (c: Color)
    ensures
        c == rgb(200, 180, 50),
{
    Color { r: 200, g: 180, b: 50 }
}

} // verus!
