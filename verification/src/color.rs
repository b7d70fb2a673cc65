//! Colours of terminal cells, as the graphical client paints them.

use vstd::prelude::*;

verus! {

/// A terminal cell colour: the default, an entry of the 256-colour
/// palette, or a true colour.
#[derive(Debug, Clone, Copy, PartialEq, Eq, Structural)]
pub enum TermColor {
    Default,
    Idx(u8),
    Rgb(u8, u8, u8),
}

/// A colour to paint: red, green, blue and (premultiplied) alpha.
#[derive(Debug, Clone, Copy, PartialEq, Eq, Structural)]
pub struct Rgba {
    pub r: u8,
    pub g: u8,
    pub b: u8,
    pub a: u8,
}

/// An opaque colour.
pub open spec fn opaque(r: u8, g: u8, b: u8) -> Rgba {
    Rgba { r, g, b, a: 255 }
}

/// The fully transparent colour.
pub open spec fn transparent() -> Rgba {
    Rgba { r: 0, g: 0, b: 0, a: 0 }
}

/// The default text colour.
pub open spec fn default_fg() -> Rgba {
    opaque(200, 210, 200)
}

/// Palette entries 16 to 231: a 6x6x6 cube with steps of 51.
pub open spec fn cube_color(n: u8) -> Rgba {
    let m = n - 16;
    opaque((m / 36 * 51) as u8, (m / 6 % 6 * 51) as u8, (m % 6 * 51) as u8)
}

/// Palette entries 232 to 255: greys from 8 in steps of 10.
pub open spec fn grey_color(n: u8) -> Rgba {
    let g = ((n - 232) * 10 + 8) as u8;
    opaque(g, g, g)
}

/// The text colour of a palette entry.
pub open spec fn spec_fg_palette(n: u8) -> Rgba {
    if n == 0 { opaque(0, 0, 0) }
    else if n == 1 { opaque(205, 0, 0) }
    else if n == 2 { opaque(0, 205, 0) }
    else if n == 3 { opaque(205, 205, 0) }
    else if n == 4 { opaque(0, 0, 205) }
    else if n == 5 { opaque(205, 0, 205) }
    else if n == 6 { opaque(0, 205, 205) }
    else if n == 7 { opaque(229, 229, 229) }
    else if n == 8 { opaque(127, 127, 127) }
    else if n == 9 { opaque(255, 0, 0) }
    else if n == 10 { opaque(0, 255, 0) }
    else if n == 11 { opaque(255, 255, 0) }
    else if n == 12 { opaque(0, 0, 255) }
    else if n == 13 { opaque(255, 0, 255) }
    else if n == 14 { opaque(0, 255, 255) }
    else if n == 15 { opaque(255, 255, 255) }
    else if n < 232 { cube_color(n) }
    else { grey_color(n) }
}

/// The background colour of a palette entry.
pub open spec fn spec_bg_palette(n: u8) -> Rgba {
    if n == 0 { opaque(0, 0, 0) }
    else if n == 1 { opaque(205, 50, 50) }
    else if n == 2 { opaque(50, 205, 50) }
    else if n == 3 { opaque(205, 205, 50) }
    else if n == 4 { opaque(50, 50, 205) }
    else if n == 5 { opaque(205, 50, 205) }
    else if n == 6 { opaque(50, 205, 205) }
    else if n == 7 { opaque(229, 229, 229) }
    else if n == 8 { opaque(127, 127, 127) }
    else if n == 9 { opaque(255, 80, 80) }
    else if n == 10 { opaque(80, 255, 80) }
    else if n == 11 { opaque(255, 255, 80) }
    else if n == 12 { opaque(80, 80, 255) }
    else if n == 13 { opaque(255, 80, 255) }
    else if n == 14 { opaque(80, 255, 255) }
    else if n == 15 { opaque(255, 255, 255) }
    else if n < 232 { cube_color(n) }
    else { grey_color(n) }
}

/// The colour text of colour `c` is painted with.
pub open spec fn spec_fg(c: TermColor) -> Rgba {
    match c {
        TermColor::Default => default_fg(),
        TermColor::Idx(n) => spec_fg_palette(n),
        TermColor::Rgb(r, g, b) => opaque(r, g, b),
    }
}

/// The colour a background of colour `c` is painted with.
pub open spec fn spec_bg(c: TermColor) -> Rgba {
    match c {
        TermColor::Default => transparent(),
        TermColor::Idx(n) => spec_bg_palette(n),
        TermColor::Rgb(r, g, b) => opaque(r, g, b),
    }
}

fn rgb(r: u8, g: u8, b: u8) -> (res: Rgba)
    ensures
        res == opaque(r, g, b),
{
    Rgba { r, g, b, a: 255 }
}

fn cube_or_grey(n: u8) -> (res: Rgba)
    requires
        n >= 16,
    ensures
        res == (if n < 232 { cube_color(n) } else { grey_color(n) }),
{
    if n < 232 {
        let m = n - 16;
        rgb(m / 36 * 51, m / 6 % 6 * 51, m % 6 * 51)
    } else {
        let g = (n - 232) * 10 + 8;
        rgb(g, g, g)
    }
}

/// The colour text of terminal colour `c` is painted with: a light grey by
/// default, the xterm palette for indices, the colour itself for RGB.
pub fn vt100_fg_to_egui(c: TermColor) -> (res: Rgba)
    ensures
        res == spec_fg(c),
{
    match c {
        TermColor::Default => rgb(200, 210, 200),
        TermColor::Idx(n) => {
            if n == 0 { rgb(0, 0, 0) }
            else if n == 1 { rgb(205, 0, 0) }
            else if n == 2 { rgb(0, 205, 0) }
            else if n == 3 { rgb(205, 205, 0) }
            else if n == 4 { rgb(0, 0, 205) }
            else if n == 5 { rgb(205, 0, 205) }
            else if n == 6 { rgb(0, 205, 205) }
            else if n == 7 { rgb(229, 229, 229) }
            else if n == 8 { rgb(127, 127, 127) }
            else if n == 9 { rgb(255, 0, 0) }
            else if n == 10 { rgb(0, 255, 0) }
            else if n == 11 { rgb(255, 255, 0) }
            else if n == 12 { rgb(0, 0, 255) }
            else if n == 13 { rgb(255, 0, 255) }
            else if n == 14 { rgb(0, 255, 255) }
            else if n == 15 { rgb(255, 255, 255) }
            else { cube_or_grey(n) }
        },
        TermColor::Rgb(r, g, b) => rgb(r, g, b),
    }
}

/// The colour a background of terminal colour `c` is painted with:
/// transparent by default, a lighter xterm palette for the first sixteen
/// indices, the colour itself for RGB.
pub fn vt100_bg_to_egui(c: TermColor) -> (res: Rgba)
    ensures
        res == spec_bg(c),
{
    match c {
        TermColor::Default => Rgba { r: 0, g: 0, b: 0, a: 0 },
        TermColor::Idx(n) => {
            if n == 0 { rgb(0, 0, 0) }
            else if n == 1 { rgb(205, 50, 50) }
            else if n == 2 { rgb(50, 205, 50) }
            else if n == 3 { rgb(205, 205, 50) }
            else if n == 4 { rgb(50, 50, 205) }
            else if n == 5 { rgb(205, 50, 205) }
            else if n == 6 { rgb(50, 205, 205) }
            else if n == 7 { rgb(229, 229, 229) }
            else if n == 8 { rgb(127, 127, 127) }
            else if n == 9 { rgb(255, 80, 80) }
            else if n == 10 { rgb(80, 255, 80) }
            else if n == 11 { rgb(255, 255, 80) }
            else if n == 12 { rgb(80, 80, 255) }
            else if n == 13 { rgb(255, 80, 255) }
            else if n == 14 { rgb(80, 255, 255) }
            else if n == 15 { rgb(255, 255, 255) }
            else { cube_or_grey(n) }
        },
        TermColor::Rgb(r, g, b) => rgb(r, g, b),
    }
}

/// Text is always painted opaque, and a background is transparent exactly
/// when it has the default colour.
pub proof fn lemma_opacity(c: TermColor)
    ensures
        spec_fg(c).a == 255,
        (spec_bg(c).a == 0) == (c == TermColor::Default),
{
}


/// The bright channels of base colour `n`: red, green and blue are on as
/// bits 0, 1 and 2 of `n % 8` say (the ANSI order).
pub open spec fn ansi_channels(n: u8) -> (bool, bool, bool) {
    let k = n % 8;
    (k % 2 == 1, (k / 2) % 2 == 1, (k / 4) % 2 == 1)
}

/// A colour's channels that are at least half bright.
pub open spec fn bright_channels(c: Rgba) -> (bool, bool, bool) {
    (c.r >= 128, c.g >= 128, c.b >= 128)
}

/// The sixteen base palette entries follow the ANSI colour order, for text
/// and backgrounds alike: entry `n` is bright in red, green and blue as
/// bits 0, 1 and 2 of `n % 8` say, and the high eight entries are at least
/// as bright as the low eight in every channel. They are opaque.
pub proof fn lemma_base_palette_is_ansi(n: u8)
    requires
        n < 16,
    ensures
        bright_channels(spec_fg(TermColor::Idx(n))) == ansi_channels(n),
        bright_channels(spec_bg(TermColor::Idx(n))) == ansi_channels(n),
        spec_fg(TermColor::Idx(n)).a == 255,
        spec_bg(TermColor::Idx(n)).a == 255,
        n < 8 ==> {
            let lo = spec_fg(TermColor::Idx(n));
            let hi = spec_fg(TermColor::Idx((n + 8) as u8));
            lo.r <= hi.r && lo.g <= hi.g && lo.b <= hi.b
        },
        n < 8 ==> {
            let lo = spec_bg(TermColor::Idx(n));
            let hi = spec_bg(TermColor::Idx((n + 8) as u8));
            lo.r <= hi.r && lo.g <= hi.g && lo.b <= hi.b
        },
{
}

/// The sixteen base text colours are pairwise distinct, and so are the
/// sixteen base background colours.
pub proof fn lemma_base_palette_distinct(n: u8, m: u8)
    requires
        n < m < 16,
    ensures
        spec_fg(TermColor::Idx(n)) != spec_fg(TermColor::Idx(m)),
        spec_bg(TermColor::Idx(n)) != spec_bg(TermColor::Idx(m)),
{
}

} // verus!
