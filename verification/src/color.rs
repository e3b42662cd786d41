//! Display colors, as plain 8-bit RGBA values.
//!
//! Rendering itself is an external concern; the engine only maps each cell
//! state to one of these values, and a renderer turns them into pixels.

use vstd::prelude::*;

verus! {

/// One display color: red, green, blue and alpha channels, 8 bits each.
#[derive(Clone, Copy, Debug, PartialEq, Eq, Structural)]
pub struct Rgba {
    pub red: u8,
    pub green: u8,
    pub blue: u8,
    pub alpha: u8,
}

pub open spec fn spec_rgb(red: u8, green: u8, blue: u8) -> Rgba {
    Rgba { red, green, blue, alpha: 255 }
}

/// Builds an opaque color from its three channels.
pub fn rgb(red: u8, green: u8, blue: u8) -> (c: Rgba)
    ensures
        c == spec_rgb(red, green, blue),
{
    Rgba { red, green, blue, alpha: 255 }
}

pub open spec fn spec_white() -> Rgba {
    spec_rgb(255, 255, 255)
}

pub open spec fn spec_black() -> Rgba {
    spec_rgb(0, 0, 0)
}

pub open spec fn spec_blue() -> Rgba {
    spec_rgb(0, 119, 242)
}

/// The fixed rainbow palette: pink, red, orange, yellow, green, blue,
/// violet, magenta, each channel the truncated 8-bit form of the
/// rendered color.
pub open spec fn spec_rainbow() -> Seq<Rgba> {
    seq![
        spec_rgb(255, 109, 193),
        spec_rgb(229, 40, 56),
        spec_rgb(255, 160, 0),
        spec_rgb(252, 249, 0),
        spec_rgb(0, 226, 48),
        spec_rgb(0, 119, 242),
        spec_rgb(135, 61, 191),
        spec_rgb(255, 0, 255),
    ]
}

/// The grayscale palette entry at position `i`: channel value `255 / (i + 1)`.
pub open spec fn spec_gray(i: int) -> Rgba {
    let v = (255int / (i + 1)) as u8;
    spec_rgb(v, v, v)
}

pub const GRAYSCALE_LEN: usize = 18;

/// A choice of palette for the cyclic automaton.
#[derive(Clone, Copy, Debug, PartialEq, Eq, Structural)]
pub enum Palette {
    Rainbow,
    Grayscale,
}

pub open spec fn spec_palette(p: Palette) -> Seq<Rgba> {
    match p {
        Palette::Rainbow => spec_rainbow(),
        Palette::Grayscale => Seq::new(GRAYSCALE_LEN as nat, |i: int| spec_gray(i)),
    }
}

/// The colors of the chosen palette, in order.
pub fn palette_colors(p: Palette) -> (v: Vec<Rgba>)
    ensures
        v@ == spec_palette(p),
        1 <= v@.len() <= 18,
{
    match p {
        Palette::Rainbow => {
            let mut v: Vec<Rgba> = Vec::new();
            v.push(rgb(255, 109, 193));
            v.push(rgb(229, 40, 56));
            v.push(rgb(255, 160, 0));
            v.push(rgb(252, 249, 0));
            v.push(rgb(0, 226, 48));
            v.push(rgb(0, 119, 242));
            v.push(rgb(135, 61, 191));
            v.push(rgb(255, 0, 255));
            proof {
                assert(v@ =~= spec_rainbow());
            }
            v
        },
        Palette::Grayscale => {
            let mut v: Vec<Rgba> = Vec::new();
            let mut i: usize = 0;
            while i < GRAYSCALE_LEN
                invariant
                    i <= GRAYSCALE_LEN,
                    v@.len() == i,
                    forall|j: int| 0 <= j < i ==> v@[j] == spec_gray(j),
                decreases GRAYSCALE_LEN - i,
            {
                let shade = 255u8 / (i as u8 + 1);
                v.push(rgb(shade, shade, shade));
                i += 1;
            }
            proof {
                assert(v@ =~= spec_palette(Palette::Grayscale));
            }
            v
        },
    }
}

} // verus!
