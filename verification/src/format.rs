//! The byte layout of one pixel on a display surface.
//!
//! A surface takes four bytes per pixel. Which channel goes to which of the
//! four offsets, and whether the alpha channel is taken from the pixel word or
//! replaced by full opacity, is a property of the surface and is stated here
//! as a value, not left to a shift in the conversion loop.

use vstd::prelude::*;
use crate::color::{lemma_unpack_packed, packed, unpack, unpacked, Rgba};

verus! {

/// The order in which the bytes of a pixel word go to consecutive offsets.
#[derive(Clone, Copy, Debug, PartialEq, Eq, Structural)]
pub enum ByteOrder {
    /// Red, green, blue, alpha: the word's bytes from the most significant down.
    MostSignificantFirst,
    /// Alpha, blue, green, red: the word's bytes from the least significant up.
    LeastSignificantFirst,
}

/// Where the alpha byte of a pixel comes from.
#[derive(Clone, Copy, Debug, PartialEq, Eq, Structural)]
pub enum Opacity {
    /// The alpha channel of the pixel word.
    FromBuffer,
    /// Always `0xFF`, whatever the pixel word holds.
    ForcedOpaque,
}

/// The pixel layout of a display surface.
#[derive(Clone, Copy, Debug, PartialEq, Eq, Structural)]
pub struct SurfaceFormat {
    pub order: ByteOrder,
    pub opacity: Opacity,
}

/// The alpha byte that a surface of this format shows for a pixel word.
pub open spec fn alpha_byte(word: i32, format: SurfaceFormat) -> u8 {
    match format.opacity {
        Opacity::FromBuffer => unpacked(word).a,
        Opacity::ForcedOpaque => 0xffu8,
    }
}

/// The byte at offset `k` (0 to 3) of a pixel on a surface of this format.
pub open spec fn surface_byte(word: i32, format: SurfaceFormat, k: int) -> u8 {
    let slot = match format.order {
        ByteOrder::MostSignificantFirst => k,
        ByteOrder::LeastSignificantFirst => 3 - k,
    };
    if slot == 0 {
        unpacked(word).r
    } else if slot == 1 {
        unpacked(word).g
    } else if slot == 2 {
        unpacked(word).b
    } else {
        alpha_byte(word, format)
    }
}

impl SurfaceFormat {
    /// The canonical layout, RGBA8888: the bytes of the pixel word from the
    /// most significant down, alpha taken from the word.
    pub fn rgba8888() -> (format: SurfaceFormat)
        ensures
            format == (SurfaceFormat {
                order: ByteOrder::MostSignificantFirst,
                opacity: Opacity::FromBuffer,
            }),
    {
        SurfaceFormat { order: ByteOrder::MostSignificantFirst, opacity: Opacity::FromBuffer }
    }
}

/// The four bytes of one pixel, in the order in which the surface takes them.
pub fn encode(word: i32, format: SurfaceFormat) -> (bytes: [u8; 4])
    ensures
        forall|k: int| 0 <= k < 4 ==> bytes@[k] == surface_byte(word, format, k),
{
    let c = unpack(word);
    let alpha: u8 = match format.opacity {
        Opacity::FromBuffer => c.a,
        Opacity::ForcedOpaque => 0xff,
    };
    match format.order {
        ByteOrder::MostSignificantFirst => [c.r, c.g, c.b, alpha],
        ByteOrder::LeastSignificantFirst => [alpha, c.b, c.g, c.r],
    }
}

/// In the canonical layout the four bytes of a pixel are the four channels
/// that were packed into its word, in the order red, green, blue, alpha.
pub proof fn lemma_rgba8888_bytes(c: Rgba)
    ensures
        surface_byte(packed(c), SurfaceFormat { order: ByteOrder::MostSignificantFirst, opacity: Opacity::FromBuffer }, 0) == c.r,
        surface_byte(packed(c), SurfaceFormat { order: ByteOrder::MostSignificantFirst, opacity: Opacity::FromBuffer }, 1) == c.g,
        surface_byte(packed(c), SurfaceFormat { order: ByteOrder::MostSignificantFirst, opacity: Opacity::FromBuffer }, 2) == c.b,
        surface_byte(packed(c), SurfaceFormat { order: ByteOrder::MostSignificantFirst, opacity: Opacity::FromBuffer }, 3) == c.a,
{
    lemma_unpack_packed(c);
}

} // verus!
