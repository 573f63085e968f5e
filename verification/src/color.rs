//! Colour channels and the 32-bit pixel word that carries them.
//!
//! A pixel word holds four 8-bit channels, red in the most significant byte,
//! then green, blue, and alpha in the least significant byte.

use vstd::prelude::*;

verus! {

/// The four 8-bit channels of one pixel.
#[derive(Clone, Copy, Debug, PartialEq, Eq, Structural)]
pub struct Rgba {
    pub r: u8,
    pub g: u8,
    pub b: u8,
    pub a: u8,
}

/// The pixel word of four channels: `(r << 24) | (g << 16) | (b << 8) | a`,
/// read as a signed 32-bit integer.
pub open spec fn packed(c: Rgba) -> i32 {
    (((c.r as u32) << 24) | ((c.g as u32) << 16) | ((c.b as u32) << 8) | (c.a as u32)) as i32
}

/// The channels of a pixel word: its bytes from the most significant down,
/// taken by right shifts of 24, 16, 8 and 0 bits.
pub open spec fn unpacked(word: i32) -> Rgba {
    Rgba {
        r: (word >> 24u32) as u8,
        g: (word >> 16u32) as u8,
        b: (word >> 8u32) as u8,
        a: word as u8,
    }
}

/// Packs four channels into one pixel word.
pub fn pack(c: Rgba) -> (word: i32)
    ensures
        word == packed(c),
{
    let bits: u32 = ((c.r as u32) << 24) | ((c.g as u32) << 16) | ((c.b as u32) << 8) | (c.a as u32);
    #[verifier::truncate]
    (bits as i32)
}

/// Unpacks a pixel word into its four channels.
pub fn unpack(word: i32) -> (c: Rgba)
    ensures
        c == unpacked(word),
{
    Rgba {
        r: #[verifier::truncate] ((word >> 24u32) as u8),
        g: #[verifier::truncate] ((word >> 16u32) as u8),
        b: #[verifier::truncate] ((word >> 8u32) as u8),
        a: #[verifier::truncate] (word as u8),
    }
}

/// Packing then unpacking gives back the four channels, whatever they are.
pub proof fn lemma_unpack_packed(c: Rgba)
    ensures
        unpacked(packed(c)) == c,
{
    let r = c.r;
    let g = c.g;
    let b = c.b;
    let a = c.a;
    let w: i32 = (((r as u32) << 24) | ((g as u32) << 16) | ((b as u32) << 8) | (a as u32)) as i32;
    assert((w >> 24u32) as u8 == r && (w >> 16u32) as u8 == g && (w >> 8u32) as u8 == b && w as u8
        == a) by (bit_vector)
        requires
            w == (((r as u32) << 24) | ((g as u32) << 16) | ((b as u32) << 8) | (a as u32)) as i32,
    ;
}

/// Unpacking then packing gives back the pixel word, whatever it is: every
/// word is the packing of exactly one set of four channels.
pub proof fn lemma_pack_unpacked(word: i32)
    ensures
        packed(unpacked(word)) == word,
{
    let r = (word >> 24u32) as u8;
    let g = (word >> 16u32) as u8;
    let b = (word >> 8u32) as u8;
    let a = word as u8;
    assert((((r as u32) << 24) | ((g as u32) << 16) | ((b as u32) << 8) | (a as u32)) as i32 == word)
        by (bit_vector)
        requires
            r == (word >> 24u32) as u8,
            g == (word >> 16u32) as u8,
            b == (word >> 8u32) as u8,
            a == word as u8,
    ;
}

} // verus!
