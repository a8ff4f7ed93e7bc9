//! Colours, as the header writes them in the notation of CSS.

use vstd::prelude::*;
use std::str::FromStr;

verus! {

/// A colour: red, green and blue from 0 to 255, and the bits of the alpha
/// channel, a single-precision number.
#[derive(Clone, Copy, Debug, PartialEq, Eq, Structural)]
pub struct Rgba {
    pub r: u8,
    pub g: u8,
    pub b: u8,
    pub alpha_bits: u32,
}

/// The bits of an alpha of 1.0.
pub const OPAQUE_BITS: u32 = 0x3f80_0000;

/// The one pattern that stands for an alpha that is not a number.
pub const NAN_BITS: u32 = 0x7fc0_0000;

/// Whether `b` are the bits of a single-precision value that is not a
/// number: all ones in the exponent and a fraction that is not zero.
pub open spec fn is_nan_bits(b: u32) -> bool {
    b & 0x7f80_0000 == 0x7f80_0000 && b & 0x007f_ffff != 0
}

/// The colour that a text writes in the notation of CSS, as red, green, blue
/// and the bits of alpha; `None` if the text writes no colour. Where the
/// alpha is not a number, its bits stand for that and no more.
pub uninterp spec fn css_color_value(text: Seq<char>) -> Option<(u8, u8, u8, u32)>;

/// Calls `css_color_parser::Color::from_str`. The contract gives the colour
/// that comes back a name, as a function of the text: the text decides
/// whether a colour comes back, its red, green and blue, whether its alpha
/// is a number, and the bits of an alpha that is one. Of the colour itself
/// it claims what the crate's table of named colours holds for the two
/// names that this library uses as defaults: `whitesmoke` is 245, 245, 245
/// and `darkslategray` is 47, 79, 79, both with an alpha of 1.0.
#[verifier::external_body]
pub(crate) fn parse_color(s: &str) -> (r: Result<Rgba, css_color_parser::ColorParseError>)
    ensures
        match r {
            Ok(c) => match css_color_value(s@) {
                Some(v) => v.0 == c.r && v.1 == c.g && v.2 == c.b && is_nan_bits(c.alpha_bits)
                    == is_nan_bits(v.3) && (!is_nan_bits(v.3) ==> c.alpha_bits == v.3),
                None => false,
            },
            Err(_) => css_color_value(s@) is None,
        },
        s@ == "whitesmoke"@ ==> r == Ok::<Rgba, css_color_parser::ColorParseError>(
            Rgba { r: 245, g: 245, b: 245, alpha_bits: 0x3f80_0000 },
        ),
        s@ == "darkslategray"@ ==> r == Ok::<Rgba, css_color_parser::ColorParseError>(
            Rgba { r: 47, g: 79, b: 79, alpha_bits: 0x3f80_0000 },
        ),
{
    match css_color_parser::Color::from_str(s) {
        Ok(c) => Ok(Rgba { r: c.r, g: c.g, b: c.b, alpha_bits: c.a.to_bits() }),
        Err(e) => Err(e),
    }
}

/// The colour with the one pattern `NAN_BITS` for an alpha that is not a
/// number, and as it is otherwise.
pub open spec fn settled(c: Rgba) -> Rgba {
    if is_nan_bits(c.alpha_bits) {
        Rgba { alpha_bits: NAN_BITS, ..c }
    } else {
        c
    }
}

/// The colour that a text writes, with `NAN_BITS` for an alpha that is not
/// a number; `None` if the text writes no colour.
pub open spec fn color_of(text: Seq<char>) -> Option<Rgba> {
    if text == "whitesmoke"@ {
        Some(Rgba { r: 245, g: 245, b: 245, alpha_bits: OPAQUE_BITS })
    } else if text == "darkslategray"@ {
        Some(Rgba { r: 47, g: 79, b: 79, alpha_bits: OPAQUE_BITS })
    } else {
        match css_color_value(text) {
            Some(v) => Some(settled(Rgba { r: v.0, g: v.1, b: v.2, alpha_bits: v.3 })),
            None => None,
        }
    }
}

/// An alpha of 1.0 is a number, and `NAN_BITS` is none.
pub proof fn lemma_fixed_patterns()
    ensures
        !is_nan_bits(OPAQUE_BITS),
        is_nan_bits(NAN_BITS),
{
    assert(0x3f80_0000u32 & 0x7f80_0000 != 0x7f80_0000) by (bit_vector);
    assert(0x7fc0_0000u32 & 0x7f80_0000 == 0x7f80_0000) by (bit_vector);
    assert(0x7fc0_0000u32 & 0x007f_ffff != 0) by (bit_vector);
}

/// Whether `b` are the bits of a value that is not a number.
pub fn is_nan(b: u32) -> (r: bool)
    ensures
        r == is_nan_bits(b),
{
    b & 0x7f80_0000 == 0x7f80_0000 && b & 0x007f_ffff != 0
}

/// Gives an alpha that is not a number the one pattern `NAN_BITS`: whatever
/// bits such an alpha came with, the colour that a chart holds does not
/// depend on them.
pub fn settle_alpha(c: Rgba) -> (r: Rgba)
    ensures
        r == settled(c),
        is_nan_bits(r.alpha_bits) ==> r.alpha_bits == NAN_BITS,
{
    proof {
        lemma_fixed_patterns();
    }
    if is_nan(c.alpha_bits) {
        Rgba { r: c.r, g: c.g, b: c.b, alpha_bits: NAN_BITS }
    } else {
        c
    }
}

/// Reads a colour in the notation of CSS.
pub fn read_color(s: &str) -> (r: Result<Rgba, css_color_parser::ColorParseError>)
    ensures
        r is Err <==> color_of(s@) is None,
        r matches Ok(c) ==> color_of(s@) == Some(c),
{
    proof {
        lemma_fixed_patterns();
    }
    match parse_color(s) {
        Ok(c) => Ok(settle_alpha(c)),
        Err(e) => Err(e),
    }
}

} // verus!
