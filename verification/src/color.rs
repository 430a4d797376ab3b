//! Color carriers used on the wire between layers: a bare RGB triple that
//! packs into 24 bits, and a wrapper whose text form is the HTML hex code.

use vstd::prelude::*;

use crate::common::{color_of_text, is_color_text, ApiError, Color};

verus! {

/// 24-bit red-green-blue color.
#[derive(Copy, Clone, Debug, PartialEq, Eq, Structural)]
pub struct RgbColor {
    pub red: u8,
    pub green: u8,
    pub blue: u8,
}

impl Default for RgbColor {
    fn default() -> (r: RgbColor)
        ensures
            r == (RgbColor { red: 0, green: 0, blue: 0 }),
    {
        RgbColor { red: 0, green: 0, blue: 0 }
    }
}

/// The triple packed into the low 24 bits of a word.
pub open spec fn rgb_of_u32(value: u32) -> RgbColor {
    RgbColor { red: (value >> 16) as u8, green: (value >> 8) as u8, blue: value as u8 }
}

/// The low 24 bits of a word for a triple.
pub open spec fn u32_of_rgb(c: RgbColor) -> u32 {
    ((c.red as u32) << 16) | ((c.green as u32) << 8) | (c.blue as u32)
}

/// The same channels carried as a [`Color`].
pub open spec fn rgb_of_color(c: Color) -> RgbColor {
    RgbColor { red: c.red, green: c.green, blue: c.blue }
}

impl From<u32> for RgbColor {
    /// Unpack the low 24 bits; the top byte is discarded.
    fn from(value: u32) -> (r: RgbColor) {
        RgbColor { red: (value >> 16) as u8, green: (value >> 8) as u8, blue: value as u8 }
    }
}

impl vstd::std_specs::convert::FromSpecImpl<u32> for RgbColor {
    open spec fn obeys_from_spec() -> bool {
        true
    }

    open spec fn from_spec(v: u32) -> RgbColor {
        rgb_of_u32(v)
    }
}

impl From<RgbColor> for u32 {
    fn from(color: RgbColor) -> (r: u32) {
        ((color.red as u32) << 16) | ((color.green as u32) << 8) | (color.blue as u32)
    }
}

impl vstd::std_specs::convert::FromSpecImpl<RgbColor> for u32 {
    open spec fn obeys_from_spec() -> bool {
        true
    }

    open spec fn from_spec(c: RgbColor) -> u32 {
        u32_of_rgb(c)
    }
}

/// An RGB color whose textual form is the HTML hex code `#rrggbb`.
#[derive(Copy, Clone, Debug, PartialEq, Eq, Structural)]
pub struct HtmlColor(pub RgbColor);

impl HtmlColor {
    /// Decode a `#rrggbb` string, rejecting anything else.
    pub fn parse(s: &str) -> (r: Result<HtmlColor, ApiError>)
        ensures
            is_color_text(s@) ==> (r matches Ok(h) && h.0 == rgb_of_color(color_of_text(s@))),
            !is_color_text(s@) ==> (r matches Err(ApiError::Validation { input }) && input@
                == s@),
    {
        match Color::parse(s) {
            Ok(c) => Ok(HtmlColor(RgbColor { red: c.red, green: c.green, blue: c.blue })),
            Err(e) => Err(e),
        }
    }

    /// Encode as `#rrggbb`, always lowercase and zero-padded.
    pub fn to_html(self) -> (r: String)
        ensures
            r@ == crate::common::color_text_of(
                Color { red: self.0.red, green: self.0.green, blue: self.0.blue },
            ),
    {
        let c = Color { red: self.0.red, green: self.0.green, blue: self.0.blue };
        c.to_html()
    }
}

} // verus!
