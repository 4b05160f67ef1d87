use vstd::arithmetic::div_mod::lemma_fundamental_div_mod_converse;
use vstd::prelude::*;
use vstd::std_specs::convert::FromSpecImpl;

verus! {

/// The 32-bit value that holds four channels, red in the highest byte.
pub open spec fn pack_rgba(r: u8, g: u8, b: u8, a: u8) -> u32 {
    (r * 16777216 + g * 65536 + b * 256 + a) as u32
}

/// A color of four channels in one 32-bit value.
#[derive(Clone, Copy, Debug)]
pub struct ColorRgb {
    color: u32,
}

impl Default for ColorRgb {
    fn default() -> (r: Self)
        ensures
            r.value() == 0,
    {
        ColorRgb { color: 0 }
    }
}

impl ColorRgb {
    /// The 32-bit value.
    pub closed spec fn value(self) -> u32 {
        self.color
    }

    /// The color with this value.
    pub closed spec fn of_value(value: u32) -> ColorRgb {
        ColorRgb { color: value }
    }

    /// The color with these four channels.
    pub open spec fn of_rgba(r: u8, g: u8, b: u8, a: u8) -> ColorRgb {
        Self::of_value(pack_rgba(r, g, b, a))
    }

    /// The opaque color with these three channels.
    pub open spec fn of_rgb(r: u8, g: u8, b: u8) -> ColorRgb {
        Self::of_rgba(r, g, b, 255)
    }

    /// The color that these bytes stand for: four give the channels, three an
    /// opaque color, any other number the default.
    pub open spec fn of_bytes(bytes: Seq<u8>) -> ColorRgb {
        if bytes.len() == 4 {
            Self::of_rgba(bytes[0], bytes[1], bytes[2], bytes[3])
        } else if bytes.len() == 3 {
            Self::of_rgb(bytes[0], bytes[1], bytes[2])
        } else {
            Self::of_value(0)
        }
    }

    pub open spec fn red(self) -> u8 {
        (self.value() / 16777216) as u8
    }

    pub open spec fn green(self) -> u8 {
        ((self.value() / 65536) % 256) as u8
    }

    pub open spec fn blue(self) -> u8 {
        ((self.value() / 256) % 256) as u8
    }

    pub open spec fn alpha(self) -> u8 {
        (self.value() % 256) as u8
    }

    /// The four channels: red, green, blue, alpha.
    pub open spec fn channels(self) -> (u8, u8, u8, u8) {
        (self.red(), self.green(), self.blue(), self.alpha())
    }

    /// A color is its value, and taking a color apart gives back the channels
    /// it was made of.
    pub proof fn lemma_channels(r: u8, g: u8, b: u8, a: u8)
        ensures
            Self::of_rgba(r, g, b, a).value() == pack_rgba(r, g, b, a),
            Self::of_rgba(r, g, b, a).channels() == (r, g, b, a),
    {
        let v = pack_rgba(r, g, b, a) as int;
        assert(v == r * 16777216 + g * 65536 + b * 256 + a);
        lemma_fundamental_div_mod_converse(v, 16777216, r as int, g * 65536 + b * 256 + a);
        lemma_fundamental_div_mod_converse(v, 65536, r * 256 + g, b * 256 + a);
        lemma_fundamental_div_mod_converse(r * 256 + g, 256, r as int, g as int);
        lemma_fundamental_div_mod_converse(v, 256, r * 65536 + g * 256 + b, a as int);
        lemma_fundamental_div_mod_converse(r * 65536 + g * 256 + b, 256, r * 256 + g, b as int);
    }

    /// Two colors with one value are one color.
    pub proof fn lemma_value_decides(x: ColorRgb, y: ColorRgb)
        requires
            x.value() == y.value(),
        ensures
            x == y,
    {
    }

    /// The color with these four channels.
    pub fn from_rgba(r: u8, g: u8, b: u8, a: u8) -> (c: Self)
        ensures
            c == Self::of_rgba(r, g, b, a),
            c.channels() == (r, g, b, a),
    {
        proof {
            Self::lemma_channels(r, g, b, a);
        }
        let value: u32 = (r as u32) * 16777216 + (g as u32) * 65536 + (b as u32) * 256 + (a as u32);
        ColorRgb { color: value }
    }

    /// The opaque color with these three channels.
    pub fn from_rgb(r: u8, g: u8, b: u8) -> (c: Self)
        ensures
            c == Self::of_rgb(r, g, b),
            c.channels() == (r, g, b, 255u8),
    {
        Self::from_rgba(r, g, b, 255)
    }

    /// The color that `bytes` stand for.
    pub fn from_bytes(bytes: &[u8]) -> (c: Self)
        ensures
            c == Self::of_bytes(bytes@),
    {
        if bytes.len() == 4 {
            Self::from_rgba(bytes[0], bytes[1], bytes[2], bytes[3])
        } else if bytes.len() == 3 {
            Self::from_rgb(bytes[0], bytes[1], bytes[2])
        } else {
            ColorRgb { color: 0 }
        }
    }

    /// The four channels: red, green, blue, alpha.
    pub fn rgba(&self) -> (r: (u8, u8, u8, u8))
        ensures
            r == self.channels(),
    {
        let v = self.color;
        (
            (v / 16777216) as u8,
            ((v / 65536) % 256) as u8,
            ((v / 256) % 256) as u8,
            (v % 256) as u8,
        )
    }

    /// The 32-bit value.
    pub fn as_ref(&self) -> (r: &u32)
        ensures
            *r == self.value(),
    {
        &self.color
    }
}

impl From<(u8, u8, u8, u8)> for ColorRgb {
    fn from(channels: (u8, u8, u8, u8)) -> (c: Self) {
        ColorRgb::from_rgba(channels.0, channels.1, channels.2, channels.3)
    }
}

impl FromSpecImpl<(u8, u8, u8, u8)> for ColorRgb {
    open spec fn obeys_from_spec() -> bool {
        true
    }

    open spec fn from_spec(channels: (u8, u8, u8, u8)) -> Self {
        ColorRgb::of_rgba(channels.0, channels.1, channels.2, channels.3)
    }
}

impl From<(u8, u8, u8)> for ColorRgb {
    fn from(channels: (u8, u8, u8)) -> (c: Self) {
        ColorRgb::from_rgb(channels.0, channels.1, channels.2)
    }
}

impl FromSpecImpl<(u8, u8, u8)> for ColorRgb {
    open spec fn obeys_from_spec() -> bool {
        true
    }

    open spec fn from_spec(channels: (u8, u8, u8)) -> Self {
        ColorRgb::of_rgb(channels.0, channels.1, channels.2)
    }
}

impl From<&[u8]> for ColorRgb {
    fn from(bytes: &[u8]) -> (c: Self) {
        ColorRgb::from_bytes(bytes)
    }
}

impl FromSpecImpl<&[u8]> for ColorRgb {
    open spec fn obeys_from_spec() -> bool {
        true
    }

    open spec fn from_spec(bytes: &[u8]) -> Self {
        ColorRgb::of_bytes(bytes@)
    }
}

impl From<ColorRgb> for (u8, u8, u8, u8) {
    fn from(color: ColorRgb) -> (r: Self) {
        color.rgba()
    }
}

impl FromSpecImpl<ColorRgb> for (u8, u8, u8, u8) {
    open spec fn obeys_from_spec() -> bool {
        true
    }

    open spec fn from_spec(color: ColorRgb) -> Self {
        color.channels()
    }
}

} // verus!
