use vstd::prelude::*;

use crate::error::WadError;
use crate::lump::{LumpData, LumpInfo, LumpKind, LumpModel};
use crate::lumps::palette::{Palettes, PalettesModel};
use crate::models::lump::Lump;
use crate::properties::color::ColorRgb;

verus! {

/// The width of a flat in pixels.
pub const FLAT_W: usize = 64;

/// The height of a flat in pixels.
pub const FLAT_H: usize = 64;

/// The number of pixels of a flat, and of bytes of its payload.
pub const FLAT_SIZE: usize = FLAT_W * FLAT_H;

/// Whether a payload can be drawn with a palette: it holds 4096 bytes, and
/// each of them is an index into the palette.
pub open spec fn flat_decodable(buffer: Seq<u8>, palette: Option<Seq<ColorRgb>>) -> bool {
    &&& palette is Some
    &&& buffer.len() >= 4096
    &&& forall|i: int| 0 <= i < 4096 ==> (#[trigger] buffer[i] as int) < palette->0.len()
}

/// The picture of a payload: for each of its first 4096 bytes the red, green
/// and blue of the color that the byte selects, and 255.
pub open spec fn flat_pixels(buffer: Seq<u8>, palette: Seq<ColorRgb>) -> Seq<u8> {
    Seq::new(
        16384,
        |k: int|
            {
                let c = palette[buffer[k / 4] as int];
                if k % 4 == 0 {
                    c.red()
                } else if k % 4 == 1 {
                    c.green()
                } else if k % 4 == 2 {
                    c.blue()
                } else {
                    255u8
                }
            },
    )
}

/// What a flat is: its picture, the palettes it took when it was classified,
/// and its lump.
pub struct FlatModel {
    pub pixels: Seq<u8>,
    pub palettes: PalettesModel,
    pub data: LumpModel,
}

impl FlatModel {
    /// Whether the payload can be drawn with the selected palette.
    pub open spec fn decodable(self) -> bool {
        flat_decodable(self.data.buffer, self.palettes.selected())
    }

    /// The state after decoding: the picture, or none where the payload
    /// cannot be drawn.
    pub open spec fn decoded(self) -> FlatModel {
        FlatModel {
            pixels: if self.decodable() {
                flat_pixels(self.data.buffer, self.palettes.selected()->0)
            } else {
                Seq::empty()
            },
            ..self
        }
    }
}

/// A tile of 64 by 64 pixels, one byte a pixel.
pub struct Flat {
    /// The picture, four bytes a pixel.
    pixels: Vec<u8>,
    /// The palettes the flat took when it was classified.
    palettes: Palettes,
    /// Payload, entry and kind.
    data: LumpData,
}

impl View for Flat {
    type V = FlatModel;

    closed spec fn view(&self) -> FlatModel {
        FlatModel { pixels: self.pixels@, palettes: self.palettes@, data: self.data@ }
    }
}

impl Clone for Flat {
    fn clone(&self) -> (r: Self)
        ensures
            r@ == self@,
    {
        Flat { pixels: self.pixels.clone(), palettes: self.palettes.clone(), data: self.data.clone() }
    }
}

impl Flat {
    /// A flat that is not decoded yet.
    pub fn new(palettes: Palettes, data: LumpData) -> (r: Self)
        ensures
            r@ == (FlatModel { pixels: Seq::empty(), palettes: palettes@, data: data@ }),
    {
        Flat { pixels: Vec::new(), palettes, data }
    }

    /// The name of the lump has eight bytes and its id twelve.
    pub proof fn lemma_whole(&self)
        ensures
            self@.data.metadata.name.len() == 8,
            self@.data.metadata.id.len() == 12,
    {
        self.data.lemma_whole();
    }

    /// The directory entry.
    pub fn info(&self) -> (r: LumpInfo)
        ensures
            r@ == self@.data.metadata,
    {
        self.data.metadata
    }

    /// The payload.
    pub fn payload(&self) -> (r: &Vec<u8>)
        ensures
            r@ == self@.data.buffer,
    {
        &self.data.buffer
    }

    /// The kind.
    pub fn kind(&self) -> (r: LumpKind)
        ensures
            r == self@.data.kind,
    {
        self.data.kind
    }

    /// The picture, four bytes a pixel: red, green, blue, 255.
    pub fn pixels(&self) -> (r: &Vec<u8>)
        ensures
            r@ == self@.pixels,
    {
        &self.pixels
    }
}

impl Lump for Flat {
    open spec fn held(&self) -> LumpModel {
        self@.data
    }

    /// Draws the payload with the selected palette. Fails, and leaves no
    /// picture, where the payload is short, no palette is selected, or a
    /// byte selects no color.
    fn parse(&mut self) -> (r: Result<(), WadError>)
        ensures
            final(self)@ == old(self)@.decoded(),
            r is Ok <==> old(self)@.decodable(),
            r is Err ==> r == Err::<(), WadError>(WadError::InvalidLumpName),
    {
        self.pixels = Vec::new();
        let palette = match self.palettes.selected() {
            Some(p) => p,
            None => {
                return Err(WadError::InvalidLumpName);
            },
        };
        if self.data.buffer.len() < FLAT_SIZE {
            return Err(WadError::InvalidLumpName);
        }
        let mut pixels: Vec<u8> = Vec::new();
        let mut i: usize = 0;
        while i < FLAT_SIZE
            invariant
                i <= 4096,
                self.data.buffer@.len() >= 4096,
                self.pixels@ == Seq::<u8>::empty(),
                self.data == old(self).data,
                self.palettes@ == old(self).palettes@,
                Some(palette@) == self.palettes@.selected(),
                pixels@.len() == 4 * i,
                forall|j: int| 0 <= j < i ==> (#[trigger] self.data.buffer@[j] as int) < palette@.len(),
                forall|k: int|
                    0 <= k < 4 * i ==> pixels@[k] == flat_pixels(self.data.buffer@, palette@)[k],
            decreases 4096 - i,
        {
            let byte = self.data.buffer[i] as usize;
            if byte >= palette.len() {
                assert(!((self.data.buffer@[i as int] as int) < palette@.len()));
                return Err(WadError::InvalidLumpName);
            }
            let (red, green, blue, _) = palette[byte].rgba();
            pixels.push(red);
            pixels.push(green);
            pixels.push(blue);
            pixels.push(255);
            i += 1;
        }
        assert(pixels@ =~= flat_pixels(self.data.buffer@, palette@));
        self.pixels = pixels;
        Ok(())
    }

    fn data(&self) -> (d: LumpData) {
        self.data.clone()
    }

    /// Replaces payload, entry and kind. What was decoded stays until the
    /// next decoding.
    fn set_data(&mut self, data: LumpData)
        ensures
            final(self)@ == (FlatModel { data: data@, ..old(self)@ }),
    {
        self.data = data;
    }

    fn update(&mut self, buffer: &Vec<u8>) -> (r: Result<(), WadError>)
        ensures
            final(self)@ == old(self)@,
    {
        Err(WadError::Unknown)
    }
}

} // verus!
