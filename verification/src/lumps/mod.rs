use vstd::prelude::*;

use crate::error::WadError;
use crate::lump::{LumpData, LumpInfo, LumpKind, LumpModel};
use crate::lumps::flat::{Flat, FlatModel};
use crate::lumps::music::lump::{DoomMusic, MusicModel};
use crate::lumps::palette::{Palettes, PalettesModel};
use crate::lumps::patch::{DoomImage, ImageModel};
use crate::lumps::unknown::Unknown;
use crate::models::lump::Lump;

/// Tiles of 64 by 64 pixels.
pub mod flat;
/// Music.
pub mod music;
/// The color tables.
pub mod palette;
/// Pictures stored column by column.
pub mod patch;
/// Lumps that are not decoded.
pub mod unknown;

verus! {

/// What a lump of any kind is.
pub enum LumpView {
    Unknown(LumpModel),
    Flat(FlatModel),
    Patch(ImageModel),
    Palette(PalettesModel),
    Music(MusicModel),
}

impl LumpView {
    /// Payload, entry and kind.
    pub open spec fn data(self) -> LumpModel {
        match self {
            LumpView::Unknown(m) => m,
            LumpView::Flat(m) => m.data,
            LumpView::Patch(m) => m.data,
            LumpView::Palette(m) => m.data,
            LumpView::Music(m) => m.data,
        }
    }

    /// The same lump with other data; what was decoded stays.
    pub open spec fn with_data(self, data: LumpModel) -> LumpView {
        match self {
            LumpView::Unknown(m) => LumpView::Unknown(data),
            LumpView::Flat(m) => LumpView::Flat(FlatModel { data: data, ..m }),
            LumpView::Patch(m) => LumpView::Patch(ImageModel { data: data, ..m }),
            LumpView::Palette(m) => LumpView::Palette(PalettesModel { data: data, ..m }),
            LumpView::Music(m) => LumpView::Music(MusicModel { data: data, ..m }),
        }
    }

    /// Whether the payload can be decoded as what the lump is.
    pub open spec fn decodable(self) -> bool {
        match self {
            LumpView::Unknown(m) => true,
            LumpView::Flat(m) => m.decodable(),
            LumpView::Patch(m) => m.decodable(),
            LumpView::Palette(m) => m.decodable(),
            LumpView::Music(m) => m.decodable(),
        }
    }

    /// The lump after its payload is decoded.
    pub open spec fn decoded(self) -> LumpView {
        match self {
            LumpView::Unknown(m) => LumpView::Unknown(m),
            LumpView::Flat(m) => LumpView::Flat(m.decoded()),
            LumpView::Patch(m) => LumpView::Patch(m.decoded()),
            LumpView::Palette(m) => LumpView::Palette(m.decoded()),
            LumpView::Music(m) => LumpView::Music(m.decoded()),
        }
    }
}

/// Decoding is idempotent: a lump that is decoded a second time, with the
/// payload and the palettes it had the first time, stays as it is.
pub proof fn lemma_decoded_twice(lump: LumpView)
    ensures
        lump.decoded().decoded() == lump.decoded(),
        lump.decoded().decodable() == lump.decodable(),
        lump.decoded().data() == lump.data(),
{
}

/// A lump of one of the five kinds.
pub enum AnyLump {
    Unknown(Unknown),
    Flat(Flat),
    Patch(DoomImage),
    Palette(Palettes),
    Music(DoomMusic),
}

impl View for AnyLump {
    type V = LumpView;

    open spec fn view(&self) -> LumpView {
        match self {
            AnyLump::Unknown(l) => LumpView::Unknown(l@),
            AnyLump::Flat(l) => LumpView::Flat(l@),
            AnyLump::Patch(l) => LumpView::Patch(l@),
            AnyLump::Palette(l) => LumpView::Palette(l@),
            AnyLump::Music(l) => LumpView::Music(l@),
        }
    }
}

impl Clone for AnyLump {
    fn clone(&self) -> (r: Self)
        ensures
            r@ == self@,
    {
        match self {
            AnyLump::Unknown(l) => AnyLump::Unknown(l.clone()),
            AnyLump::Flat(l) => AnyLump::Flat(l.clone()),
            AnyLump::Patch(l) => AnyLump::Patch(l.clone()),
            AnyLump::Palette(l) => AnyLump::Palette(l.clone()),
            AnyLump::Music(l) => AnyLump::Music(l.clone()),
        }
    }
}

impl AnyLump {
    /// The name of the lump has eight bytes and its id twelve.
    pub proof fn lemma_whole(&self)
        ensures
            self@.data().metadata.name.len() == 8,
            self@.data().metadata.id.len() == 12,
    {
        match self {
            AnyLump::Unknown(l) => l.lemma_whole(),
            AnyLump::Flat(l) => l.lemma_whole(),
            AnyLump::Patch(l) => l.lemma_whole(),
            AnyLump::Palette(l) => l.lemma_whole(),
            AnyLump::Music(l) => l.lemma_whole(),
        }
    }

    /// The directory entry.
    pub fn info(&self) -> (r: LumpInfo)
        ensures
            r@ == self@.data().metadata,
    {
        match self {
            AnyLump::Unknown(l) => l.info(),
            AnyLump::Flat(l) => l.info(),
            AnyLump::Patch(l) => l.info(),
            AnyLump::Palette(l) => l.info(),
            AnyLump::Music(l) => l.info(),
        }
    }

    /// The payload.
    pub fn payload(&self) -> (r: &Vec<u8>)
        ensures
            r@ == self@.data().buffer,
    {
        match self {
            AnyLump::Unknown(l) => l.payload(),
            AnyLump::Flat(l) => l.payload(),
            AnyLump::Patch(l) => l.payload(),
            AnyLump::Palette(l) => l.payload(),
            AnyLump::Music(l) => l.payload(),
        }
    }

    /// The kind.
    pub fn kind(&self) -> (r: LumpKind)
        ensures
            r == self@.data().kind,
    {
        match self {
            AnyLump::Unknown(l) => l.data.kind,
            AnyLump::Flat(l) => l.kind(),
            AnyLump::Patch(l) => l.kind(),
            AnyLump::Palette(l) => l.kind(),
            AnyLump::Music(l) => l.kind(),
        }
    }
}

impl Lump for AnyLump {
    open spec fn held(&self) -> LumpModel {
        self@.data()
    }

    /// Decodes the payload as what the lump is.
    fn parse(&mut self) -> (r: Result<(), WadError>)
        ensures
            final(self)@ == old(self)@.decoded(),
            r is Ok <==> old(self)@.decodable(),
            r is Err ==> r == Err::<(), WadError>(WadError::InvalidLumpName),
    {
        match self {
            AnyLump::Unknown(l) => l.parse(),
            AnyLump::Flat(l) => l.parse(),
            AnyLump::Patch(l) => l.parse(),
            AnyLump::Palette(l) => l.parse(),
            AnyLump::Music(l) => l.parse(),
        }
    }

    fn data(&self) -> (d: LumpData) {
        match self {
            AnyLump::Unknown(l) => l.data(),
            AnyLump::Flat(l) => l.data(),
            AnyLump::Patch(l) => l.data(),
            AnyLump::Palette(l) => l.data(),
            AnyLump::Music(l) => l.data(),
        }
    }

    fn set_data(&mut self, data: LumpData)
        ensures
            final(self)@ == old(self)@.with_data(data@),
    {
        match self {
            AnyLump::Unknown(l) => l.set_data(data),
            AnyLump::Flat(l) => l.set_data(data),
            AnyLump::Patch(l) => l.set_data(data),
            AnyLump::Palette(l) => l.set_data(data),
            AnyLump::Music(l) => l.set_data(data),
        }
    }

    fn update(&mut self, buffer: &Vec<u8>) -> (r: Result<(), WadError>)
        ensures
            final(self)@ == old(self)@,
    {
        match self {
            AnyLump::Unknown(l) => l.update(buffer),
            AnyLump::Flat(l) => l.update(buffer),
            AnyLump::Patch(l) => l.update(buffer),
            AnyLump::Palette(l) => l.update(buffer),
            AnyLump::Music(l) => l.update(buffer),
        }
    }
}

} // verus!
