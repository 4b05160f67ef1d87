use vstd::prelude::*;

use crate::error::WadError;
use crate::lump::{empty_lump, LumpData, LumpInfo, LumpKind, LumpModel};
use crate::models::lump::Lump;
use crate::properties::color::ColorRgb;

verus! {

/// The bytes one palette takes: 256 colors of three bytes.
pub const PALETTE_SIZE: usize = 768;

/// The bytes one color takes.
pub const PIXEL_SIZE: usize = 3;

/// One table of colors.
pub type Palette = Vec<ColorRgb>;

/// How many palettes a lump of `size` bytes announces: one for every 768
/// bytes begun.
pub open spec fn palette_count(size: int) -> int {
    if size <= 0 {
        0
    } else {
        (size + 767) / 768
    }
}

/// Palette `p` of a payload: 256 opaque colors of three bytes each.
pub open spec fn palette_at(buffer: Seq<u8>, p: int) -> Seq<ColorRgb> {
    Seq::new(
        256,
        |c: int|
            ColorRgb::of_rgb(
                buffer[768 * p + 3 * c],
                buffer[768 * p + 3 * c + 1],
                buffer[768 * p + 3 * c + 2],
            ),
    )
}

/// Whether the payload holds every palette that `size` announces.
pub open spec fn palettes_decodable(buffer: Seq<u8>, size: int) -> bool {
    0 <= size && 768 * palette_count(size) <= buffer.len()
}

/// The palettes of a payload.
pub open spec fn decode_palettes(buffer: Seq<u8>, size: int) -> Seq<Seq<ColorRgb>> {
    Seq::new(palette_count(size) as nat, |p: int| palette_at(buffer, p))
}

/// The channels of every color of a palette, four bytes a color.
pub open spec fn palette_bytes(palette: Seq<ColorRgb>) -> Seq<u8> {
    Seq::new(
        4 * palette.len(),
        |k: int|
            {
                let c = palette[k / 4];
                if k % 4 == 0 {
                    c.red()
                } else if k % 4 == 1 {
                    c.green()
                } else if k % 4 == 2 {
                    c.blue()
                } else {
                    c.alpha()
                }
            },
    )
}

/// What a set of palettes is: the decoded tables, the index of the selected
/// one, and the lump they came from.
pub struct PalettesModel {
    pub colors: Seq<Seq<ColorRgb>>,
    pub n: usize,
    pub data: LumpModel,
}

impl PalettesModel {
    /// The selected palette, where there is one.
    pub open spec fn selected(self) -> Option<Seq<ColorRgb>> {
        if self.n < self.colors.len() {
            Some(self.colors[self.n as int])
        } else {
            None
        }
    }

    /// Whether the payload can be decoded.
    pub open spec fn decodable(self) -> bool {
        palettes_decodable(self.data.buffer, self.data.metadata.size as int)
    }

    /// The state after decoding: the tables of the payload, or none where it
    /// cannot be decoded.
    pub open spec fn decoded(self) -> PalettesModel {
        PalettesModel {
            colors: if self.decodable() {
                decode_palettes(self.data.buffer, self.data.metadata.size as int)
            } else {
                Seq::empty()
            },
            ..self
        }
    }
}

/// The color tables of a container, and which of them is in use.
pub struct Palettes {
    /// The decoded tables.
    pub palettes: Vec<Palette>,
    /// The index of the table in use.
    n: usize,
    /// The lump the tables are decoded from.
    data: LumpData,
}

/// The tables as sequences.
pub open spec fn tables(palettes: Seq<Vec<ColorRgb>>) -> Seq<Seq<ColorRgb>> {
    Seq::new(palettes.len(), |i: int| palettes[i]@)
}

impl View for Palettes {
    type V = PalettesModel;

    closed spec fn view(&self) -> PalettesModel {
        PalettesModel { colors: tables(self.palettes@), n: self.n, data: self.data@ }
    }
}

/// No tables, the first selected, and the empty lump.
pub open spec fn no_palettes() -> PalettesModel {
    PalettesModel { colors: Seq::empty(), n: 0, data: empty_lump() }
}

impl Default for Palettes {
    fn default() -> (r: Self)
        ensures
            r@ == no_palettes(),
    {
        let r = Palettes { palettes: Vec::new(), n: 0, data: LumpData::default() };
        assert(r@.colors =~= Seq::<Seq<ColorRgb>>::empty());
        r
    }
}

/// A copy of a table.
fn copy_palette(palette: &Vec<ColorRgb>) -> (r: Vec<ColorRgb>)
    ensures
        r@ == palette@,
{
    let mut r: Vec<ColorRgb> = Vec::new();
    let mut i: usize = 0;
    while i < palette.len()
        invariant
            i <= palette@.len(),
            r@ == palette@.take(i as int),
        decreases palette@.len() - i,
    {
        r.push(palette[i]);
        assert(palette@.take(i + 1) =~= palette@.take(i as int).push(palette@[i as int]));
        i += 1;
    }
    assert(palette@.take(i as int) =~= palette@);
    r
}

/// A copy of every table.
fn copy_tables(palettes: &Vec<Vec<ColorRgb>>) -> (r: Vec<Vec<ColorRgb>>)
    ensures
        tables(r@) == tables(palettes@),
{
    let mut r: Vec<Vec<ColorRgb>> = Vec::new();
    let mut i: usize = 0;
    while i < palettes.len()
        invariant
            i <= palettes@.len(),
            r@.len() == i,
            forall|j: int| 0 <= j < i ==> r@[j]@ == palettes@[j]@,
        decreases palettes@.len() - i,
    {
        r.push(copy_palette(&palettes[i]));
        i += 1;
    }
    assert(tables(r@) =~= tables(palettes@));
    r
}

impl Clone for Palettes {
    fn clone(&self) -> (r: Self)
        ensures
            r@ == self@,
    {
        Palettes { palettes: copy_tables(&self.palettes), n: self.n, data: self.data.clone() }
    }
}

impl Palettes {
    /// No tables, the first selected.
    pub fn new() -> (r: Self)
        ensures
            r@ == no_palettes(),
    {
        Self::default()
    }

    /// A copy of every table.
    pub fn palettes(&self) -> (r: Vec<Palette>)
        ensures
            tables(r@) == self@.colors,
    {
        copy_tables(&self.palettes)
    }

    /// The selected table, where there is one.
    pub fn selected(&self) -> (r: Option<&Palette>)
        ensures
            r is Some <==> self@.selected() is Some,
            r matches Some(p) ==> Some(p@) == self@.selected(),
    {
        if self.n < self.palettes.len() {
            Some(&self.palettes[self.n])
        } else {
            None
        }
    }

    /// A copy of the selected table, where there is one.
    pub fn palette(&self) -> (r: Option<Palette>)
        ensures
            r is Some <==> self@.selected() is Some,
            r matches Some(p) ==> Some(p@) == self@.selected(),
    {
        match self.selected() {
            Some(p) => Some(copy_palette(p)),
            None => None,
        }
    }

    /// The channels of every color of table `n`, four bytes a color; nothing
    /// where there is no such table.
    pub fn palette_as_bytes(&self, n: usize) -> (r: Vec<u8>)
        ensures
            r@ == if n < self@.colors.len() {
                palette_bytes(self@.colors[n as int])
            } else {
                Seq::<u8>::empty()
            },
    {
        let mut r: Vec<u8> = Vec::new();
        if n >= self.palettes.len() {
            return r;
        }
        let palette = &self.palettes[n];
        let mut i: usize = 0;
        while i < palette.len()
            invariant
                i <= palette@.len(),
                r@.len() == 4 * i,
                forall|k: int| 0 <= k < 4 * i ==> r@[k] == palette_bytes(palette@)[k],
            decreases palette@.len() - i,
        {
            let (red, green, blue, alpha) = palette[i].rgba();
            r.push(red);
            r.push(green);
            r.push(blue);
            r.push(alpha);
            i += 1;
        }
        assert(r@ =~= palette_bytes(palette@));
        r
    }

    /// The name of the lump has eight bytes and its id twelve.
    pub proof fn lemma_whole(&self)
        ensures
            self@.data.metadata.name.len() == 8,
            self@.data.metadata.id.len() == 12,
    {
        self.data.lemma_whole();
    }

    /// The directory entry.
    pub fn info(&self) -> (r: LumpInfo)
        ensures
            r@ == self@.data.metadata,
    {
        self.data.metadata
    }

    /// The payload.
    pub fn payload(&self) -> (r: &Vec<u8>)
        ensures
            r@ == self@.data.buffer,
    {
        &self.data.buffer
    }

    /// The kind.
    pub fn kind(&self) -> (r: LumpKind)
        ensures
            r == self@.data.kind,
    {
        self.data.kind
    }

    /// Replaces the lump the tables are decoded from. The tables stay until
    /// the next decoding.
    pub fn set_data(&mut self, data: LumpData)
        ensures
            final(self)@ == (PalettesModel { data: data@, ..old(self)@ }),
    {
        self.data = data;
    }

    /// Selects table `value`.
    pub fn set_n(&mut self, value: usize)
        ensures
            final(self)@ == (PalettesModel { n: value, ..old(self)@ }),
    {
        self.n = value;
    }
}

/// Decodes palette `p` of `buffer`.
fn read_palette(buffer: &Vec<u8>, p: usize) -> (r: Vec<ColorRgb>)
    requires
        768 * (p + 1) <= buffer.len(),
    ensures
        r@ == palette_at(buffer@, p as int),
{
    let mut r: Vec<ColorRgb> = Vec::new();
    let mut c: usize = 0;
    while c < 256
        invariant
            c <= 256,
            768 * (p + 1) <= buffer.len(),
            r@.len() == c,
            forall|j: int| 0 <= j < c ==> r@[j] == palette_at(buffer@, p as int)[j],
        decreases 256 - c,
    {
        let at = 768 * p + 3 * c;
        r.push(ColorRgb::from_rgb(buffer[at], buffer[at + 1], buffer[at + 2]));
        c += 1;
    }
    assert(r@ =~= palette_at(buffer@, p as int));
    r
}

impl Lump for Palettes {
    open spec fn held(&self) -> LumpModel {
        self@.data
    }

    /// Decodes one table for every 768 bytes that the entry announces. Fails,
    /// and leaves no table, where the payload is shorter than that.
    fn parse(&mut self) -> (r: Result<(), WadError>)
        ensures
            final(self)@ == old(self)@.decoded(),
            r is Ok <==> old(self)@.decodable(),
            r is Err ==> r == Err::<(), WadError>(WadError::InvalidLumpName),
    {
        self.palettes = Vec::new();
        let size = self.data.metadata.size;
        if size < 0 {
            assert(tables(self.palettes@) =~= Seq::<Seq<ColorRgb>>::empty());
            return Err(WadError::InvalidLumpName);
        }
        let count: usize = if size == 0 {
            0
        } else {
            (size as usize + 767) / 768
        };
        if self.data.buffer.len() / 768 < count {
            assert(tables(self.palettes@) =~= Seq::<Seq<ColorRgb>>::empty());
            return Err(WadError::InvalidLumpName);
        }
        let mut p: usize = 0;
        while p < count
            invariant
                p <= count,
                768 * count <= self.data.buffer.len(),
                self.palettes@.len() == p,
                self.n == old(self).n,
                self.data == old(self).data,
                forall|j: int| 0 <= j < p ==> self.palettes@[j]@ == palette_at(self.data.buffer@, j),
            decreases count - p,
        {
            let table = read_palette(&self.data.buffer, p);
            self.palettes.push(table);
            p += 1;
        }
        assert(tables(self.palettes@) =~= decode_palettes(
            self.data.buffer@,
            self.data.metadata.size as int,
        ));
        Ok(())
    }

    fn data(&self) -> (d: LumpData) {
        self.data.clone()
    }

    /// Replaces payload, entry and kind. What was decoded stays until the
    /// next decoding.
    fn set_data(&mut self, data: LumpData)
        ensures
            final(self)@ == (PalettesModel { data: data@, ..old(self)@ }),
    {
        self.data = data;
    }

    fn update(&mut self, buffer: &Vec<u8>) -> (r: Result<(), WadError>)
        ensures
            final(self)@ == old(self)@,
    {
        Err(WadError::Unknown)
    }
}

} // verus!
