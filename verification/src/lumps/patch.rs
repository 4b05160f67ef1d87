use vstd::arithmetic::div_mod::{lemma_fundamental_div_mod, lemma_fundamental_div_mod_converse};
use vstd::prelude::*;

use crate::codec::{le_i32, le_u16, read_i32_le, read_u16_le};
use crate::error::WadError;
use crate::lump::{LumpData, LumpInfo, LumpKind, LumpModel};
use crate::lumps::palette::{Palettes, PalettesModel};
use crate::models::lump::Lump;
use crate::properties::color::ColorRgb;

verus! {

/// The header of a picture: its size and the offsets it is drawn at.
#[derive(Clone, Copy, Debug, PartialEq, Eq, Structural)]
pub struct DoomImageInfo {
    pub width: u16,
    pub height: u16,
    pub left: u16,
    pub top: u16,
}

impl Default for DoomImageInfo {
    fn default() -> (r: Self)
        ensures
            r == (DoomImageInfo { width: 0, height: 0, left: 0, top: 0 }),
    {
        DoomImageInfo { width: 0, height: 0, left: 0, top: 0 }
    }
}

/// The header that the first eight bytes of a payload stand for.
pub open spec fn image_header(buffer: Seq<u8>) -> DoomImageInfo {
    DoomImageInfo {
        width: le_u16(buffer.subrange(0, 2)) as u16,
        height: le_u16(buffer.subrange(2, 4)) as u16,
        left: le_u16(buffer.subrange(4, 6)) as u16,
        top: le_u16(buffer.subrange(6, 8)) as u16,
    }
}

impl DoomImageInfo {
    /// The header that the first eight bytes of `bytes` stand for.
    pub fn from_bytes(bytes: &[u8]) -> (r: Self)
        requires
            bytes.len() >= 8,
        ensures
            r == image_header(bytes@),
    {
        DoomImageInfo {
            width: read_u16_le(bytes, 0),
            height: read_u16_le(bytes, 2),
            left: read_u16_le(bytes, 4),
            top: read_u16_le(bytes, 6),
        }
    }
}

/// Where the posts of column `col` begin: the entry of the column table that
/// follows the header.
pub open spec fn column_start(buffer: Seq<u8>, col: int) -> int {
    le_i32(buffer.subrange(8 + 4 * col, 12 + 4 * col))
}

/// Whether the payload holds the whole column table and at least one byte
/// behind it.
pub open spec fn column_table_fits(buffer: Seq<u8>, width: int) -> bool {
    width == 0 || 4 * width + 8 < buffer.len()
}

/// A picture of `width` by `height` pixels with nothing drawn.
pub open spec fn blank(width: int, height: int) -> Seq<Option<u8>> {
    Seq::new((width * height) as nat, |k: int| None::<u8>)
}

/// The picture after a post is drawn: in column `col` the rows from `row` on
/// take the `count` bytes that stand at `from`.
pub open spec fn with_post(
    pixels: Seq<Option<u8>>,
    width: int,
    col: int,
    row: int,
    count: int,
    buffer: Seq<u8>,
    from: int,
) -> Seq<Option<u8>> {
    Seq::new(
        pixels.len(),
        |k: int|
            if k % width == col && row <= k / width < row + count {
                Some(buffer[from + k / width - row])
            } else {
                pixels[k]
            },
    )
}

/// Whether a post lies inside the picture and its bytes inside the payload.
pub open spec fn post_fits(height: int, row: int, count: int, buffer: Seq<u8>, from: int) -> bool {
    count == 0 || (row + count <= height && from + count <= buffer.len())
}

/// The picture after the posts of column `col` that begin at `pos` are drawn,
/// where all of them fit. A post is a row, a count, a byte that is skipped,
/// `count` pixels and one more byte that is skipped; the row 255 ends the
/// column, and a column that the payload ends before is malformed.
pub open spec fn draw_column(
    pixels: Seq<Option<u8>>,
    buffer: Seq<u8>,
    info: DoomImageInfo,
    col: int,
    pos: int,
) -> Option<Seq<Option<u8>>>
    decreases buffer.len() - pos,
{
    if pos < 0 || pos >= buffer.len() {
        None
    } else if buffer[pos] == 0xff {
        Some(pixels)
    } else if pos + 1 >= buffer.len() {
        None
    } else {
        let row = buffer[pos] as nat;
        let count = buffer[pos + 1] as nat;
        if !post_fits(info.height as int, row as int, count as int, buffer, pos + 3) {
            None
        } else if pos + 4 + count >= buffer.len() {
            None
        } else {
            draw_column(
                with_post(pixels, info.width as int, col, row as int, count as int, buffer, pos + 3),
                buffer,
                info,
                col,
                pos + 4 + count,
            )
        }
    }
}

/// The picture after the first `upto` columns are drawn, where all fit.
pub open spec fn draw_columns(buffer: Seq<u8>, info: DoomImageInfo, upto: int) -> Option<
    Seq<Option<u8>>,
>
    decreases upto,
{
    if upto <= 0 {
        Some(blank(info.width as int, info.height as int))
    } else {
        match draw_columns(buffer, info, upto - 1) {
            None => None,
            Some(pixels) => draw_column(
                pixels,
                buffer,
                info,
                upto - 1,
                column_start(buffer, upto - 1),
            ),
        }
    }
}

/// The picture of a payload, where the payload is well formed: it holds the
/// header and the column table, and every post of every column fits.
pub open spec fn decode_image(buffer: Seq<u8>) -> Option<Seq<Option<u8>>> {
    if buffer.len() < 8 {
        None
    } else if !column_table_fits(buffer, image_header(buffer).width as int) {
        None
    } else {
        draw_columns(buffer, image_header(buffer), image_header(buffer).width as int)
    }
}

/// The picture in four channels: nothing for a pixel that is not drawn, else
/// the color that the pixel selects.
pub open spec fn image_bytes(pixels: Seq<Option<u8>>, palette: Seq<ColorRgb>) -> Seq<u8> {
    Seq::new(
        4 * pixels.len(),
        |k: int|
            match pixels[k / 4] {
                None => 0u8,
                Some(index) => {
                    let c = palette[index as int];
                    if k % 4 == 0 {
                        c.red()
                    } else if k % 4 == 1 {
                        c.green()
                    } else if k % 4 == 2 {
                        c.blue()
                    } else {
                        c.alpha()
                    }
                },
            },
    )
}

/// Whether every drawn pixel selects a color of the palette.
pub open spec fn image_paintable(pixels: Seq<Option<u8>>, palette: Option<Seq<ColorRgb>>) -> bool {
    &&& palette is Some
    &&& forall|i: int|
        0 <= i < pixels.len() ==> (#[trigger] pixels[i] matches Some(index) ==> (index as int)
            < palette->0.len())
}

/// What a picture is: its header, its pixels, the palettes it took when it
/// was classified, and its lump.
pub struct ImageModel {
    pub img_info: DoomImageInfo,
    pub pixels: Seq<Option<u8>>,
    pub palettes: PalettesModel,
    pub data: LumpModel,
}

impl ImageModel {
    /// Whether the payload is a well-formed picture.
    pub open spec fn decodable(self) -> bool {
        decode_image(self.data.buffer) is Some
    }

    /// The state after decoding: header and pixels of the payload, or the
    /// default header and no pixel where the payload is malformed.
    pub open spec fn decoded(self) -> ImageModel {
        match decode_image(self.data.buffer) {
            Some(pixels) => ImageModel {
                img_info: image_header(self.data.buffer),
                pixels: pixels,
                ..self
            },
            None => ImageModel {
                img_info: DoomImageInfo { width: 0, height: 0, left: 0, top: 0 },
                pixels: Seq::empty(),
                ..self
            },
        }
    }
}

/// A picture stored column by column, each column as a list of posts.
pub struct DoomImage {
    /// The header.
    pub img_info: DoomImageInfo,
    /// One entry a pixel, row by row: the color index, or nothing where no
    /// post covers the pixel.
    pixels: Vec<Option<u8>>,
    /// The palettes the picture took when it was classified.
    palettes: Palettes,
    /// Payload, entry and kind.
    data: LumpData,
}

impl View for DoomImage {
    type V = ImageModel;

    closed spec fn view(&self) -> ImageModel {
        ImageModel {
            img_info: self.img_info,
            pixels: self.pixels@,
            palettes: self.palettes@,
            data: self.data@,
        }
    }
}

/// A copy of the pixels.
fn copy_pixels(pixels: &Vec<Option<u8>>) -> (r: Vec<Option<u8>>)
    ensures
        r@ == pixels@,
{
    let mut r: Vec<Option<u8>> = Vec::new();
    let mut i: usize = 0;
    while i < pixels.len()
        invariant
            i <= pixels@.len(),
            r@ == pixels@.take(i as int),
        decreases pixels@.len() - i,
    {
        r.push(pixels[i]);
        assert(pixels@.take(i + 1) =~= pixels@.take(i as int).push(pixels@[i as int]));
        i += 1;
    }
    assert(pixels@.take(i as int) =~= pixels@);
    r
}

impl Clone for DoomImage {
    fn clone(&self) -> (r: Self)
        ensures
            r@ == self@,
    {
        DoomImage {
            img_info: self.img_info,
            pixels: copy_pixels(&self.pixels),
            palettes: self.palettes.clone(),
            data: self.data.clone(),
        }
    }
}

/// A cell of a picture is told by its column and its row.
proof fn lemma_cell(width: int, col: int, row: int)
    requires
        0 <= col < width,
        0 <= row,
    ensures
        (row * width + col) % width == col,
        (row * width + col) / width == row,
        row * width + col >= 0,
{
    lemma_fundamental_div_mod_converse(row * width + col, width, row, col);
    assert(row * width >= 0) by (nonlinear_arith)
        requires
            row >= 0,
            width > 0,
    ;
}

/// The cells of a picture are counted row by row.
proof fn lemma_cell_bound(width: int, height: int, col: int, row: int)
    requires
        0 <= col < width,
        0 <= row < height,
    ensures
        row * width + col < width * height,
{
    assert(row * width + width <= height * width) by (nonlinear_arith)
        requires
            row + 1 <= height,
            width > 0,
    ;
    assert(height * width == width * height) by (nonlinear_arith);
}

/// A picture of `width` by `height` pixels with nothing drawn.
fn blank_pixels(width: u16, height: u16) -> (r: Vec<Option<u8>>)
    ensures
        r@ == blank(width as int, height as int),
{
    assert(width * height <= 65535 * 65535) by (nonlinear_arith)
        requires
            0 <= width <= 65535,
            0 <= height <= 65535,
    ;
    let total: usize = (width as usize) * (height as usize);
    let mut r: Vec<Option<u8>> = Vec::new();
    let mut i: usize = 0;
    while i < total
        invariant
            i <= total,
            r@.len() == i,
            forall|k: int| 0 <= k < i ==> r@[k] == None::<u8>,
        decreases total - i,
    {
        r.push(None);
        i += 1;
    }
    assert(r@ =~= blank(width as int, height as int));
    r
}

/// Draws the posts of column `col` that begin at `start`.
fn draw_posts(
    pixels: &mut Vec<Option<u8>>,
    buffer: &Vec<u8>,
    info: DoomImageInfo,
    col: usize,
    start: i32,
) -> (ok: bool)
    requires
        col < info.width,
        old(pixels)@.len() == info.width * info.height,
    ensures
        ok == draw_column(old(pixels)@, buffer@, info, col as int, start as int) is Some,
        ok ==> Some(final(pixels)@) == draw_column(
            old(pixels)@,
            buffer@,
            info,
            col as int,
            start as int,
        ),
        final(pixels)@.len() == old(pixels)@.len(),
{
    if start < 0 {
        return false;
    }
    let width = info.width as usize;
    let height = info.height as usize;
    let len = buffer.len();
    let mut pos: usize = start as usize;
    loop
        invariant
            col < info.width,
            width == info.width,
            height == info.height,
            pixels@.len() == info.width * info.height,
            pixels@.len() == old(pixels)@.len(),
            buffer@.len() == len,
            draw_column(old(pixels)@, buffer@, info, col as int, start as int) == draw_column(
                pixels@,
                buffer@,
                info,
                col as int,
                pos as int,
            ),
        decreases buffer@.len() - pos,
    {
        if pos >= buffer.len() {
            return false;
        }
        let row = buffer[pos] as usize;
        if row == 0xff {
            return true;
        }
        if buffer.len() - pos <= 1 {
            return false;
        }
        let count = buffer[pos + 1] as usize;
        if count > 0 && (row + count > height || buffer.len() - pos < 3 || buffer.len() - pos - 3
            < count) {
            return false;
        }
        let ghost before = pixels@;
        let mut j: usize = 0;
        while j < count
            invariant
                j <= count,
                col < width,
                width == info.width,
                height == info.height,
                j < count ==> row + count <= height,
                j < count ==> pos + 3 + count <= buffer@.len(),
                buffer@.len() == len,
                pixels@.len() == info.width * info.height,
                pixels@ == with_post(
                    before,
                    width as int,
                    col as int,
                    row as int,
                    j as int,
                    buffer@,
                    pos + 3,
                ),
            decreases count - j,
        {
            proof {
                lemma_cell(width as int, col as int, row + j);
                lemma_cell_bound(width as int, height as int, col as int, row + j);
                assert((row + j) * width <= 65535 * 65535) by (nonlinear_arith)
                    requires
                        0 <= row + j <= 65535,
                        0 <= width <= 65535,
                ;
            }
            let index: usize = (row + j) * width + col;
            let ghost prior = pixels@;
            pixels.set(index, Some(buffer[pos + 3 + j]));
            proof {
                let next = with_post(
                    before,
                    width as int,
                    col as int,
                    row as int,
                    j + 1,
                    buffer@,
                    pos + 3,
                );
                assert forall|k: int| 0 <= k < next.len() implies pixels@[k] == next[k] by {
                    if k % (width as int) == col as int && k / (width as int) == row + j {
                        lemma_fundamental_div_mod(k, width as int);
                        assert(k == (width as int) * (row + j) + col);
                        assert((width as int) * (row + j) == (row + j) * (width as int))
                            by (nonlinear_arith);
                    }
                }
                assert(pixels@ =~= next);
            }
            j += 1;
        }
        assert(before =~= with_post(
            before,
            width as int,
            col as int,
            row as int,
            0,
            buffer@,
            pos + 3,
        ));
        if buffer.len() - pos <= 4 + count {
            return false;
        }
        pos = pos + 4 + count;
    }
}

impl DoomImage {
    /// A picture that is not decoded yet.
    pub fn new(palettes: Palettes, data: LumpData) -> (r: Self)
        ensures
            r@ == (ImageModel {
                img_info: DoomImageInfo { width: 0, height: 0, left: 0, top: 0 },
                pixels: Seq::empty(),
                palettes: palettes@,
                data: data@,
            }),
    {
        DoomImage { img_info: DoomImageInfo::default(), pixels: Vec::new(), palettes, data }
    }

    /// The picture in four channels, row by row, where a palette is selected
    /// and every drawn pixel selects one of its colors.
    pub fn buffer(&self) -> (r: Option<Vec<u8>>)
        ensures
            r is Some <==> image_paintable(self@.pixels, self@.palettes.selected()),
            r matches Some(bytes) ==> bytes@ == image_bytes(
                self@.pixels,
                self@.palettes.selected()->0,
            ),
    {
        let palette = match self.palettes.selected() {
            Some(p) => p,
            None => {
                return None;
            },
        };
        let mut bytes: Vec<u8> = Vec::new();
        let mut i: usize = 0;
        while i < self.pixels.len()
            invariant
                i <= self.pixels@.len(),
                Some(palette@) == self@.palettes.selected(),
                bytes@.len() == 4 * i,
                forall|j: int|
                    0 <= j < i ==> (#[trigger] self.pixels@[j] matches Some(index) ==> (
                    index as int) < palette@.len()),
                forall|k: int|
                    0 <= k < 4 * i ==> bytes@[k] == image_bytes(self.pixels@, palette@)[k],
            decreases self.pixels@.len() - i,
        {
            match self.pixels[i] {
                None => {
                    bytes.push(0);
                    bytes.push(0);
                    bytes.push(0);
                    bytes.push(0);
                },
                Some(index) => {
                    if index as usize >= palette.len() {
                        assert(self.pixels@[i as int] == Some(index));
                        return None;
                    }
                    let (red, green, blue, alpha) = palette[index as usize].rgba();
                    bytes.push(red);
                    bytes.push(green);
                    bytes.push(blue);
                    bytes.push(alpha);
                },
            }
            i += 1;
        }
        assert(bytes@ =~= image_bytes(self.pixels@, palette@));
        Some(bytes)
    }

    /// The name of the lump has eight bytes and its id twelve.
    pub proof fn lemma_whole(&self)
        ensures
            self@.data.metadata.name.len() == 8,
            self@.data.metadata.id.len() == 12,
    {
        self.data.lemma_whole();
    }

    /// The directory entry.
    pub fn info(&self) -> (r: LumpInfo)
        ensures
            r@ == self@.data.metadata,
    {
        self.data.metadata
    }

    /// The payload.
    pub fn payload(&self) -> (r: &Vec<u8>)
        ensures
            r@ == self@.data.buffer,
    {
        &self.data.buffer
    }

    /// The kind.
    pub fn kind(&self) -> (r: LumpKind)
        ensures
            r == self@.data.kind,
    {
        self.data.kind
    }

    /// The pixels, row by row.
    pub fn pixels(&self) -> (r: &Vec<Option<u8>>)
        ensures
            r@ == self@.pixels,
    {
        &self.pixels
    }

    /// Forgets what was decoded.
    fn reset(&mut self)
        ensures
            final(self)@ == (ImageModel {
                img_info: DoomImageInfo { width: 0, height: 0, left: 0, top: 0 },
                pixels: Seq::empty(),
                ..old(self)@
            }),
    {
        self.img_info = DoomImageInfo::default();
        self.pixels = Vec::new();
    }
}

impl Lump for DoomImage {
    open spec fn held(&self) -> LumpModel {
        self@.data
    }

    /// Reads the header and draws every column. Fails, and leaves the default
    /// header and no pixel, where the payload is malformed.
    fn parse(&mut self) -> (r: Result<(), WadError>)
        ensures
            final(self)@ == old(self)@.decoded(),
            r is Ok <==> old(self)@.decodable(),
            r is Err ==> r == Err::<(), WadError>(WadError::InvalidLumpName),
    {
        self.reset();
        if self.data.buffer.len() < 8 {
            return Err(WadError::InvalidLumpName);
        }
        let info = DoomImageInfo::from_bytes(self.data.buffer.as_slice());
        let width = info.width as usize;
        if width > 0 && 4 * width + 8 >= self.data.buffer.len() {
            return Err(WadError::InvalidLumpName);
        }
        let mut pixels = blank_pixels(info.width, info.height);
        assert(pixels@.len() == info.width * info.height);
        let mut col: usize = 0;
        while col < width
            invariant
                col <= width,
                width == info.width,
                info == image_header(self.data.buffer@),
                column_table_fits(self.data.buffer@, width as int),
                pixels@.len() == info.width * info.height,
                self.data.buffer@.len() <= usize::MAX,
                Some(pixels@) == draw_columns(self.data.buffer@, info, col as int),
                self@ == (ImageModel {
                    img_info: DoomImageInfo { width: 0, height: 0, left: 0, top: 0 },
                    pixels: Seq::empty(),
                    ..old(self)@
                }),
            decreases width - col,
        {
            let start = read_i32_le(self.data.buffer.as_slice(), 8 + 4 * col);
            let ok = draw_posts(&mut pixels, &self.data.buffer, info, col, start);
            if !ok {
                proof {
                    lemma_draw_fails(self.data.buffer@, info, col + 1, width as int);
                }
                return Err(WadError::InvalidLumpName);
            }
            col += 1;
        }
        self.img_info = info;
        self.pixels = pixels;
        Ok(())
    }

    fn data(&self) -> (d: LumpData) {
        self.data.clone()
    }

    /// Replaces payload, entry and kind. What was decoded stays until the
    /// next decoding.
    fn set_data(&mut self, data: LumpData)
        ensures
            final(self)@ == (ImageModel { data: data@, ..old(self)@ }),
    {
        self.data = data;
    }

    fn update(&mut self, buffer: &Vec<u8>) -> (r: Result<(), WadError>)
        ensures
            final(self)@ == old(self)@,
    {
        Err(WadError::Unknown)
    }
}

/// Once a column cannot be drawn, no later state of the picture exists.
proof fn lemma_draw_fails(buffer: Seq<u8>, info: DoomImageInfo, failed: int, upto: int)
    requires
        0 < failed <= upto,
        draw_columns(buffer, info, failed) is None,
    ensures
        draw_columns(buffer, info, upto) is None,
    decreases upto - failed,
{
    if failed < upto {
        lemma_draw_fails(buffer, info, failed, upto - 1);
    }
}

} // verus!
