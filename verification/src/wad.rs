use vstd::prelude::*;
use vstd::std_specs::convert::FromSpecImpl;
use vstd::string::*;
use vstd::utf8::*;

use crate::codec::{i32_le_bytes, le_i32, lemma_i32_le_roundtrip, push_all, push_i32_le, read_i32_le};
use crate::dir::{
    directory_fits, distinct_ids, first_with_id, ids_free, no_lump_with_id, parsed, raw_lumps,
    DirectoryModel, LumpsDirectory,
};
use crate::error::WadError;
use crate::lump::{InfoModel, LumpAdd, LumpData, LumpModel, LumpState};
use crate::lumps::palette::{no_palettes, PalettesModel};
use crate::lumps::{AnyLump, LumpView};
use crate::models::operation::{
    all_hits, counted, selected_ids, selected_names, with_payloads, WadOp,
};
use crate::names::same_bytes;
use crate::output::{can_rebuild, rebuilt, WadOutput};

verus! {

/// The pattern that selects every lump.
pub const DEFAULT_RE_NAME: &'static str = ".*";

/// The magic tag of a container that stands alone.
pub const MAGIC_IWAD: [u8; 4] = [0x49, 0x57, 0x41, 0x44];

/// The magic tag of a container that patches another.
pub const MAGIC_PWAD: [u8; 4] = [0x50, 0x57, 0x41, 0x44];

/// The kinds of container.
#[derive(Clone, Copy, PartialEq, Eq, Debug, Structural)]
pub enum WadKind {
    Iwad,
    Pwad,
    Unknown,
}

/// The kind that a magic tag stands for.
pub open spec fn kind_of_magic(magic: Seq<u8>) -> WadKind {
    if magic == seq![0x49u8, 0x57u8, 0x41u8, 0x44u8] {
        WadKind::Iwad
    } else if magic == seq![0x50u8, 0x57u8, 0x41u8, 0x44u8] {
        WadKind::Pwad
    } else {
        WadKind::Unknown
    }
}

/// The magic tag of a kind; four zeros for the unknown kind.
pub open spec fn magic_of_kind(kind: WadKind) -> Seq<u8> {
    match kind {
        WadKind::Iwad => seq![0x49u8, 0x57u8, 0x41u8, 0x44u8],
        WadKind::Pwad => seq![0x50u8, 0x57u8, 0x41u8, 0x44u8],
        WadKind::Unknown => seq![0u8, 0u8, 0u8, 0u8],
    }
}

impl WadKind {
    /// The kind that the tag `magic` stands for.
    pub fn from_bytes(magic: &[u8]) -> (r: Self)
        ensures
            r == kind_of_magic(magic@),
    {
        let iwad = MAGIC_IWAD;
        let pwad = MAGIC_PWAD;
        assert(iwad@ =~= seq![0x49u8, 0x57u8, 0x41u8, 0x44u8]);
        assert(pwad@ =~= seq![0x50u8, 0x57u8, 0x41u8, 0x44u8]);
        if same_bytes(magic, iwad.as_slice()) {
            WadKind::Iwad
        } else if same_bytes(magic, pwad.as_slice()) {
            WadKind::Pwad
        } else {
            WadKind::Unknown
        }
    }

    /// The magic tag of the kind.
    pub fn to_bytes(&self) -> (r: Vec<u8>)
        ensures
            r@ == magic_of_kind(*self),
    {
        let mut r: Vec<u8> = Vec::new();
        match self {
            WadKind::Iwad => {
                push_all(&mut r, MAGIC_IWAD.as_slice());
            },
            WadKind::Pwad => {
                push_all(&mut r, MAGIC_PWAD.as_slice());
            },
            WadKind::Unknown => {
                r.push(0);
                r.push(0);
                r.push(0);
                r.push(0);
            },
        }
        assert(r@ =~= magic_of_kind(*self));
        r
    }
}

impl From<&[u8]> for WadKind {
    fn from(magic: &[u8]) -> (r: Self) {
        WadKind::from_bytes(magic)
    }
}

impl FromSpecImpl<&[u8]> for WadKind {
    open spec fn obeys_from_spec() -> bool {
        true
    }

    open spec fn from_spec(magic: &[u8]) -> Self {
        kind_of_magic(magic@)
    }
}

/// What to do with the selected lumps.
#[derive(Clone, Copy, PartialEq, Eq, Debug, Structural)]
pub enum WadOperationKind {
    Dump,
    Save,
    SaveAs,
}

impl Default for WadOperationKind {
    fn default() -> (r: Self)
        ensures
            r == WadOperationKind::Dump,
    {
        WadOperationKind::Dump
    }
}

/// The operation that a selector names, where it names one.
pub open spec fn operation_named(s: Seq<char>) -> Option<WadOperationKind> {
    if s == "dump"@ {
        Some(WadOperationKind::Dump)
    } else if s == "save"@ {
        Some(WadOperationKind::Save)
    } else if s == "save_as"@ {
        Some(WadOperationKind::SaveAs)
    } else {
        None
    }
}

/// Whether two texts are the same.
fn same_text(a: &str, b: &str) -> (r: bool)
    ensures
        r == (a@ == b@),
{
    proof {
        encode_utf8_decode_utf8(a@);
        encode_utf8_decode_utf8(b@);
    }
    same_bytes(a.as_bytes(), b.as_bytes())
}

impl WadOperationKind {
    /// The operation that `s` names: `dump`, `save` or `save_as`.
    pub fn from_str(s: &str) -> (r: Result<Self, WadError>)
        ensures
            r is Ok <==> operation_named(s@) is Some,
            r matches Ok(op) ==> Some(op) == operation_named(s@),
            r matches Err(e) ==> e == WadError::InvalidOperation,
    {
        if same_text(s, "dump") {
            Ok(WadOperationKind::Dump)
        } else if same_text(s, "save") {
            Ok(WadOperationKind::Save)
        } else if same_text(s, "save_as") {
            Ok(WadOperationKind::SaveAs)
        } else {
            Err(WadError::InvalidOperation)
        }
    }
}

/// The header of a container.
#[derive(Clone, Copy, Debug)]
pub struct WadInfo {
    /// The kind of container.
    pub kind: WadKind,
    /// The number of lumps.
    pub num_lumps: i32,
    /// Where the directory begins.
    pub dir_pos: i32,
}

impl Default for WadInfo {
    fn default() -> (r: Self)
        ensures
            r == (WadInfo { kind: WadKind::Unknown, num_lumps: 0, dir_pos: 0 }),
    {
        WadInfo { kind: WadKind::Unknown, num_lumps: 0, dir_pos: 0 }
    }
}

/// The header that twelve bytes stand for.
pub open spec fn header_of_bytes(b: Seq<u8>) -> WadInfo
    recommends
        b.len() == 12,
{
    WadInfo {
        kind: kind_of_magic(b.subrange(0, 4)),
        num_lumps: le_i32(b.subrange(4, 8)) as i32,
        dir_pos: le_i32(b.subrange(8, 12)) as i32,
    }
}

/// The twelve bytes of a header.
pub open spec fn header_bytes(info: WadInfo) -> Seq<u8> {
    magic_of_kind(info.kind) + i32_le_bytes(info.num_lumps as int) + i32_le_bytes(
        info.dir_pos as int,
    )
}

/// A header of one of the two known kinds is read back as it was written.
pub proof fn lemma_header_roundtrip(info: WadInfo)
    requires
        info.kind != WadKind::Unknown,
    ensures
        header_bytes(info).len() == 12,
        header_of_bytes(header_bytes(info)) == info,
{
    lemma_i32_le_roundtrip(info.num_lumps);
    lemma_i32_le_roundtrip(info.dir_pos);
    let b = header_bytes(info);
    assert(b.subrange(0, 4) =~= magic_of_kind(info.kind));
    assert(b.subrange(4, 8) =~= i32_le_bytes(info.num_lumps as int));
    assert(b.subrange(8, 12) =~= i32_le_bytes(info.dir_pos as int));
    assert(seq![0x49u8, 0x57u8, 0x41u8, 0x44u8][0] != seq![0x50u8, 0x57u8, 0x41u8, 0x44u8][0]);
}

impl WadInfo {
    /// The header that the first twelve bytes of `bytes` stand for.
    pub fn from_bytes(bytes: &[u8]) -> (r: Self)
        requires
            bytes.len() >= 12,
        ensures
            r == header_of_bytes(bytes@.subrange(0, 12)),
    {
        let ghost b = bytes@.subrange(0, 12);
        let magic: [u8; 4] = [bytes[0], bytes[1], bytes[2], bytes[3]];
        assert(magic@ =~= b.subrange(0, 4));
        assert(b.subrange(4, 8) =~= bytes@.subrange(4, 8));
        assert(b.subrange(8, 12) =~= bytes@.subrange(8, 12));
        WadInfo {
            kind: WadKind::from_bytes(magic.as_slice()),
            num_lumps: read_i32_le(bytes, 4),
            dir_pos: read_i32_le(bytes, 8),
        }
    }

    /// The twelve bytes of the header.
    pub fn to_bytes(&self) -> (r: Vec<u8>)
        ensures
            r@ == header_bytes(*self),
    {
        let mut r = self.kind.to_bytes();
        push_i32_le(&mut r, self.num_lumps);
        push_i32_le(&mut r, self.dir_pos);
        r
    }
}

/// What the controller of a container holds: the header, the bytes as they
/// were loaded, the selection pattern, and the directory.
pub struct WadModel {
    pub info: WadInfo,
    pub src: Seq<u8>,
    pub re_name: Seq<char>,
    pub dir: DirectoryModel,
}

/// Whether a buffer can be loaded: it holds a header of a known kind, the
/// directory table that the header announces, and the payload of every
/// entry, and every entry can be given an id of its own.
pub open spec fn can_load(buffer: Seq<u8>) -> bool {
    &&& buffer.len() >= 12
    &&& header_of_bytes(buffer.subrange(0, 12)).kind != WadKind::Unknown
    &&& directory_fits(header_of_bytes(buffer.subrange(0, 12)), buffer)
    &&& ids_free(raw_lumps(header_of_bytes(buffer.subrange(0, 12)), buffer))
}

/// The controller of a container: loads it, selects lumps, changes them,
/// and rebuilds the container from what is left.
pub struct Wad {
    /// The header: as it was loaded, and with the number of lumps alive
    /// once lumps are deleted or added.
    info: WadInfo,
    /// The bytes as they were loaded.
    src: Vec<u8>,
    /// The selection pattern.
    re_name: String,
    /// The directory.
    dir: LumpsDirectory,
}

impl View for Wad {
    type V = WadModel;

    closed spec fn view(&self) -> WadModel {
        WadModel { info: self.info, src: self.src@, re_name: self.re_name@, dir: self.dir@ }
    }
}

/// Every lump marked.
fn mark_all(count: usize) -> (r: Vec<bool>)
    ensures
        r@ == all_hits(count as nat),
{
    let mut r: Vec<bool> = Vec::new();
    let mut i: usize = 0;
    while i < count
        invariant
            i <= count,
            r@.len() == i,
            forall|j: int| 0 <= j < i ==> r@[j],
        decreases count - i,
    {
        r.push(true);
        i += 1;
    }
    assert(r@ =~= all_hits(count as nat));
    r
}

impl Wad {
    /// A controller without a container, with the pattern that selects
    /// every lump.
    pub fn new() -> (r: Self)
        ensures
            r@.info == (WadInfo { kind: WadKind::Unknown, num_lumps: 0, dir_pos: 0 }),
            r@.src == Seq::<u8>::empty(),
            r@.re_name == DEFAULT_RE_NAME@,
            r@.dir.lumps == Seq::<LumpView>::empty(),
            r@.dir.pal == no_palettes(),
    {
        Wad {
            info: WadInfo::default(),
            src: Vec::new(),
            re_name: String::from_str(DEFAULT_RE_NAME),
            dir: LumpsDirectory::new(),
        }
    }

    /// Selects palette `value`, counted around the number of palettes a
    /// container is taken to have, for the lumps that are classified from
    /// now on.
    pub fn set_palette(&mut self, value: usize)
        ensures
            final(self)@ == (WadModel {
                dir: DirectoryModel {
                    pal: PalettesModel { n: (value % 13) as usize, ..old(self)@.dir.pal },
                    ..old(self)@.dir
                },
                ..old(self)@
            }),
    {
        self.dir.set_palette(value);
    }

    /// Sets the kind of the container.
    pub fn set_kind(&mut self, value: WadKind)
        ensures
            final(self)@ == (WadModel {
                info: WadInfo { kind: value, ..old(self)@.info },
                ..old(self)@
            }),
    {
        self.info.kind = value;
    }

    /// Sets the selection pattern. A pattern that does not compile selects
    /// every lump.
    pub fn select(&mut self, value: &str)
        ensures
            final(self)@ == (WadModel { re_name: value@, ..old(self)@ }),
    {
        self.re_name = String::from_str(value);
    }

    /// The header: as it was loaded, and with the number of lumps alive
    /// once lumps are deleted or added.
    pub fn info(&self) -> (r: WadInfo)
        ensures
            r == self@.info,
    {
        self.info
    }

    /// The directory.
    pub fn dir(&self) -> (r: &LumpsDirectory)
        ensures
            r@ == self@.dir,
    {
        &self.dir
    }

    /// Loads a container: reads the header and parses the directory. Fails,
    /// and changes nothing: with `Load` where the buffer is shorter than a
    /// header, with `Type` where the magic tag is not known, with `Load`
    /// where the directory table or a payload lies outside the buffer, and
    /// with `InvalidLumpName` where an entry is left no free id.
    pub fn load(&mut self, buffer: Vec<u8>) -> (r: Result<(), WadError>)
        ensures
            r is Ok <==> can_load(buffer@),
            r is Ok ==> final(self)@ == (WadModel {
                info: header_of_bytes(buffer@.subrange(0, 12)),
                src: buffer@,
                re_name: old(self)@.re_name,
                dir: parsed(
                    raw_lumps(header_of_bytes(buffer@.subrange(0, 12)), buffer@),
                    old(self)@.dir.pal,
                ),
            }),
            r is Err ==> final(self)@ == old(self)@,
            r is Ok ==> distinct_ids(final(self)@.dir.lumps),
            r matches Err(e) ==> if buffer@.len() < 12 {
                e is Load
            } else if header_of_bytes(buffer@.subrange(0, 12)).kind == WadKind::Unknown {
                e is Type
            } else if !directory_fits(header_of_bytes(buffer@.subrange(0, 12)), buffer@) {
                e is Load
            } else {
                e is InvalidLumpName
            },
    {
        if buffer.len() < 12 {
            return Err(WadError::Load("The file size is too small."));
        }
        let info = WadInfo::from_bytes(buffer.as_slice());
        if info.kind == WadKind::Unknown {
            return Err(WadError::Type("The file is not a WAD file."));
        }
        match self.dir.parse(info, &buffer) {
            Ok(()) => {
                self.info = info;
                self.src = buffer;
                Ok(())
            },
            Err(e) => Err(e),
        }
    }

    /// Loads the container again from the bytes it was loaded from, as after
    /// a change of palette.
    pub fn reload(&mut self) -> (r: Result<(), WadError>)
        ensures
            r is Ok <==> can_load(old(self)@.src),
            r is Ok ==> final(self)@ == (WadModel {
                info: header_of_bytes(old(self)@.src.subrange(0, 12)),
                dir: parsed(
                    raw_lumps(header_of_bytes(old(self)@.src.subrange(0, 12)), old(self)@.src),
                    old(self)@.dir.pal,
                ),
                ..old(self)@
            }),
            r is Err ==> final(self)@ == old(self)@,
    {
        let buffer = self.src.clone();
        self.load(buffer)
    }

    /// The container rebuilt from the lumps alive. Fails where the number of
    /// lumps alive or an offset cannot be written in 32 bits.
    pub fn dest(&self) -> (r: Result<Vec<u8>, WadError>)
        ensures
            r is Ok <==> can_rebuild(self@.dir.lumps),
            r matches Ok(bytes) ==> bytes@ == rebuilt(self@.dir.lumps, self@.info.kind),
            r matches Err(e) ==> e is Unknown,
    {
        let mut output = WadOutput::new(self.info, &self.dir);
        match output.build() {
            Ok(()) => Ok(output.buffer()),
            Err(e) => Err(e),
        }
    }

    /// The first lump whose printable id is `name`.
    pub fn lump(&self, name: &str) -> (r: Option<&AnyLump>)
        ensures
            r matches Some(l) ==> exists|i: int|
                first_with_id(self@.dir.lumps, name@, i) && l@ == self@.dir.lumps[i],
            r is None ==> no_lump_with_id(self@.dir.lumps, name@),
    {
        self.dir.lump(name)
    }

    /// For each lump, whether it is selected by name: whether the selection
    /// pattern finds a match in its name, and true where the pattern does
    /// not compile.
    pub fn selected_names(&self) -> (r: Vec<bool>)
        ensures
            r@ == selected_names(self@.dir.lumps, self@.re_name),
    {
        match self.dir.match_names(self.re_name.as_str()) {
            Ok(hits) => hits,
            Err(_) => mark_all(self.dir.lumps.len()),
        }
    }

    /// For each lump, whether it is selected by id: whether the selection
    /// pattern finds a match in its id, and true where the pattern does not
    /// compile.
    pub fn selected_ids(&self) -> (r: Vec<bool>)
        ensures
            r@ == selected_ids(self@.dir.lumps, self@.re_name),
    {
        match self.dir.match_ids(self.re_name.as_str()) {
            Ok(hits) => hits,
            Err(_) => mark_all(self.dir.lumps.len()),
        }
    }
}

impl Wad {
    /// Writes the number of lumps alive into the header.
    fn count_alive(&mut self)
        ensures
            final(self)@ == (WadModel {
                info: counted(old(self)@.info, old(self)@.dir.lumps),
                ..old(self)@
            }),
    {
        let alive = self.dir.alive_count();
        self.info.num_lumps = if alive > i32::MAX as usize {
            i32::MAX
        } else {
            alive as i32
        };
    }
}

impl WadOp for Wad {
    open spec fn directory(&self) -> DirectoryModel {
        self@.dir
    }

    open spec fn selection(&self) -> Seq<char> {
        self@.re_name
    }

    open spec fn header(&self) -> WadInfo {
        self@.info
    }

    open spec fn source(&self) -> Seq<u8> {
        self@.src
    }

    fn remove(&mut self) {
        let hits = self.selected_ids();
        self.dir.remove_where(&hits);
        self.count_alive();
    }

    fn remove_by_name(&mut self, re: &str) -> (r: Result<(), WadError>) {
        match self.dir.remove_lumps(re) {
            Ok(_) => {
                self.count_alive();
                Ok(())
            },
            Err(e) => Err(e),
        }
    }

    fn update_lumps_raw(&mut self, buffer: &Vec<u8>) -> (r: Result<(), WadError>) {
        if buffer.len() > i32::MAX as usize {
            return Err(WadError::Unknown);
        }
        let size = buffer.len() as i32;
        let hits = self.selected_names();
        let ghost before = self.dir@.lumps;
        let change = |data: LumpData| -> (r: LumpData)
            ensures
                r@ == (LumpModel {
                    buffer: buffer@,
                    metadata: InfoModel {
                        size: size,
                        state: if data@.metadata.state.alive() {
                            LumpState::Updated
                        } else {
                            data@.metadata.state
                        },
                        ..data@.metadata
                    },
                    ..data@
                }),
            {
                let mut data = data;
                data.buffer = buffer.clone();
                data.metadata.size = size;
                if data.metadata.state.is_alive() {
                    data.metadata.state = LumpState::Updated;
                }
                data
            };
        self.dir.update_where(&hits, change);
        assert(self.dir@.lumps =~= with_payloads(before, hits@, buffer@));
        Ok(())
    }

    fn update_lumps(&mut self, buffer: &Vec<u8>) -> (r: Result<(), WadError>) {
        Err(WadError::Unknown)
    }

    fn add_lump_raw(&mut self, add: LumpAdd) -> (r: Result<String, WadError>) {
        match self.dir.insert(add) {
            Ok(id) => {
                self.count_alive();
                Ok(id)
            },
            Err(e) => Err(e),
        }
    }
}

} // verus!
