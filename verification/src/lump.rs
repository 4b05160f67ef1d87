use vstd::prelude::*;
use vstd::string::*;
use vstd::utf8::*;

use crate::codec::{
    copy_range, i32_be_bytes, i32_le_bytes, le_i32, lemma_i32_le_roundtrip, push_all, push_i32_be,
    push_i32_le, read_i32_le,
};
use crate::text::{ascii_chars, printable, printable_string, string_from_utf8};

verus! {

/// What a lump holds, as far as its name and place in the directory tell.
#[derive(Clone, Copy, PartialEq, Eq, Debug, Structural)]
pub enum LumpKind {
    Flat,
    Sound,
    Patch,
    Palette,
    /// A lump that is none of the others.
    Unknown,
}

impl Default for LumpKind {
    fn default() -> (r: Self)
        ensures
            r == LumpKind::Unknown,
    {
        LumpKind::Unknown
    }
}

/// Where a lump stands in its life: untouched, deleted, or given new content.
#[derive(Clone, Copy, PartialEq, Eq, Hash, Debug, Structural)]
pub enum LumpState {
    Default,
    Deleted,
    Updated,
}

impl LumpState {
    /// A lump is alive until it is deleted.
    pub open spec fn alive(self) -> bool {
        self != LumpState::Deleted
    }

    /// Whether the lump has not been deleted.
    pub fn is_alive(&self) -> (r: bool)
        ensures
            r == self.alive(),
    {
        *self != LumpState::Deleted
    }
}

/// The three fields of a directory entry as the container stores them.
pub struct Entry {
    /// Where the payload begins.
    pub pos: int,
    /// How many bytes the payload has.
    pub size: int,
    /// The eight bytes of the name, NUL-padded.
    pub name: Seq<u8>,
}

/// The entry that sixteen bytes of a directory table stand for.
pub open spec fn entry_of_bytes(b: Seq<u8>) -> Entry
    recommends
        b.len() == 16,
{
    Entry { pos: le_i32(b.subrange(0, 4)), size: le_i32(b.subrange(4, 8)), name: b.subrange(8, 16) }
}

/// The sixteen bytes that stand for an entry in a directory table.
pub open spec fn entry_bytes(e: Entry) -> Seq<u8> {
    i32_le_bytes(e.pos) + i32_le_bytes(e.size) + e.name
}

/// The id of a lump whose name has not been told apart from others: the
/// name, padded to twelve bytes.
pub open spec fn plain_id(name: Seq<u8>) -> Seq<u8> {
    name + seq![0u8, 0u8, 0u8, 0u8]
}

/// An entry of sixteen bytes is read back as it was written.
pub proof fn lemma_entry_roundtrip(e: Entry)
    requires
        i32::MIN <= e.pos <= i32::MAX,
        i32::MIN <= e.size <= i32::MAX,
        e.name.len() == 8,
    ensures
        entry_bytes(e).len() == 16,
        entry_of_bytes(entry_bytes(e)) == e,
{
    lemma_i32_le_roundtrip(e.pos as i32);
    lemma_i32_le_roundtrip(e.size as i32);
    let b = entry_bytes(e);
    assert(b.subrange(0, 4) =~= i32_le_bytes(e.pos));
    assert(b.subrange(4, 8) =~= i32_le_bytes(e.size));
    assert(b.subrange(8, 16) =~= e.name);
}

/// A directory entry, with the two fields the container does not store: the
/// id that tells lumps of one name apart, and the state.
#[derive(Clone, Copy, Debug)]
pub struct LumpInfo {
    /// Where the payload begins in the source buffer.
    pub pos: i32,
    /// The payload's length in bytes.
    pub size: i32,
    /// The name: ASCII, NUL-padded.
    pub name: [u8; 8],
    /// The name, followed by a number where the name occurred before.
    pub id: [u8; 12],
    /// Whether the lump is untouched, deleted or updated.
    pub state: LumpState,
}

impl Default for LumpInfo {
    fn default() -> (r: Self)
        ensures
            r.pos == 0,
            r.size == 0,
            r.name@ == Seq::new(8, |i: int| 0u8),
            r.id@ == Seq::new(12, |i: int| 0u8),
            r.state == LumpState::Default,
    {
        let r = LumpInfo { pos: 0, size: 0, name: [0u8; 8], id: [0u8; 12], state: LumpState::Default };
        assert(r.name@ =~= Seq::new(8, |i: int| 0u8));
        assert(r.id@ =~= Seq::new(12, |i: int| 0u8));
        r
    }
}

/// The id that a name starts with: the name in the first eight bytes, zeros
/// in the last four.
fn id_of_name(name: &[u8; 8]) -> (id: [u8; 12])
    ensures
        id@ == plain_id(name@),
{
    let mut id: [u8; 12] = [0u8; 12];
    let mut i: usize = 0;
    while i < 8
        invariant
            i <= 8,
            forall|j: int| 0 <= j < i ==> id@[j] == name@[j],
            forall|j: int| i <= j < 12 ==> id@[j] == 0,
        decreases 8 - i,
    {
        id[i] = name[i];
        i += 1;
    }
    assert(id@ =~= plain_id(name@));
    id
}

/// What a directory entry is: the stored fields, the id and the state.
pub struct InfoModel {
    pub pos: i32,
    pub size: i32,
    pub name: Seq<u8>,
    pub id: Seq<u8>,
    pub state: LumpState,
}

impl InfoModel {
    /// The three stored fields.
    pub open spec fn entry(self) -> Entry {
        Entry { pos: self.pos as int, size: self.size as int, name: self.name }
    }

    /// The name without what is not visible ASCII.
    pub open spec fn name_text(self) -> Seq<u8> {
        printable(self.name)
    }

    /// The id without what is not visible ASCII.
    pub open spec fn id_text(self) -> Seq<u8> {
        printable(self.id)
    }

    /// Whether a rebuilt container may give this lump a place of its own.
    pub open spec fn overwritable(self) -> bool {
        self.state.alive() && self.pos > 0 && self.size > 0
    }
}

impl View for LumpInfo {
    type V = InfoModel;

    open spec fn view(&self) -> InfoModel {
        InfoModel {
            pos: self.pos,
            size: self.size,
            name: self.name@,
            id: self.id@,
            state: self.state,
        }
    }
}

impl LumpInfo {

    /// An untouched entry whose id is its name.
    pub fn new(pos: i32, size: i32, name: [u8; 8]) -> (r: Self)
        ensures
            r.pos == pos,
            r.size == size,
            r.name == name,
            r.id@ == plain_id(name@),
            r.state == LumpState::Default,
    {
        let id = id_of_name(&name);
        LumpInfo { pos, size, name, id, state: LumpState::Default }
    }

    /// The entry that the first sixteen bytes of `bytes` stand for.
    pub fn from_bytes(bytes: &[u8]) -> (r: Self)
        requires
            bytes.len() >= 16,
        ensures
            r@.entry() == entry_of_bytes(bytes@.subrange(0, 16)),
            r.id@ == plain_id(r.name@),
            r.state == LumpState::Default,
    {
        let ghost b = bytes@.subrange(0, 16);
        let pos = read_i32_le(bytes, 0);
        let size = read_i32_le(bytes, 4);
        let mut name: [u8; 8] = [0u8; 8];
        let mut i: usize = 0;
        while i < 8
            invariant
                i <= 8,
                bytes.len() >= 16,
                forall|j: int| 0 <= j < i ==> name@[j] == bytes@[8 + j],
            decreases 8 - i,
        {
            name[i] = bytes[8 + i];
            i += 1;
        }
        assert(b.subrange(0, 4) =~= bytes@.subrange(0, 4));
        assert(b.subrange(4, 8) =~= bytes@.subrange(4, 8));
        assert(name@ =~= b.subrange(8, 16));
        let id = id_of_name(&name);
        LumpInfo { pos, size, name, id, state: LumpState::Default }
    }

    /// The sixteen bytes that stand for this entry in a directory table.
    pub fn to_bytes(&self) -> (r: Vec<u8>)
        ensures
            r@ == entry_bytes(self@.entry()),
    {
        let mut r: Vec<u8> = Vec::new();
        push_i32_le(&mut r, self.pos);
        push_i32_le(&mut r, self.size);
        push_all(&mut r, self.name.as_slice());
        assert(r@ =~= entry_bytes(self@.entry()));
        r
    }

    /// A byte string as text: what is not visible ASCII is left out.
    pub fn ascii(value: &[u8]) -> (r: String)
        ensures
            r@ == ascii_chars(printable(value@)),
    {
        printable_string(value)
    }

    /// The name as a string, NUL padding included.
    pub fn name(&self) -> (r: String)
        requires
            valid_utf8(self.name@),
        ensures
            r@ == decode_utf8(self.name@),
    {
        let bytes = copy_range(self.name.as_slice(), 0, 8);
        assert(bytes@ =~= self.name@);
        match string_from_utf8(bytes) {
            Some(s) => s,
            None => String::new(),
        }
    }

    /// The id as a string, NUL padding included.
    pub fn id(&self) -> (r: String)
        requires
            valid_utf8(self.id@),
        ensures
            r@ == decode_utf8(self.id@),
    {
        let bytes = copy_range(self.id.as_slice(), 0, 12);
        assert(bytes@ =~= self.id@);
        match string_from_utf8(bytes) {
            Some(s) => s,
            None => String::new(),
        }
    }

    /// The id as text: what is not visible ASCII is left out.
    pub fn id_ascii(&self) -> (r: String)
        ensures
            r@ == ascii_chars(self@.id_text()),
    {
        printable_string(self.id.as_slice())
    }

    /// The name as text: what is not visible ASCII is left out.
    pub fn name_ascii(&self) -> (r: String)
        ensures
            r@ == ascii_chars(self@.name_text()),
    {
        printable_string(self.name.as_slice())
    }

    /// Whether a rebuilt container may give this lump a place of its own:
    /// markers and deleted lumps have none.
    pub fn is_overwritable(&self) -> (r: bool)
        ensures
            r == self@.overwritable(),
    {
        self.state.is_alive() && self.pos > 0 && self.size > 0
    }
}

/// What a lump is to the directory: its payload, its entry and its kind.
pub struct LumpModel {
    pub buffer: Seq<u8>,
    pub metadata: InfoModel,
    pub kind: LumpKind,
}

/// A lump as a value of its own: a copy of the payload, the entry, the kind.
#[derive(Debug)]
pub struct LumpData {
    /// The payload.
    pub buffer: Vec<u8>,
    /// The directory entry.
    pub metadata: LumpInfo,
    /// The kind.
    pub kind: LumpKind,
}

impl View for LumpData {
    type V = LumpModel;

    open spec fn view(&self) -> LumpModel {
        LumpModel { buffer: self.buffer@, metadata: self.metadata@, kind: self.kind }
    }
}

impl Clone for LumpData {
    fn clone(&self) -> (r: Self)
        ensures
            r@ == self@,
    {
        LumpData { buffer: self.buffer.clone(), metadata: self.metadata, kind: self.kind }
    }
}

/// The lump with nothing in it.
pub open spec fn empty_lump() -> LumpModel {
    LumpModel {
        buffer: Seq::empty(),
        metadata: InfoModel {
            pos: 0,
            size: 0,
            name: Seq::new(8, |i: int| 0u8),
            id: Seq::new(12, |i: int| 0u8),
            state: LumpState::Default,
        },
        kind: LumpKind::Unknown,
    }
}

impl Default for LumpData {
    fn default() -> (r: Self)
        ensures
            r@ == empty_lump(),
    {
        LumpData { buffer: Vec::new(), metadata: LumpInfo::default(), kind: LumpKind::Unknown }
    }
}

impl LumpModel {
    /// The payload followed by the entry in big-endian form.
    pub open spec fn trailer_bytes(self) -> Seq<u8> {
        self.buffer + i32_be_bytes(self.metadata.pos as int) + i32_be_bytes(
            self.metadata.size as int,
        ) + self.metadata.name
    }

    /// The entry tells the payload's true length.
    pub open spec fn sized(self) -> bool {
        self.metadata.size == self.buffer.len()
    }
}

impl LumpData {
    /// The name of a lump has eight bytes and its id twelve.
    pub proof fn lemma_whole(&self)
        ensures
            self@.metadata.name.len() == 8,
            self@.metadata.id.len() == 12,
    {
    }

    /// The payload followed by the entry: position and size big-endian, then
    /// the name.
    pub fn into_bytes(self) -> (r: Vec<u8>)
        ensures
            r@ == self@.trailer_bytes(),
    {
        let mut r = self.buffer;
        push_i32_be(&mut r, self.metadata.pos);
        push_i32_be(&mut r, self.metadata.size);
        push_all(&mut r, self.metadata.name.as_slice());
        r
    }
}

/// Where a new lump goes.
#[derive(Clone, Copy, Debug)]
pub enum LumpAddKind {
    /// After the lump with this id.
    After(&'static str),
    /// Before the lump with this id.
    Before(&'static str),
    /// Before every other lump.
    Front,
    /// After every other lump.
    Back,
}

/// A request to add a lump: where, with what payload, under what name.
pub struct LumpAdd<'a> {
    /// Where the lump goes.
    pub kind: LumpAddKind,
    /// The payload.
    pub buffer: &'a Vec<u8>,
    /// The name, NUL-padded.
    pub name: [u8; 8],
}

/// The first eight bytes of `bytes`, NUL-padded where there are fewer.
pub open spec fn padded_name(bytes: Seq<u8>) -> Seq<u8> {
    Seq::new(8, |i: int| if i < bytes.len() { bytes[i] } else { 0u8 })
}

impl<'a> LumpAdd<'a> {
    /// A request under the first eight bytes of `name`.
    pub fn new(kind: LumpAddKind, buffer: &'a Vec<u8>, name: &str) -> (r: Self)
        ensures
            r.kind == kind,
            r.buffer == buffer,
            r.name@ == padded_name(name.spec_bytes()),
    {
        let mut array: [u8; 8] = [0u8; 8];
        let bytes = name.as_bytes();
        let mut i: usize = 0;
        while i < 8 && i < bytes.len()
            invariant
                i <= 8,
                i <= bytes@.len(),
                forall|j: int| 0 <= j < i ==> array@[j] == bytes@[j],
                forall|j: int| i <= j < 8 ==> array@[j] == 0,
            decreases 8 - i,
        {
            array[i] = bytes[i];
            i += 1;
        }
        assert(array@ =~= padded_name(name.spec_bytes()));
        LumpAdd { kind, buffer, name: array }
    }
}

} // verus!
