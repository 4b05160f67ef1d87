use vstd::prelude::*;

use crate::codec::{copy_range, le_u16, read_u16_le};
use crate::error::WadError;

verus! {

/// The four bytes a score begins with: `MUS` and 0x1a.
pub const MUS_MAGIC: [u8; 4] = [0x4d, 0x55, 0x53, 0x1a];

/// What the header of a score holds.
pub struct MusHeaderModel {
    pub magic: Seq<u8>,
    pub song_len: u16,
    pub song_start: u16,
    pub channels: u16,
    pub sec_channels: u16,
    pub instr_count: u16,
    pub dummy: u16,
    pub instruments: Seq<u16>,
}

/// The header that the first sixteen bytes of a score stand for. The list
/// of instruments that follows them is not read.
pub open spec fn mus_header(bytes: Seq<u8>) -> MusHeaderModel {
    MusHeaderModel {
        magic: bytes.subrange(0, 4),
        song_len: le_u16(bytes.subrange(4, 6)) as u16,
        song_start: le_u16(bytes.subrange(6, 8)) as u16,
        channels: le_u16(bytes.subrange(8, 10)) as u16,
        sec_channels: le_u16(bytes.subrange(10, 12)) as u16,
        instr_count: le_u16(bytes.subrange(12, 14)) as u16,
        dummy: le_u16(bytes.subrange(14, 16)) as u16,
        instruments: Seq::empty(),
    }
}

/// The header of a score. Every number is little-endian.
#[derive(Debug)]
pub struct MusHeader {
    /// `MUS` and 0x1a.
    pub magic: [u8; 4],
    /// The length of the score in bytes.
    pub song_len: u16,
    /// Where the score begins in the file.
    pub song_start: u16,
    /// The number of primary channels.
    pub channels: u16,
    /// The number of secondary channels.
    pub sec_channels: u16,
    /// The number of instruments.
    pub instr_count: u16,
    /// Reserved.
    pub dummy: u16,
    /// The instruments.
    pub instruments: Vec<u16>,
}

impl View for MusHeader {
    type V = MusHeaderModel;

    open spec fn view(&self) -> MusHeaderModel {
        MusHeaderModel {
            magic: self.magic@,
            song_len: self.song_len,
            song_start: self.song_start,
            channels: self.channels,
            sec_channels: self.sec_channels,
            instr_count: self.instr_count,
            dummy: self.dummy,
            instruments: self.instruments@,
        }
    }
}

/// The header with nothing in it.
pub open spec fn empty_mus_header() -> MusHeaderModel {
    MusHeaderModel {
        magic: seq![0u8, 0u8, 0u8, 0u8],
        song_len: 0,
        song_start: 0,
        channels: 0,
        sec_channels: 0,
        instr_count: 0,
        dummy: 0,
        instruments: Seq::empty(),
    }
}

impl Default for MusHeader {
    fn default() -> (r: Self)
        ensures
            r@ == empty_mus_header(),
    {
        let r = MusHeader {
            magic: [0, 0, 0, 0],
            song_len: 0,
            song_start: 0,
            channels: 0,
            sec_channels: 0,
            instr_count: 0,
            dummy: 0,
            instruments: Vec::new(),
        };
        assert(r.magic@ =~= seq![0u8, 0u8, 0u8, 0u8]);
        r
    }
}

impl Clone for MusHeader {
    fn clone(&self) -> (r: Self)
        ensures
            r@ == self@,
    {
        MusHeader {
            magic: self.magic,
            song_len: self.song_len,
            song_start: self.song_start,
            channels: self.channels,
            sec_channels: self.sec_channels,
            instr_count: self.instr_count,
            dummy: self.dummy,
            instruments: self.instruments.clone(),
        }
    }
}

impl MusHeader {
    /// The header that the first sixteen bytes of `value` stand for.
    pub fn from_bytes(value: &[u8]) -> (r: Self)
        requires
            value.len() >= 16,
        ensures
            r@ == mus_header(value@),
    {
        let magic: [u8; 4] = [value[0], value[1], value[2], value[3]];
        assert(magic@ =~= value@.subrange(0, 4));
        MusHeader {
            magic,
            song_len: read_u16_le(value, 4),
            song_start: read_u16_le(value, 6),
            channels: read_u16_le(value, 8),
            sec_channels: read_u16_le(value, 10),
            instr_count: read_u16_le(value, 12),
            dummy: read_u16_le(value, 14),
            instruments: Vec::new(),
        }
    }
}

/// The byte an event begins with.
pub struct MetaEvent(pub u8);

impl MetaEvent {
    /// Whether a delay follows the event.
    pub fn last(&self) -> (r: bool)
        ensures
            r == (self.0 & 0x80 != 0),
    {
        self.0 & 0x80 != 0
    }

    /// The type of the event, from 0 to 7.
    pub fn event_type(&self) -> (r: u8)
        ensures
            r == (self.0 & 0x70) >> 4,
            r <= 7,
    {
        let b = self.0;
        assert((b & 0x70) >> 4 <= 7) by (bit_vector);
        (self.0 & 0x70) >> 4
    }

    /// The channel the event is played on, from 0 to 15.
    pub fn channel(&self) -> (r: u8)
        ensures
            r == self.0 & 0xf,
            r <= 15,
    {
        let b = self.0;
        assert(b & 0xf <= 15) by (bit_vector);
        self.0 & 0xf
    }
}

/// Event 0: a note stops.
pub struct MusReleaseNote(pub u8);

impl MusReleaseNote {
    /// The number of the note.
    pub fn note(&self) -> (r: u8)
        ensures
            r == self.0 & 0x7f,
    {
        self.0 & 0x7f
    }
}

/// Event 1: a note is played.
pub struct MusPlayNote(pub u8, pub u8);

impl MusPlayNote {
    /// The number of the note.
    pub fn note(&self) -> (r: u8)
        ensures
            r == self.0 & 0x7f,
    {
        self.0 & 0x7f
    }

    /// Whether the event brings a volume; else the note takes the volume of
    /// the note before it on the channel.
    pub fn is_volume(&self) -> (r: bool)
        ensures
            r == (self.0 & 0x80 != 0),
    {
        self.0 & 0x80 != 0
    }

    /// The volume.
    pub fn volume(&self) -> (r: u8)
        ensures
            r == self.1 & 0x7f,
    {
        self.1 & 0x7f
    }
}

/// Event 3: a controller without a value.
pub struct MusSystemEvent(pub u8);

impl MusSystemEvent {
    /// The number of the controller.
    pub fn controller(&self) -> (r: u8)
        ensures
            r == self.0 & 0x7f,
    {
        self.0 & 0x7f
    }
}

/// Event 4: a controller and its value.
pub struct MusController(pub u8, pub u8);

impl MusController {
    /// The number of the controller.
    pub fn controller(&self) -> (r: u8)
        ensures
            r == self.0 & 0x7f,
    {
        self.0 & 0x7f
    }

    /// The value.
    pub fn value(&self) -> (r: u8)
        ensures
            r == self.1 & 0x7f,
    {
        self.1 & 0x7f
    }
}

/// What a score is: its header and its events.
pub struct MusModel {
    pub header: MusHeaderModel,
    pub event_buffer: Seq<u8>,
}

/// Where the events begin: behind the header and two bytes an instrument.
pub open spec fn events_start(bytes: Seq<u8>) -> int {
    16 + 2 * mus_header(bytes).instr_count
}

/// Whether a file holds a header and the instruments the header announces.
pub open spec fn mus_readable(bytes: Seq<u8>) -> bool {
    bytes.len() >= 16 && events_start(bytes) <= bytes.len()
}

/// The score that a file stands for.
pub open spec fn mus_of_bytes(bytes: Seq<u8>) -> MusModel {
    MusModel {
        header: mus_header(bytes),
        event_buffer: bytes.subrange(events_start(bytes), bytes.len() as int),
    }
}

/// A score.
pub struct Mus {
    /// The header.
    header: MusHeader,
    /// The events.
    event_buffer: Vec<u8>,
}

impl View for Mus {
    type V = MusModel;

    closed spec fn view(&self) -> MusModel {
        MusModel { header: self.header@, event_buffer: self.event_buffer@ }
    }
}

impl Default for Mus {
    fn default() -> (r: Self)
        ensures
            r@ == (MusModel { header: empty_mus_header(), event_buffer: Seq::empty() }),
    {
        Mus { header: MusHeader::default(), event_buffer: Vec::new() }
    }
}

impl Clone for Mus {
    fn clone(&self) -> (r: Self)
        ensures
            r@ == self@,
    {
        Mus { header: self.header.clone(), event_buffer: self.event_buffer.clone() }
    }
}

impl Mus {
    /// The score with nothing in it.
    pub fn new() -> (r: Self)
        ensures
            r@ == (MusModel { header: empty_mus_header(), event_buffer: Seq::empty() }),
    {
        Self::default()
    }

    /// The header.
    pub fn header(&self) -> (r: &MusHeader)
        ensures
            r@ == self@.header,
    {
        &self.header
    }

    /// The events.
    pub fn event_buffer(&self) -> (r: &Vec<u8>)
        ensures
            r@ == self@.event_buffer,
    {
        &self.event_buffer
    }

    /// The events, to be changed.
    pub fn event_buffer_mut(&mut self) -> (r: &mut Vec<u8>)
        ensures
            r@ == old(self)@.event_buffer,
            final(self)@ == (MusModel { event_buffer: final(r)@, ..old(self)@ }),
    {
        &mut self.event_buffer
    }

    /// The score that `value` stands for. Fails where `value` is too short to
    /// hold the header and the instruments it announces.
    pub fn from_bytes(value: &[u8]) -> (r: Result<Self, WadError>)
        ensures
            r is Ok <==> mus_readable(value@),
            r matches Ok(mus) ==> mus@ == mus_of_bytes(value@),
            r matches Err(e) ==> e == WadError::InvalidLumpName,
    {
        if value.len() < 16 {
            return Err(WadError::InvalidLumpName);
        }
        let header = MusHeader::from_bytes(value);
        let offset: usize = 16 + 2 * (header.instr_count as usize);
        if offset > value.len() {
            return Err(WadError::InvalidLumpName);
        }
        let event_buffer = copy_range(value, offset, value.len());
        Ok(Mus { header, event_buffer })
    }
}

/// The MIDI controller that stands for a controller of a score, where there
/// is one.
pub open spec fn midi_controller(value: u8) -> Option<u8> {
    if value == 0 || value == 1 {
        Some(0u8)
    } else if value == 2 {
        Some(1u8)
    } else if value == 3 {
        Some(7u8)
    } else if value == 4 {
        Some(10u8)
    } else if value == 5 {
        Some(11u8)
    } else if value == 6 {
        Some(91u8)
    } else if value == 7 {
        Some(93u8)
    } else if value == 8 {
        Some(64u8)
    } else if value == 9 {
        Some(67u8)
    } else if value == 10 {
        Some(120u8)
    } else if value == 11 {
        Some(123u8)
    } else if value == 12 {
        Some(126u8)
    } else if value == 13 {
        Some(127u8)
    } else if value == 14 {
        Some(121u8)
    } else {
        None
    }
}

/// The MIDI controller that stands for controller `value` of a score. The
/// controllers from 15 on have none.
pub fn controller_as_midi(value: u8) -> (r: Result<u8, WadError>)
    ensures
        r is Ok <==> value <= 14,
        r matches Ok(c) ==> Some(c) == midi_controller(value),
        r matches Err(e) ==> e == WadError::InvalidLumpName,
{
    let ret: u8 = match value {
        0 | 1 => 0,
        2 => 1,
        3 => 7,
        4 => 10,
        5 => 11,
        6 => 91,
        7 => 93,
        8 => 64,
        9 => 67,
        10 => 120,
        11 => 123,
        12 => 126,
        13 => 127,
        14 => 121,
        _ => {
            return Err(WadError::InvalidLumpName);
        },
    };
    Ok(ret)
}

} // verus!
