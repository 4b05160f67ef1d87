use vstd::prelude::*;

use crate::error::WadError;
use crate::lump::{LumpData, LumpInfo, LumpKind, LumpModel};
use crate::lumps::music::mid::{midi_of, Midi};
use crate::lumps::music::mus::{empty_mus_header, mus_of_bytes, mus_readable, Mus, MusModel};
use crate::models::lump::Lump;

verus! {

/// What a piece of music is: the score, the lump, and the MIDI file of the
/// score where there is one.
pub struct MusicModel {
    pub mus: MusModel,
    pub data: LumpModel,
    pub midi: Option<Seq<u8>>,
}

impl MusicModel {
    /// Whether the payload is a well-formed score.
    pub open spec fn decodable(self) -> bool {
        mus_readable(self.data.buffer) && midi_of(mus_of_bytes(self.data.buffer)) is Some
    }

    /// The state after decoding: the score of the payload and its MIDI file.
    /// Where the payload holds no score, the empty score and no file; where
    /// the score is malformed, the score and no file.
    pub open spec fn decoded(self) -> MusicModel {
        if mus_readable(self.data.buffer) {
            MusicModel {
                mus: mus_of_bytes(self.data.buffer),
                midi: midi_of(mus_of_bytes(self.data.buffer)),
                ..self
            }
        } else {
            MusicModel {
                mus: MusModel { header: empty_mus_header(), event_buffer: Seq::empty() },
                midi: None,
                ..self
            }
        }
    }
}

/// A piece of music.
pub struct DoomMusic {
    /// The score.
    mus: Mus,
    /// Payload, entry and kind.
    data: LumpData,
    /// The MIDI file of the score.
    midi: Option<Midi>,
}

impl View for DoomMusic {
    type V = MusicModel;

    closed spec fn view(&self) -> MusicModel {
        MusicModel {
            mus: self.mus@,
            data: self.data@,
            midi: match self.midi {
                Some(m) => Some(m@),
                None => None,
            },
        }
    }
}

impl Clone for DoomMusic {
    fn clone(&self) -> (r: Self)
        ensures
            r@ == self@,
    {
        let midi = match &self.midi {
            Some(m) => Some(m.clone()),
            None => None,
        };
        DoomMusic { mus: self.mus.clone(), data: self.data.clone(), midi }
    }
}

impl DoomMusic {
    /// A piece of music that is not decoded yet.
    pub fn new(data: LumpData) -> (r: Self)
        ensures
            r@ == (MusicModel {
                mus: MusModel { header: empty_mus_header(), event_buffer: Seq::empty() },
                data: data@,
                midi: None,
            }),
    {
        DoomMusic { mus: Mus::new(), data, midi: None }
    }

    /// The MIDI file of the score, where the score could be transcoded.
    pub fn midi(&self) -> (r: Option<&Midi>)
        ensures
            r is Some <==> self@.midi is Some,
            r matches Some(m) ==> Some(m@) == self@.midi,
    {
        self.midi.as_ref()
    }

    /// The name of the lump has eight bytes and its id twelve.
    pub proof fn lemma_whole(&self)
        ensures
            self@.data.metadata.name.len() == 8,
            self@.data.metadata.id.len() == 12,
    {
        self.data.lemma_whole();
    }

    /// The directory entry.
    pub fn info(&self) -> (r: LumpInfo)
        ensures
            r@ == self@.data.metadata,
    {
        self.data.metadata
    }

    /// The payload.
    pub fn payload(&self) -> (r: &Vec<u8>)
        ensures
            r@ == self@.data.buffer,
    {
        &self.data.buffer
    }

    /// The kind.
    pub fn kind(&self) -> (r: LumpKind)
        ensures
            r == self@.data.kind,
    {
        self.data.kind
    }

    /// The score.
    pub fn mus(&self) -> (r: &Mus)
        ensures
            r@ == self@.mus,
    {
        &self.mus
    }
}

impl Lump for DoomMusic {
    open spec fn held(&self) -> LumpModel {
        self@.data
    }

    /// Reads the score and transcodes it.
    fn parse(&mut self) -> (r: Result<(), WadError>)
        ensures
            final(self)@ == old(self)@.decoded(),
            r is Ok <==> old(self)@.decodable(),
            r is Err ==> r == Err::<(), WadError>(WadError::InvalidLumpName),
    {
        self.midi = None;
        match Mus::from_bytes(self.data.buffer.as_slice()) {
            Ok(mus) => {
                self.mus = mus;
            },
            Err(_) => {
                self.mus = Mus::new();
                return Err(WadError::InvalidLumpName);
            },
        }
        match Midi::try_from(&self.mus) {
            Ok(midi) => {
                self.midi = Some(midi);
                Ok(())
            },
            Err(_) => Err(WadError::InvalidLumpName),
        }
    }

    fn data(&self) -> (d: LumpData) {
        self.data.clone()
    }

    /// Replaces payload, entry and kind. What was decoded stays until the
    /// next decoding.
    fn set_data(&mut self, data: LumpData)
        ensures
            final(self)@ == (MusicModel { data: data@, ..old(self)@ }),
    {
        self.data = data;
    }

    fn update(&mut self, buffer: &Vec<u8>) -> (r: Result<(), WadError>)
        ensures
            final(self)@ == old(self)@,
    {
        Err(WadError::Unknown)
    }
}

} // verus!
