/// Music as a lump.
pub mod lump;
/// The MIDI file a score is turned into.
pub mod mid;
/// The MUS score format.
pub mod mus;
