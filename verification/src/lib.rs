//! Reading, classifying, editing and rebuilding WAD containers.
//!
//! A container is a 12-byte header, a directory of 16-byte entries and the
//! payloads ("lumps") the entries point at. The crate parses the directory,
//! classifies every lump by its name and by the namespace markers around it,
//! lets callers tombstone, replace and insert lumps, and rebuilds a compact
//! container from what is left.

/// Little-endian and big-endian integer encodings.
pub mod codec;
/// The directory: classification, selection, tombstones, insertion.
pub mod dir;
/// Errors.
pub mod error;
/// Headers that announce what a build is to do.
pub mod header;
/// What holds of parsing and rebuilding together.
pub mod laws;
/// Directory entries and lump payloads.
pub mod lump;
/// The kinds of lumps and their decoders.
pub mod lumps;
/// What every kind of lump can do.
pub mod models;
/// The grammar of lump names.
pub mod names;
/// The rebuilder.
pub mod output;
/// Matching of selection patterns.
pub mod pattern;
/// Colors.
pub mod properties;
/// Printable names and their conversion to strings.
pub mod text;
/// The container: its header and its controller.
pub mod wad;
