use vstd::prelude::*;

use crate::dir::{
    added_lump, alive_count_of, can_add, has_place, hit, id_chars, id_hits, id_left, name_hits,
    place_of, tombstoned, DirectoryModel,
};
use crate::pattern::regex_compiles;
use crate::wad::WadInfo;
use crate::error::WadError;
use crate::lump::{InfoModel, LumpAdd, LumpModel, LumpState};
use crate::lumps::LumpView;

verus! {

/// Every lump marked.
pub open spec fn all_hits(count: nat) -> Seq<bool> {
    Seq::new(count, |i: int| true)
}

/// A lump with a new payload: the size follows the payload, and a lump
/// alive counts as updated.
pub open spec fn with_payload(lump: LumpView, buffer: Seq<u8>) -> LumpView {
    lump.with_data(
        LumpModel {
            buffer: buffer,
            metadata: InfoModel {
                size: buffer.len() as i32,
                state: if lump.data().metadata.state.alive() {
                    LumpState::Updated
                } else {
                    lump.data().metadata.state
                },
                ..lump.data().metadata
            },
            ..lump.data()
        },
    )
}

/// The lumps with the payload of the marked ones replaced.
pub open spec fn with_payloads(lumps: Seq<LumpView>, hits: Seq<bool>, buffer: Seq<u8>) -> Seq<
    LumpView,
> {
    Seq::new(
        lumps.len(),
        |i: int|
            if hit(hits, i) {
                with_payload(lumps[i], buffer)
            } else {
                lumps[i]
            },
    )
}

/// For each lump, whether the selection takes it by its id: whether the
/// pattern finds a match in the id, and true for every lump where the
/// pattern does not compile.
pub open spec fn selected_ids(lumps: Seq<LumpView>, selection: Seq<char>) -> Seq<bool> {
    if regex_compiles(selection) {
        id_hits(lumps, selection)
    } else {
        all_hits(lumps.len())
    }
}

/// For each lump, whether the selection takes it by its name: whether the
/// pattern finds a match in the name, and true for every lump where the
/// pattern does not compile.
pub open spec fn selected_names(lumps: Seq<LumpView>, selection: Seq<char>) -> Seq<bool> {
    if regex_compiles(selection) {
        name_hits(lumps, selection)
    } else {
        all_hits(lumps.len())
    }
}

/// The number of lumps alive as a header holds it: the number itself, and
/// the greatest number of 32 bits where it is beyond.
pub open spec fn alive_in_header(lumps: Seq<LumpView>) -> i32 {
    if alive_count_of(lumps) <= i32::MAX {
        alive_count_of(lumps) as i32
    } else {
        i32::MAX
    }
}

/// The header with the number of the lumps alive.
pub open spec fn counted(info: WadInfo, lumps: Seq<LumpView>) -> WadInfo {
    WadInfo { num_lumps: alive_in_header(lumps), ..info }
}

/// The operations that change the lumps of a container. None of them
/// touches the bytes the container was loaded from or the selection
/// pattern. Those that delete or add lumps write the number of lumps alive
/// into the header.
pub trait WadOp {
    /// The lumps of the container.
    spec fn directory(&self) -> DirectoryModel;

    /// The selection pattern.
    spec fn selection(&self) -> Seq<char>;

    /// The header.
    spec fn header(&self) -> WadInfo;

    /// The bytes the container was loaded from.
    spec fn source(&self) -> Seq<u8>;

    /// Deletes the lumps that the selection takes by their id.
    fn remove(&mut self)
        ensures
            final(self).selection() == old(self).selection(),
            final(self).source() == old(self).source(),
            final(self).directory() == (DirectoryModel {
                lumps: tombstoned(
                    old(self).directory().lumps,
                    selected_ids(old(self).directory().lumps, old(self).selection()),
                ),
                ..old(self).directory()
            }),
            final(self).header() == counted(old(self).header(), final(self).directory().lumps),
    ;

    /// Deletes the lumps in whose id `re` finds a match. Fails, and changes
    /// nothing, where `re` does not compile.
    fn remove_by_name(&mut self, re: &str) -> (r: Result<(), WadError>)
        ensures
            r is Ok <==> regex_compiles(re@),
            final(self).selection() == old(self).selection(),
            final(self).source() == old(self).source(),
            r is Ok ==> final(self).directory() == (DirectoryModel {
                lumps: tombstoned(
                    old(self).directory().lumps,
                    id_hits(old(self).directory().lumps, re@),
                ),
                ..old(self).directory()
            }) && final(self).header() == counted(
                old(self).header(),
                final(self).directory().lumps,
            ),
            r matches Err(e) ==> e is InvalidRegex && final(self).directory() == old(
                self,
            ).directory() && final(self).header() == old(self).header(),
    ;

    /// Gives the lumps that the selection takes by their name the payload
    /// `buffer`. Fails, and changes nothing, where the length of `buffer`
    /// cannot be written in a directory entry.
    fn update_lumps_raw(&mut self, buffer: &Vec<u8>) -> (r: Result<(), WadError>)
        ensures
            final(self).selection() == old(self).selection(),
            final(self).source() == old(self).source(),
            final(self).header() == old(self).header(),
            r is Ok <==> buffer@.len() <= i32::MAX,
            r is Ok ==> final(self).directory() == (DirectoryModel {
                lumps: with_payloads(
                    old(self).directory().lumps,
                    selected_names(old(self).directory().lumps, old(self).selection()),
                    buffer@,
                ),
                ..old(self).directory()
            }),
            r matches Err(e) ==> e is Unknown && final(self).directory() == old(self).directory(),
    ;

    /// Would give the selected lumps the content that `buffer`, a file in
    /// the format the lumps are exported in, encodes. No kind of lump can do
    /// this yet: the call fails and changes nothing.
    fn update_lumps(&mut self, buffer: &Vec<u8>) -> (r: Result<(), WadError>)
        ensures
            r matches Err(e) && e is Unknown,
            final(self).selection() == old(self).selection(),
            final(self).source() == old(self).source(),
            final(self).header() == old(self).header(),
            final(self).directory() == old(self).directory(),
    ;

    /// Adds a lump of no kind with the payload and under the name of the
    /// request, at the place the request asks for. Gives the printable id of
    /// the lump. Fails, and changes nothing: with `Unknown` where the
    /// payload is too long or no greater position is left, else with
    /// `InvalidLumpName` where the request names a lump that the container
    /// does not hold or the name is left no id.
    fn add_lump_raw(&mut self, add: LumpAdd) -> (r: Result<String, WadError>)
        ensures
            final(self).selection() == old(self).selection(),
            final(self).source() == old(self).source(),
            r is Ok <==> can_add(old(self).directory().lumps, add.buffer@) && has_place(
                old(self).directory().lumps,
                add.kind,
            ) && id_left(old(self).directory().lumps, add.name@),
            r matches Ok(id) ==> id@ == id_chars(
                added_lump(old(self).directory().lumps, add.buffer@, add.name@),
            ) && final(self).header() == counted(old(self).header(), final(self).directory().lumps)
                && exists|at: int|
                place_of(old(self).directory().lumps, add.kind, at) && 0 <= at <= old(
                    self,
                ).directory().lumps.len() && final(self).directory() == (DirectoryModel {
                    lumps: old(self).directory().lumps.insert(
                        at,
                        added_lump(old(self).directory().lumps, add.buffer@, add.name@),
                    ),
                    ..old(self).directory()
                }),
            r is Err ==> final(self).directory() == old(self).directory() && final(self).header()
                == old(self).header(),
            r matches Err(e) ==> if can_add(old(self).directory().lumps, add.buffer@) {
                e is InvalidLumpName
            } else {
                e is Unknown
            },
    ;
}

} // verus!
