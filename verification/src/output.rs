use std::collections::HashMap;
use vstd::prelude::*;

use crate::codec::push_all;
use crate::dir::{alive_count_of, alive_upto, is_alive, LumpsDirectory};
use crate::error::WadError;
use crate::dir::table_entry;
use crate::lump::{entry_bytes, lemma_entry_roundtrip, Entry};
use crate::lumps::LumpView;
use crate::names::{is_virtual_marker, virtual_marker};
use crate::text::printable_bytes;
use crate::wad::{header_bytes, WadInfo, WadKind};

verus! {

/// Where the directory of a rebuilt container begins: behind the header.
pub const DIRECTORY_START: i32 = 12;

/// How far the offsets are assigned: the offset of every position seen so
/// far, the offset the next new position takes, and whether every offset
/// could be written in 32 bits.
pub struct Offsets {
    pub map: Map<i32, i32>,
    pub cursor: int,
    pub fits: bool,
}

/// The offsets after the first `k` lumps. A deleted lump is passed over. A
/// lump at a position that is seen for the first time takes the offset at
/// the cursor, and the cursor moves on by the size of the lump. A lump at a
/// position seen before shares the offset assigned then, and the cursor
/// stays.
pub open spec fn offsets_upto(lumps: Seq<LumpView>, base: int, k: int) -> Offsets
    decreases k,
{
    if k <= 0 {
        Offsets { map: Map::empty(), cursor: base, fits: true }
    } else {
        let prev = offsets_upto(lumps, base, k - 1);
        let m = lumps[k - 1].data().metadata;
        if !m.state.alive() || prev.map.contains_key(m.pos) {
            prev
        } else {
            Offsets {
                map: prev.map.insert(m.pos, prev.cursor as i32),
                cursor: prev.cursor + m.size,
                fits: prev.fits && i32::MIN <= prev.cursor + m.size <= i32::MAX,
            }
        }
    }
}

/// The entry that a lump takes in the rebuilt directory: name and size as
/// they are; as position the offset of the lump, and 0 for a virtual lump.
pub open spec fn rebuilt_entry(lump: LumpView, map: Map<i32, i32>) -> Entry {
    let m = lump.data().metadata;
    Entry {
        pos: if is_virtual_marker(m.name_text()) {
            0
        } else {
            map[m.pos] as int
        },
        size: m.size as int,
        name: m.name,
    }
}

/// The directory table of the first `k` lumps: sixteen bytes for each lump
/// alive, in order.
pub open spec fn entries_upto(lumps: Seq<LumpView>, map: Map<i32, i32>, k: int) -> Seq<u8>
    decreases k,
{
    if k <= 0 {
        Seq::empty()
    } else if is_alive(lumps[k - 1]) {
        entries_upto(lumps, map, k - 1) + entry_bytes(rebuilt_entry(lumps[k - 1], map))
    } else {
        entries_upto(lumps, map, k - 1)
    }
}

/// The payloads of the first `k` lumps: that of each lump alive, in order.
pub open spec fn payloads_upto(lumps: Seq<LumpView>, k: int) -> Seq<u8>
    decreases k,
{
    if k <= 0 {
        Seq::empty()
    } else if is_alive(lumps[k - 1]) {
        payloads_upto(lumps, k - 1) + lumps[k - 1].data().buffer
    } else {
        payloads_upto(lumps, k - 1)
    }
}

/// Where the payloads of a rebuilt container begin: behind the header and
/// the directory table.
pub open spec fn payload_start(lumps: Seq<LumpView>) -> int {
    12 + 16 * (alive_count_of(lumps) as int)
}

/// The offsets of a rebuilt container.
pub open spec fn rebuilt_offsets(lumps: Seq<LumpView>) -> Offsets {
    offsets_upto(lumps, payload_start(lumps), lumps.len() as int)
}

/// Whether a container can be rebuilt: the number of lumps alive and every
/// offset can be written in 32 bits.
pub open spec fn can_rebuild(lumps: Seq<LumpView>) -> bool {
    payload_start(lumps) <= i32::MAX && rebuilt_offsets(lumps).fits
}

/// The header of a rebuilt container: the kind, the number of lumps alive,
/// and the directory behind the header.
pub open spec fn rebuilt_header(lumps: Seq<LumpView>, kind: WadKind) -> WadInfo {
    WadInfo { kind: kind, num_lumps: alive_count_of(lumps) as i32, dir_pos: 12 }
}

/// The rebuilt container: the header, the directory table of the lumps
/// alive, and their payloads, with nothing between them.
pub open spec fn rebuilt(lumps: Seq<LumpView>, kind: WadKind) -> Seq<u8> {
    header_bytes(rebuilt_header(lumps, kind)) + entries_upto(
        lumps,
        rebuilt_offsets(lumps).map,
        lumps.len() as int,
    ) + payloads_upto(lumps, lumps.len() as int)
}

/// Builds a container from a directory.
pub struct WadOutput<'a> {
    /// The header of the container that is built.
    info: WadInfo,
    /// The offset of every position.
    offsets: HashMap<i32, i32>,
    /// The directory.
    dir: &'a LumpsDirectory,
    /// The container.
    dest: Vec<u8>,
}

impl<'a> WadOutput<'a> {
    /// The kind of the container that is built.
    pub closed spec fn kind(&self) -> WadKind {
        self.info.kind
    }

    /// The lumps of the directory.
    pub closed spec fn lumps(&self) -> Seq<LumpView> {
        self.dir@.lumps
    }

    /// The container as far as it is built.
    pub closed spec fn built(&self) -> Seq<u8> {
        self.dest@
    }

    /// The offsets assigned so far.
    pub closed spec fn assigned(&self) -> Map<i32, i32> {
        self.offsets@
    }

    /// A builder for the lumps of `dir` and a container of the kind of
    /// `info`. What `info` says of lumps and directory is not used.
    pub fn new(info: WadInfo, dir: &'a LumpsDirectory) -> (r: WadOutput<'a>)
        ensures
            r.kind() == info.kind,
            r.lumps() == dir@.lumps,
            r.built() == Seq::<u8>::empty(),
            r.assigned() == Map::<i32, i32>::empty(),
    {
        let mut info = info;
        info.dir_pos = DIRECTORY_START;
        WadOutput { info, offsets: HashMap::new(), dir, dest: Vec::new() }
    }

    /// Assigns an offset to every position of a lump alive. Says whether
    /// every offset could be written in 32 bits; where not, the offsets are
    /// not to be used.
    fn build_offsets(&mut self, base: i32) -> (fits: bool)
        ensures
            fits == offsets_upto(old(self).lumps(), base as int, old(self).lumps().len() as int).fits,
            fits ==> final(self).assigned() == offsets_upto(
                old(self).lumps(),
                base as int,
                old(self).lumps().len() as int,
            ).map,
            final(self).kind() == old(self).kind(),
            final(self).lumps() == old(self).lumps(),
            final(self).built() == old(self).built(),
    {
        broadcast use vstd::std_specs::hash::group_hash_axioms;

        self.offsets = HashMap::new();
        let ghost lumps = self.lumps();
        let mut offset: i32 = base;
        let mut k: usize = 0;
        while k < self.dir.lumps.len()
            invariant
                k <= self.dir.lumps@.len(),
                lumps == self.lumps(),
                self.info == old(self).info,
                self.dir == old(self).dir,
                self.dest == old(self).dest,
                offsets_upto(lumps, base as int, k as int).fits,
                self.offsets@ == offsets_upto(lumps, base as int, k as int).map,
                offset == offsets_upto(lumps, base as int, k as int).cursor,
            decreases self.dir.lumps@.len() - k,
        {
            let metadata = self.dir.lumps[k].info();
            if metadata.state.is_alive() && !self.offsets.contains_key(&metadata.pos) {
                self.offsets.insert(metadata.pos, offset);
                match offset.checked_add(metadata.size) {
                    Some(next) => {
                        offset = next;
                    },
                    None => {
                        proof {
                            lemma_fits_stays_lost(lumps, base as int, k + 1, lumps.len() as int);
                        }
                        return false;
                    },
                }
            }
            k += 1;
        }
        true
    }

    /// Appends the directory table: one entry for each lump alive.
    fn build_file_entries(&mut self)
        requires
            forall|i: int|
                0 <= i < old(self).lumps().len() && is_alive(#[trigger] old(self).lumps()[i])
                    ==> old(self).assigned().contains_key(old(self).lumps()[i].data().metadata.pos),
        ensures
            final(self).built() == old(self).built() + entries_upto(
                old(self).lumps(),
                old(self).assigned(),
                old(self).lumps().len() as int,
            ),
            final(self).kind() == old(self).kind(),
            final(self).lumps() == old(self).lumps(),
            final(self).assigned() == old(self).assigned(),
    {
        broadcast use vstd::std_specs::hash::group_hash_axioms;

        let ghost lumps = self.lumps();
        let mut k: usize = 0;
        while k < self.dir.lumps.len()
            invariant
                k <= self.dir.lumps@.len(),
                lumps == self.lumps(),
                self.info == old(self).info,
                self.dir == old(self).dir,
                self.offsets == old(self).offsets,
                forall|i: int|
                    0 <= i < lumps.len() && is_alive(#[trigger] lumps[i])
                        ==> self.offsets@.contains_key(lumps[i].data().metadata.pos),
                self.dest@ == old(self).dest@ + entries_upto(lumps, self.offsets@, k as int),
            decreases self.dir.lumps@.len() - k,
        {
            let mut metadata = self.dir.lumps[k].info();
            if metadata.state.is_alive() {
                assert(is_alive(lumps[k as int]));
                let name = printable_bytes(metadata.name.as_slice());
                if virtual_marker(name.as_slice()) {
                    metadata.pos = 0;
                } else {
                    metadata.pos = match self.offsets.get(&metadata.pos) {
                        Some(offset) => *offset,
                        None => 0,
                    };
                }
                let entry = metadata.to_bytes();
                push_all(&mut self.dest, entry.as_slice());
            }
            k += 1;
        }
    }

    /// Appends the payload of each lump alive.
    fn build_raw_lumps(&mut self)
        ensures
            final(self).built() == old(self).built() + payloads_upto(
                old(self).lumps(),
                old(self).lumps().len() as int,
            ),
            final(self).kind() == old(self).kind(),
            final(self).lumps() == old(self).lumps(),
            final(self).assigned() == old(self).assigned(),
    {
        let ghost lumps = self.lumps();
        let mut k: usize = 0;
        while k < self.dir.lumps.len()
            invariant
                k <= self.dir.lumps@.len(),
                lumps == self.lumps(),
                self.info == old(self).info,
                self.dir == old(self).dir,
                self.offsets == old(self).offsets,
                self.dest@ == old(self).dest@ + payloads_upto(lumps, k as int),
            decreases self.dir.lumps@.len() - k,
        {
            if self.dir.lumps[k].info().state.is_alive() {
                push_all(&mut self.dest, self.dir.lumps[k].payload().as_slice());
            }
            k += 1;
        }
    }

    /// Builds the container: the header with the number of lumps alive, the
    /// directory table, the payloads. Fails, and leaves no container, where
    /// the number of lumps alive or an offset cannot be written in 32 bits.
    pub fn build(&mut self) -> (r: Result<(), WadError>)
        ensures
            r is Ok <==> can_rebuild(old(self).lumps()),
            r is Ok ==> final(self).built() == rebuilt(old(self).lumps(), old(self).kind()),
            r matches Err(e) ==> e is Unknown && final(self).built() == Seq::<u8>::empty(),
            final(self).kind() == old(self).kind(),
            final(self).lumps() == old(self).lumps(),
    {
        self.dest = Vec::new();
        let alive = self.dir.alive_count();
        if alive > ((i32::MAX - DIRECTORY_START) / 16) as usize {
            return Err(WadError::Unknown);
        }
        let base: i32 = DIRECTORY_START + 16 * (alive as i32);
        if !self.build_offsets(base) {
            return Err(WadError::Unknown);
        }
        proof {
            lemma_offsets_cover(self.lumps(), base as int, self.lumps().len() as int);
        }
        self.info.num_lumps = alive as i32;
        self.info.dir_pos = DIRECTORY_START;
        let header = self.info.to_bytes();
        push_all(&mut self.dest, header.as_slice());
        self.build_file_entries();
        self.build_raw_lumps();
        assert(self.dest@ =~= rebuilt(self.lumps(), self.kind()));
        Ok(())
    }

    /// A copy of the container.
    pub fn buffer(&self) -> (r: Vec<u8>)
        ensures
            r@ == self.built(),
    {
        self.dest.clone()
    }
}

/// Once an offset cannot be written, the rest of the lumps does not mend it.
proof fn lemma_fits_stays_lost(lumps: Seq<LumpView>, base: int, lost: int, k: int)
    requires
        0 <= lost <= k,
        !offsets_upto(lumps, base, lost).fits,
    ensures
        !offsets_upto(lumps, base, k).fits,
    decreases k - lost,
{
    if lost < k {
        lemma_fits_stays_lost(lumps, base, lost, k - 1);
    }
}

/// Every position of a lump alive has an offset, and an offset once
/// assigned stays.
pub proof fn lemma_offsets_cover(lumps: Seq<LumpView>, base: int, k: int)
    requires
        0 <= k <= lumps.len(),
    ensures
        forall|i: int|
            0 <= i < k && is_alive(#[trigger] lumps[i]) ==> offsets_upto(
                lumps,
                base,
                k,
            ).map.contains_key(lumps[i].data().metadata.pos),
    decreases k,
{
    if k > 0 {
        lemma_offsets_cover(lumps, base, k - 1);
    }
}

/// Every name has its eight bytes.
pub open spec fn names_whole(lumps: Seq<LumpView>) -> bool {
    forall|i: int| 0 <= i < lumps.len() ==> (#[trigger] lumps[i]).data().metadata.name.len() == 8
}

/// The number of the entry that lump `i` takes in the rebuilt directory:
/// the number of lumps alive before it.
pub open spec fn rebuilt_index(lumps: Seq<LumpView>, i: int) -> int {
    alive_upto(lumps, i) as int
}

/// The lumps alive are counted in order: a lump alive takes an index below
/// the number of lumps alive.
pub proof fn lemma_alive_upto_grows(lumps: Seq<LumpView>, i: int, k: int)
    requires
        0 <= i <= k,
    ensures
        alive_upto(lumps, i) <= alive_upto(lumps, k),
        i < k && is_alive(lumps[i]) ==> alive_upto(lumps, i) < alive_upto(lumps, k),
    decreases k - i,
{
    if i < k {
        lemma_alive_upto_grows(lumps, i, k - 1);
    }
}

/// An entry with a whole name takes sixteen bytes.
proof fn lemma_entry_len(e: Entry)
    requires
        e.name.len() == 8,
    ensures
        entry_bytes(e).len() == 16,
{
}

/// The header takes twelve bytes.
proof fn lemma_header_len(info: WadInfo)
    ensures
        header_bytes(info).len() == 12,
{
}

/// The directory table holds sixteen bytes for each lump alive.
pub proof fn lemma_entries_len(lumps: Seq<LumpView>, map: Map<i32, i32>, k: int)
    requires
        0 <= k <= lumps.len(),
        names_whole(lumps),
    ensures
        entries_upto(lumps, map, k).len() == 16 * alive_upto(lumps, k),
    decreases k,
{
    if k > 0 {
        lemma_entries_len(lumps, map, k - 1);
        if is_alive(lumps[k - 1]) {
            assert(lumps[k - 1].data().metadata.name.len() == 8);
            lemma_entry_len(rebuilt_entry(lumps[k - 1], map));
        }
    }
}

/// One piece appended leaves the parts of what was there as they are.
proof fn lemma_prefix_part(a: Seq<u8>, b: Seq<u8>, from: int, to: int)
    requires
        0 <= from <= to <= a.len(),
    ensures
        (a + b).subrange(from, to) == a.subrange(from, to),
{
    assert((a + b).subrange(from, to) =~= a.subrange(from, to));
}

/// The piece appended last is the end of the whole.
proof fn lemma_suffix_part(a: Seq<u8>, b: Seq<u8>)
    ensures
        (a + b).subrange(a.len() as int, (a.len() + b.len()) as int) == b,
{
    assert((a + b).subrange(a.len() as int, (a.len() + b.len()) as int) =~= b);
}

/// In the directory table the entry of a lump alive stands at the index of
/// the lump.
pub proof fn lemma_entries_table(lumps: Seq<LumpView>, map: Map<i32, i32>, k: int, i: int)
    requires
        0 <= i < k <= lumps.len(),
        names_whole(lumps),
        is_alive(lumps[i]),
    ensures
        16 * rebuilt_index(lumps, i) + 16 <= entries_upto(lumps, map, k).len(),
        entries_upto(lumps, map, k).subrange(
            16 * rebuilt_index(lumps, i),
            16 * rebuilt_index(lumps, i) + 16,
        ) == entry_bytes(rebuilt_entry(lumps[i], map)),
    decreases k,
{
    let before = entries_upto(lumps, map, k - 1);
    let at = 16 * rebuilt_index(lumps, i);
    lemma_entries_len(lumps, map, k - 1);
    lemma_entries_len(lumps, map, k);
    lemma_alive_upto_grows(lumps, i, k - 1);
    if i == k - 1 {
        let block = entry_bytes(rebuilt_entry(lumps[i], map));
        assert(lumps[i].data().metadata.name.len() == 8);
        lemma_entry_len(rebuilt_entry(lumps[i], map));
        lemma_suffix_part(before, block);
    } else {
        lemma_entries_table(lumps, map, k - 1, i);
        if is_alive(lumps[k - 1]) {
            lemma_prefix_part(before, entry_bytes(rebuilt_entry(lumps[k - 1], map)), at, at + 16);
        }
    }
}

/// The sixteen bytes at the index of a lump alive are the entry of the lump.
proof fn lemma_rebuilt_entry_bytes(lumps: Seq<LumpView>, kind: WadKind, i: int)
    requires
        names_whole(lumps),
        0 <= i < lumps.len(),
        is_alive(lumps[i]),
    ensures
        0 <= rebuilt_index(lumps, i) < alive_count_of(lumps),
        rebuilt(lumps, kind).subrange(
            12 + 16 * rebuilt_index(lumps, i),
            12 + 16 * rebuilt_index(lumps, i) + 16,
        ) == entry_bytes(rebuilt_entry(lumps[i], rebuilt_offsets(lumps).map)),
{
    let map = rebuilt_offsets(lumps).map;
    let n = lumps.len() as int;
    let header = header_bytes(rebuilt_header(lumps, kind));
    let table = entries_upto(lumps, map, n);
    let payloads = payloads_upto(lumps, n);
    let r = rebuilt_index(lumps, i);
    lemma_entries_table(lumps, map, n, i);
    lemma_alive_upto_grows(lumps, i, n);
    lemma_header_len(rebuilt_header(lumps, kind));
    lemma_middle(header, table, payloads, 16 * r, 16 * r + 16);
}

/// The entry that a lump alive takes in the rebuilt container is read back
/// from the container as it was written: at the index of the lump, with the
/// name and the size of the lump, and as position 0 for a virtual lump and
/// the offset of the lump for any other.
pub proof fn lemma_rebuilt_entry(lumps: Seq<LumpView>, kind: WadKind, i: int)
    requires
        names_whole(lumps),
        0 <= i < lumps.len(),
        is_alive(lumps[i]),
    ensures
        0 <= rebuilt_index(lumps, i) < alive_count_of(lumps),
        table_entry(rebuilt(lumps, kind), 12, rebuilt_index(lumps, i)) == rebuilt_entry(
            lumps[i],
            rebuilt_offsets(lumps).map,
        ),
{
    lemma_rebuilt_entry_bytes(lumps, kind, i);
    let e = rebuilt_entry(lumps[i], rebuilt_offsets(lumps).map);
    assert(e.name.len() == 8);
    lemma_entry_roundtrip(e);
}

/// In a rebuilt container the entry of a virtual lump has the position 0.
pub proof fn lemma_rebuilt_marker(lumps: Seq<LumpView>, kind: WadKind, i: int)
    requires
        names_whole(lumps),
        0 <= i < lumps.len(),
        is_alive(lumps[i]),
        is_virtual_marker(lumps[i].data().metadata.name_text()),
    ensures
        table_entry(rebuilt(lumps, kind), 12, rebuilt_index(lumps, i)).pos == 0,
{
    lemma_rebuilt_entry(lumps, kind, i);
}

/// A part of the middle of three pieces is a part of the whole.
proof fn lemma_middle(a: Seq<u8>, b: Seq<u8>, c: Seq<u8>, from: int, to: int)
    requires
        0 <= from <= to <= b.len(),
    ensures
        (a + b + c).subrange(a.len() + from, a.len() + to) == b.subrange(from, to),
{
    assert((a + b + c).subrange(a.len() + from, a.len() + to) =~= b.subrange(from, to));
}

/// The length of the payloads of the first `k` lumps that are alive.
pub open spec fn payload_len_upto(lumps: Seq<LumpView>, k: int) -> nat
    decreases k,
{
    if k <= 0 {
        0
    } else if is_alive(lumps[k - 1]) {
        payload_len_upto(lumps, k - 1) + lumps[k - 1].data().buffer.len()
    } else {
        payload_len_upto(lumps, k - 1)
    }
}

/// The payloads of the lumps alive are as long as the lumps together.
pub proof fn lemma_payloads_len(lumps: Seq<LumpView>, k: int)
    requires
        0 <= k <= lumps.len(),
    ensures
        payloads_upto(lumps, k).len() == payload_len_upto(lumps, k),
    decreases k,
{
    if k > 0 {
        lemma_payloads_len(lumps, k - 1);
    }
}

/// A rebuilt container is as long as the header, sixteen bytes for each lump
/// alive, and the payloads of the lumps alive together: a deleted lump adds
/// nothing.
pub proof fn lemma_rebuilt_len(lumps: Seq<LumpView>, kind: WadKind)
    requires
        names_whole(lumps),
    ensures
        rebuilt(lumps, kind).len() == 12 + 16 * alive_count_of(lumps) + payload_len_upto(
            lumps,
            lumps.len() as int,
        ),
{
    lemma_entries_len(lumps, rebuilt_offsets(lumps).map, lumps.len() as int);
    lemma_header_len(rebuilt_header(lumps, kind));
    lemma_payloads_len(lumps, lumps.len() as int);
}

/// An offset once assigned stays.
pub proof fn lemma_offset_stays(lumps: Seq<LumpView>, base: int, i: int, k: int, p: i32)
    requires
        0 <= i <= k,
        offsets_upto(lumps, base, i).map.contains_key(p),
    ensures
        offsets_upto(lumps, base, k).map.contains_key(p),
        offsets_upto(lumps, base, k).map[p] == offsets_upto(lumps, base, i).map[p],
    decreases k - i,
{
    if i < k {
        lemma_offset_stays(lumps, base, i, k - 1, p);
    }
}

/// Where no lump alive has a negative size, the cursor never moves back.
pub proof fn lemma_cursor_grows(lumps: Seq<LumpView>, base: int, i: int, k: int)
    requires
        0 <= i <= k <= lumps.len(),
        forall|m: int|
            0 <= m < k && is_alive(#[trigger] lumps[m]) ==> lumps[m].data().metadata.size >= 0,
    ensures
        offsets_upto(lumps, base, i).cursor <= offsets_upto(lumps, base, k).cursor,
    decreases k - i,
{
    if i < k {
        lemma_cursor_grows(lumps, base, i, k - 1);
    }
}

/// Two positions take different offsets, where no lump alive has a negative
/// size and every lump alive at one of the two positions has a payload.
pub proof fn lemma_offsets_apart(lumps: Seq<LumpView>, base: int, p: i32, q: i32, k: int)
    requires
        0 <= k <= lumps.len(),
        p != q,
        forall|m: int|
            0 <= m < k && is_alive(#[trigger] lumps[m]) ==> lumps[m].data().metadata.size >= 0,
        forall|m: int|
            0 <= m < k && is_alive(#[trigger] lumps[m]) && (lumps[m].data().metadata.pos == p
                || lumps[m].data().metadata.pos == q) ==> lumps[m].data().metadata.size > 0,
        offsets_upto(lumps, base, k).fits,
        i32::MIN <= base <= i32::MAX,
    ensures
        offsets_upto(lumps, base, k).map.contains_key(p) ==> offsets_upto(lumps, base, k).map[p]
            < offsets_upto(lumps, base, k).cursor,
        offsets_upto(lumps, base, k).map.contains_key(q) ==> offsets_upto(lumps, base, k).map[q]
            < offsets_upto(lumps, base, k).cursor,
        offsets_upto(lumps, base, k).map.contains_key(p) && offsets_upto(
            lumps,
            base,
            k,
        ).map.contains_key(q) ==> offsets_upto(lumps, base, k).map[p] != offsets_upto(
            lumps,
            base,
            k,
        ).map[q],
        i32::MIN <= offsets_upto(lumps, base, k).cursor <= i32::MAX,
    decreases k,
{
    if k > 0 {
        lemma_fits_from_start(lumps, base, k - 1, k);
        lemma_offsets_apart(lumps, base, p, q, k - 1);
        let prev = offsets_upto(lumps, base, k - 1);
        let now = offsets_upto(lumps, base, k);
        let m = lumps[k - 1].data().metadata;
        if is_alive(lumps[k - 1]) && !prev.map.contains_key(m.pos) {
            assert(now.map == prev.map.insert(m.pos, prev.cursor as i32));
            assert(now.cursor == prev.cursor + m.size);
            assert(prev.cursor as i32 == prev.cursor);
        } else {
            assert(now == prev);
        }
    }
}

/// Offsets that all can be written could be written all along.
pub proof fn lemma_fits_from_start(lumps: Seq<LumpView>, base: int, i: int, k: int)
    requires
        0 <= i <= k,
        offsets_upto(lumps, base, k).fits,
    ensures
        offsets_upto(lumps, base, i).fits,
    decreases k - i,
{
    if i < k {
        lemma_fits_from_start(lumps, base, i, k - 1);
    }
}

/// In a rebuilt container two lumps alive at different positions take
/// different offsets, where no lump alive has a negative size and every
/// lump alive at one of the two positions has a payload; two lumps alive at
/// one position share their offset.
pub proof fn lemma_rebuilt_offsets_apart(lumps: Seq<LumpView>, i: int, j: int)
    requires
        0 <= i < lumps.len(),
        0 <= j < lumps.len(),
        is_alive(lumps[i]),
        is_alive(lumps[j]),
        can_rebuild(lumps),
        forall|m: int|
            0 <= m < lumps.len() && is_alive(#[trigger] lumps[m]) ==> lumps[m].data().metadata.size
                >= 0,
        forall|m: int|
            0 <= m < lumps.len() && is_alive(#[trigger] lumps[m]) && (lumps[m].data().metadata.pos
                == lumps[i].data().metadata.pos || lumps[m].data().metadata.pos
                == lumps[j].data().metadata.pos) ==> lumps[m].data().metadata.size > 0,
    ensures
        rebuilt_offsets(lumps).map.contains_key(lumps[i].data().metadata.pos),
        rebuilt_offsets(lumps).map.contains_key(lumps[j].data().metadata.pos),
        lumps[i].data().metadata.pos != lumps[j].data().metadata.pos ==> rebuilt_offsets(
            lumps,
        ).map[lumps[i].data().metadata.pos] != rebuilt_offsets(
            lumps,
        ).map[lumps[j].data().metadata.pos],
{
    let n = lumps.len() as int;
    lemma_offsets_cover(lumps, payload_start(lumps), n);
    if lumps[i].data().metadata.pos != lumps[j].data().metadata.pos {
        lemma_offsets_apart(
            lumps,
            payload_start(lumps),
            lumps[i].data().metadata.pos,
            lumps[j].data().metadata.pos,
            n,
        );
    }
}

} // verus!
