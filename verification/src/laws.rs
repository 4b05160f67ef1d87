use vstd::prelude::*;
use vstd::string::*;

use crate::codec::lemma_le_i32_bytes;
use crate::dir::{
    alive_upto, data_of, directory_fits, id_of, ids_free, ids_upto, is_alive, is_plain_marker,
    kind_of, lemma_lump_data, lump_at, marker_after, marker_before, named, names_of, pal_before,
    parsed, payload_fits, raw_lump, raw_lumps, table_entry, LumpsDirectory, RawLump,
};
use crate::lump::LumpKind;
use crate::lumps::flat::flat_pixels;
use crate::lumps::palette::PalettesModel;
use crate::lumps::LumpView;
use crate::names::{ascii_bytes, is_music_name, is_numbered_marker, is_virtual_marker};
use crate::output::{
    can_rebuild, entries_upto, lemma_fits_from_start, lemma_cursor_grows, lemma_offset_stays, lemma_offsets_cover, lemma_payloads_len,
    lemma_rebuilt_entry, lemma_rebuilt_len, names_whole, offsets_upto, payload_len_upto,
    payload_start, payloads_upto, rebuilt, rebuilt_header, rebuilt_index, rebuilt_offsets,
};
use crate::wad::{header_bytes, header_of_bytes, lemma_header_roundtrip, WadInfo, WadKind};

verus! {

/// Two directories have the same names and sizes, entry by entry.
pub open spec fn same_names_and_sizes(a: Seq<RawLump>, b: Seq<RawLump>) -> bool {
    &&& a.len() == b.len()
    &&& forall|k: int|
        0 <= k < a.len() ==> (#[trigger] a[k]).entry.name == b[k].entry.name && a[k].entry.size
            == b[k].entry.size
}

/// Two directories with the same names have the same printable names.
proof fn lemma_names_alike(a: Seq<RawLump>, b: Seq<RawLump>)
    requires
        same_names_and_sizes(a, b),
    ensures
        names_of(a) == names_of(b),
{
    assert forall|j: int| 0 <= j < a.len() implies names_of(a)[j] == names_of(b)[j] by {
        assert(a[j].entry.name == b[j].entry.name);
    }
    assert(names_of(a) =~= names_of(b));
}

/// The ids are told by the names of the entries alone.
pub proof fn lemma_ids_alike(a: Seq<RawLump>, b: Seq<RawLump>, k: int)
    requires
        same_names_and_sizes(a, b),
        0 <= k <= a.len(),
    ensures
        ids_upto(a, k) == ids_upto(b, k),
    decreases k,
{
    lemma_names_alike(a, b);
    if k > 0 {
        lemma_ids_alike(a, b, k - 1);
        assert(a[k - 1].entry.name == b[k - 1].entry.name);
    }
}

/// Kind and id of a lump are told by the names and sizes of the entries
/// alone: two directories with the same names and sizes classify alike.
pub proof fn lemma_classified_alike(a: Seq<RawLump>, b: Seq<RawLump>, k: int)
    requires
        same_names_and_sizes(a, b),
        0 <= k <= a.len(),
    ensures
        marker_before(a, k) == marker_before(b, k),
        k < a.len() ==> kind_of(a, k) == kind_of(b, k),
        k < a.len() ==> id_of(a, k) == id_of(b, k),
    decreases k,
{
    lemma_names_alike(a, b);
    if k > 0 {
        lemma_classified_alike(a, b, k - 1);
    }
    if k < a.len() {
        assert(a[k].entry.name == b[k].entry.name && a[k].entry.size == b[k].entry.size);
        lemma_ids_alike(a, b, k + 1);
    }
}

/// An entry of a directory that lies in its buffer has a whole name and
/// numbers of 32 bits.
pub proof fn lemma_entry_whole(buffer: Seq<u8>, dir_pos: int, k: int)
    requires
        0 <= dir_pos,
        0 <= k,
        dir_pos + 16 * k + 16 <= buffer.len(),
    ensures
        table_entry(buffer, dir_pos, k).name.len() == 8,
        i32::MIN <= table_entry(buffer, dir_pos, k).pos <= i32::MAX,
        i32::MIN <= table_entry(buffer, dir_pos, k).size <= i32::MAX,
{
    let b = buffer.subrange(dir_pos + 16 * k, dir_pos + 16 * k + 16);
    lemma_le_i32_bytes(b.subrange(0, 4));
    lemma_le_i32_bytes(b.subrange(4, 8));
}

/// The sizes of the first `k` lumps that are alive, together.
pub open spec fn size_upto(lumps: Seq<LumpView>, k: int) -> int
    decreases k,
{
    if k <= 0 {
        0
    } else if is_alive(lumps[k - 1]) {
        size_upto(lumps, k - 1) + lumps[k - 1].data().metadata.size
    } else {
        size_upto(lumps, k - 1)
    }
}

/// No lump alive has a negative size.
pub open spec fn sizes_natural(lumps: Seq<LumpView>) -> bool {
    forall|m: int|
        0 <= m < lumps.len() && is_alive(#[trigger] lumps[m]) ==> lumps[m].data().metadata.size >= 0
}

/// Every lump alive has the size of its payload.
pub open spec fn sizes_true(lumps: Seq<LumpView>) -> bool {
    forall|m: int| 0 <= m < lumps.len() && is_alive(#[trigger] lumps[m]) ==> lumps[m].data().sized()
}

/// Sizes that are not negative add up to more and more.
proof fn lemma_size_grows(lumps: Seq<LumpView>, i: int, k: int)
    requires
        0 <= i <= k <= lumps.len(),
        sizes_natural(lumps),
    ensures
        0 <= size_upto(lumps, i) <= size_upto(lumps, k),
    decreases k - i,
{
    if i < k {
        lemma_size_grows(lumps, i, k - 1);
    } else {
        lemma_size_from_zero(lumps, i);
    }
}

/// Sizes that are not negative add up to no less than nothing.
proof fn lemma_size_from_zero(lumps: Seq<LumpView>, k: int)
    requires
        0 <= k <= lumps.len(),
        sizes_natural(lumps),
    ensures
        0 <= size_upto(lumps, k),
    decreases k,
{
    if k > 0 {
        lemma_size_from_zero(lumps, k - 1);
    }
}

/// True sizes add up to the length of the payloads.
proof fn lemma_size_is_payload(lumps: Seq<LumpView>, k: int)
    requires
        0 <= k <= lumps.len(),
        sizes_true(lumps),
    ensures
        size_upto(lumps, k) == payload_len_upto(lumps, k),
    decreases k,
{
    if k > 0 {
        lemma_size_is_payload(lumps, k - 1);
    }
}

/// The cursor is never behind the sizes passed, and never before the base.
proof fn lemma_cursor_bounds(lumps: Seq<LumpView>, base: int, k: int)
    requires
        0 <= k <= lumps.len(),
        sizes_natural(lumps),
    ensures
        base <= offsets_upto(lumps, base, k).cursor <= base + size_upto(lumps, k),
    decreases k,
{
    if k > 0 {
        lemma_cursor_bounds(lumps, base, k - 1);
    }
}

/// Offsets that all can be written could be written all along, and the
/// cursor was within 32 bits all along.
proof fn lemma_cursor_fits(lumps: Seq<LumpView>, base: int, k: int)
    requires
        0 <= k,
        i32::MIN <= base <= i32::MAX,
        offsets_upto(lumps, base, k).fits,
    ensures
        i32::MIN <= offsets_upto(lumps, base, k).cursor <= i32::MAX,
        k > 0 ==> offsets_upto(lumps, base, k - 1).fits,
    decreases k,
{
    if k > 0 {
        lemma_cursor_fits(lumps, base, k - 1);
    }
}

/// An offset lies between the base and the cursor.
proof fn lemma_offset_bounds(lumps: Seq<LumpView>, base: int, k: int, p: i32)
    requires
        0 <= k <= lumps.len(),
        sizes_natural(lumps),
        i32::MIN <= base <= i32::MAX,
        offsets_upto(lumps, base, k).fits,
        offsets_upto(lumps, base, k).map.contains_key(p),
    ensures
        base <= offsets_upto(lumps, base, k).map[p] <= offsets_upto(lumps, base, k).cursor,
    decreases k,
{
    if k > 0 {
        let prev = offsets_upto(lumps, base, k - 1);
        lemma_cursor_fits(lumps, base, k);
        lemma_cursor_fits(lumps, base, k - 1);
        lemma_cursor_bounds(lumps, base, k - 1);
        lemma_cursor_grows(lumps, base, k - 1, k);
        if prev.map.contains_key(p) {
            lemma_offset_bounds(lumps, base, k - 1, p);
        }
    }
}

/// The offset of a lump alive lies between the base and the sizes of the
/// lumps before it.
proof fn lemma_lump_offset_bounds(lumps: Seq<LumpView>, base: int, i: int)
    requires
        0 <= i < lumps.len(),
        is_alive(lumps[i]),
        sizes_natural(lumps),
        i32::MIN <= base <= i32::MAX,
        offsets_upto(lumps, base, lumps.len() as int).fits,
    ensures
        offsets_upto(lumps, base, lumps.len() as int).map.contains_key(
            lumps[i].data().metadata.pos,
        ),
        base <= offsets_upto(lumps, base, lumps.len() as int).map[lumps[i].data().metadata.pos]
            <= base + size_upto(lumps, i),
{
    let n = lumps.len() as int;
    let p = lumps[i].data().metadata.pos;
    let before = offsets_upto(lumps, base, i);
    let after = offsets_upto(lumps, base, i + 1);
    lemma_offsets_cover(lumps, base, i + 1);
    lemma_offset_stays(lumps, base, i + 1, n, p);
    lemma_fits_from_start(lumps, base, i + 1, n);
    lemma_fits_from_start(lumps, base, i, n);
    lemma_cursor_fits(lumps, base, i);
    lemma_cursor_bounds(lumps, base, i);
    if before.map.contains_key(p) {
        lemma_offset_bounds(lumps, base, i, p);
        assert(after == before);
    } else {
        assert(after.map[p] == before.cursor as i32);
    }
}

/// Where every lump is alive, a lump keeps its index.
proof fn lemma_all_alive(lumps: Seq<LumpView>, k: int)
    requires
        0 <= k <= lumps.len(),
        forall|m: int| 0 <= m < lumps.len() ==> is_alive(#[trigger] lumps[m]),
    ensures
        alive_upto(lumps, k) == k,
    decreases k,
{
    if k > 0 {
        lemma_all_alive(lumps, k - 1);
    }
}

/// The lumps of a parsed directory are alive, have whole names, and have
/// the sizes of their payloads.
pub proof fn lemma_parsed_lumps(info: WadInfo, buffer: Seq<u8>, pal: PalettesModel)
    requires
        directory_fits(info, buffer),
    ensures
        parsed(raw_lumps(info, buffer), pal).lumps.len() == info.num_lumps,
        names_whole(parsed(raw_lumps(info, buffer), pal).lumps),
        sizes_true(parsed(raw_lumps(info, buffer), pal).lumps),
        sizes_natural(parsed(raw_lumps(info, buffer), pal).lumps),
        forall|m: int|
            0 <= m < info.num_lumps ==> is_alive(
                #[trigger] parsed(raw_lumps(info, buffer), pal).lumps[m],
            ),
        forall|m: int|
            0 <= m < info.num_lumps ==> (#[trigger] parsed(
                raw_lumps(info, buffer),
                pal,
            ).lumps[m]).data() == data_of(raw_lumps(info, buffer), m),
{
    let raws = raw_lumps(info, buffer);
    let lumps = parsed(raws, pal).lumps;
    assert forall|m: int| 0 <= m < info.num_lumps implies {
        &&& (#[trigger] lumps[m]).data() == data_of(raws, m)
        &&& is_alive(lumps[m])
        &&& lumps[m].data().metadata.name.len() == 8
        &&& lumps[m].data().metadata.size == lumps[m].data().buffer.len()
        &&& lumps[m].data().metadata.size >= 0
    } by {
        lemma_lump_data(raws, pal, m);
        lemma_entry_whole(buffer, info.dir_pos as int, m);
        let e = table_entry(buffer, info.dir_pos as int, m);
        assert(payload_fits(e, buffer));
        assert(raws[m] == raw_lump(buffer, info.dir_pos as int, m));
    }
}

/// Where every lump is alive and has the size of its payload, the entry of
/// lump `k` in the rebuilt container stands at index `k`, has the name and
/// the size of the lump, and points into the container.
proof fn lemma_rebuilt_entry_fits(lumps: Seq<LumpView>, kind: WadKind, k: int)
    requires
        names_whole(lumps),
        sizes_true(lumps),
        sizes_natural(lumps),
        forall|m: int| 0 <= m < lumps.len() ==> is_alive(#[trigger] lumps[m]),
        can_rebuild(lumps),
        0 <= k < lumps.len(),
    ensures
        table_entry(rebuilt(lumps, kind), 12, k).name == lumps[k].data().metadata.name,
        table_entry(rebuilt(lumps, kind), 12, k).size == lumps[k].data().metadata.size,
        payload_fits(table_entry(rebuilt(lumps, kind), 12, k), rebuilt(lumps, kind)),
{
    let n = lumps.len() as int;
    let base = payload_start(lumps);
    lemma_all_alive(lumps, k);
    lemma_all_alive(lumps, n);
    lemma_rebuilt_entry(lumps, kind, k);
    lemma_rebuilt_len(lumps, kind);
    lemma_size_is_payload(lumps, n);
    lemma_lump_offset_bounds(lumps, base, k);
    lemma_size_grows(lumps, k, k + 1);
    lemma_size_grows(lumps, k + 1, n);
    lemma_size_from_zero(lumps, k);
}

/// Where every lump is alive and has the size of its payload, the rebuilt
/// container holds its directory table and every payload, and its header
/// is read back as it was written.
proof fn lemma_rebuilt_fits(lumps: Seq<LumpView>, kind: WadKind)
    requires
        names_whole(lumps),
        sizes_true(lumps),
        sizes_natural(lumps),
        forall|m: int| 0 <= m < lumps.len() ==> is_alive(#[trigger] lumps[m]),
        can_rebuild(lumps),
    ensures
        rebuilt_header(lumps, kind) == (WadInfo {
            kind: kind,
            num_lumps: lumps.len() as i32,
            dir_pos: 12,
        }),
        lumps.len() <= i32::MAX,
        directory_fits(rebuilt_header(lumps, kind), rebuilt(lumps, kind)),
        kind != WadKind::Unknown ==> rebuilt(lumps, kind).len() >= 12 && header_of_bytes(
            rebuilt(lumps, kind).subrange(0, 12),
        ) == rebuilt_header(lumps, kind),
{
    let n = lumps.len() as int;
    let out = rebuilt(lumps, kind);
    let header = rebuilt_header(lumps, kind);
    lemma_all_alive(lumps, n);
    lemma_rebuilt_len(lumps, kind);
    if kind != WadKind::Unknown {
        lemma_header_roundtrip(header);
        assert(out.subrange(0, 12) =~= header_bytes(header));
    }
    assert forall|k: int| 0 <= k < n implies payload_fits(
        #[trigger] table_entry(out, 12, k),
        out,
    ) by {
        lemma_rebuilt_entry_fits(lumps, kind, k);
    }
}

/// The entries of the rebuilt container have the names and sizes of the
/// entries that were parsed.
proof fn lemma_rebuilt_names(info: WadInfo, buffer: Seq<u8>, pal: PalettesModel, kind: WadKind)
    requires
        directory_fits(info, buffer),
        can_rebuild(parsed(raw_lumps(info, buffer), pal).lumps),
    ensures
        same_names_and_sizes(
            raw_lumps(info, buffer),
            raw_lumps(
                rebuilt_header(parsed(raw_lumps(info, buffer), pal).lumps, kind),
                rebuilt(parsed(raw_lumps(info, buffer), pal).lumps, kind),
            ),
        ),
{
    let raws = raw_lumps(info, buffer);
    let first = parsed(raws, pal).lumps;
    let out = rebuilt(first, kind);
    let header = rebuilt_header(first, kind);
    let raws2 = raw_lumps(header, out);
    lemma_parsed_lumps(info, buffer, pal);
    lemma_rebuilt_fits(first, kind);
    assert(raws2.len() == raws.len());
    assert forall|k: int| 0 <= k < raws.len() implies (#[trigger] raws[k]).entry.name
        == raws2[k].entry.name && raws[k].entry.size == raws2[k].entry.size by {
        lemma_rebuilt_entry_fits(first, kind, k);
        lemma_entry_whole(buffer, info.dir_pos as int, k);
        assert(first[k].data() == data_of(raws, k));
        assert(raws2[k] == raw_lump(out, 12, k));
    }
}

/// Rebuilding and parsing again gives back what was parsed. Let a container
/// be parsed, none of its lumps be deleted, and the container be rebuilt.
/// Then the rebuilt container can be parsed, whatever palettes are in force:
/// it holds its directory and every entry finds its id;
/// its header, where the kind is one of the two known ones, tells the number
/// of lumps and the directory behind the header; and lump by lump id, kind
/// and size are what they were.
pub proof fn lemma_rebuild_roundtrip(
    info: WadInfo,
    buffer: Seq<u8>,
    pal: PalettesModel,
    kind: WadKind,
    again: PalettesModel,
)
    requires
        directory_fits(info, buffer),
        ids_free(raw_lumps(info, buffer)),
        can_rebuild(parsed(raw_lumps(info, buffer), pal).lumps),
    ensures
        ({
            let first = parsed(raw_lumps(info, buffer), pal).lumps;
            let out = rebuilt(first, kind);
            let header = rebuilt_header(first, kind);
            let second = parsed(raw_lumps(header, out), again).lumps;
            &&& header == (WadInfo { kind: kind, num_lumps: info.num_lumps, dir_pos: 12 })
            &&& ids_free(raw_lumps(header, out))
            &&& kind != WadKind::Unknown ==> out.len() >= 12 && header_of_bytes(
                out.subrange(0, 12),
            ) == header
            &&& directory_fits(header, out)
            &&& second.len() == first.len()
            &&& forall|k: int|
                0 <= k < first.len() ==> {
                    &&& (#[trigger] second[k]).data().metadata.id == first[k].data().metadata.id
                    &&& second[k].data().kind == first[k].data().kind
                    &&& second[k].data().metadata.size == first[k].data().metadata.size
                }
        }),
{
    let raws = raw_lumps(info, buffer);
    let first = parsed(raws, pal).lumps;
    let out = rebuilt(first, kind);
    let header = rebuilt_header(first, kind);
    let raws2 = raw_lumps(header, out);
    let second = parsed(raws2, again).lumps;
    lemma_parsed_lumps(info, buffer, pal);
    lemma_rebuilt_fits(first, kind);
    lemma_rebuilt_names(info, buffer, pal, kind);
    lemma_ids_alike(raws, raws2, raws.len() as int);
    assert(second.len() == first.len());
    assert forall|k: int| 0 <= k < first.len() implies {
        &&& (#[trigger] second[k]).data().metadata.id == first[k].data().metadata.id
        &&& second[k].data().kind == first[k].data().kind
        &&& second[k].data().metadata.size == first[k].data().metadata.size
    } by {
        lemma_classified_alike(raws, raws2, k);
        lemma_lump_data(raws, pal, k);
        lemma_lump_data(raws2, again, k);
        assert(raws[k].entry.size == raws2[k].entry.size);
    }
}

/// In every directory the names are whole.
pub proof fn lemma_directory_whole(dir: &LumpsDirectory)
    ensures
        names_whole(dir@.lumps),
{
    assert forall|i: int| 0 <= i < dir@.lumps.len() implies (#[trigger] dir@.lumps[i]).data().metadata.name.len()
        == 8 by {
        dir.lumps@[i].lemma_whole();
    }
}

/// No two lumps alive among the first `k` stand at one position.
pub open spec fn positions_apart(lumps: Seq<LumpView>, k: int) -> bool {
    forall|i: int, j: int|
        0 <= i < j < k && is_alive(#[trigger] lumps[i]) && is_alive(#[trigger] lumps[j])
            ==> lumps[i].data().metadata.pos != lumps[j].data().metadata.pos
}

/// A position with an offset is the position of a lump alive.
proof fn lemma_offset_has_lump(lumps: Seq<LumpView>, base: int, k: int, p: i32) -> (j: int)
    requires
        0 <= k <= lumps.len(),
        offsets_upto(lumps, base, k).map.contains_key(p),
    ensures
        0 <= j < k,
        is_alive(lumps[j]),
        lumps[j].data().metadata.pos == p,
    decreases k,
{
    if k == 0 {
        0
    } else if offsets_upto(lumps, base, k - 1).map.contains_key(p) {
        lemma_offset_has_lump(lumps, base, k - 1, p)
    } else {
        k - 1
    }
}

/// Where no two lumps alive stand at one position and every lump alive has
/// the size of its payload, the cursor is as far as the payloads passed.
proof fn lemma_cursor_exact(lumps: Seq<LumpView>, base: int, k: int)
    requires
        0 <= k <= lumps.len(),
        sizes_true(lumps),
        positions_apart(lumps, k),
    ensures
        offsets_upto(lumps, base, k).cursor == base + payload_len_upto(lumps, k),
    decreases k,
{
    if k > 0 {
        lemma_cursor_exact(lumps, base, k - 1);
        let prev = offsets_upto(lumps, base, k - 1);
        let p = lumps[k - 1].data().metadata.pos;
        if is_alive(lumps[k - 1]) && prev.map.contains_key(p) {
            let j = lemma_offset_has_lump(lumps, base, k - 1, p);
            assert(false);
        }
    }
}

/// Where no two lumps alive up to lump `i` stand at one position, the offset
/// of lump `i` is the place of its payload: behind the header, the directory
/// table, and the payloads of the lumps alive before it.
proof fn lemma_offset_exact(lumps: Seq<LumpView>, base: int, i: int)
    requires
        0 <= i < lumps.len(),
        is_alive(lumps[i]),
        sizes_true(lumps),
        positions_apart(lumps, i + 1),
        i32::MIN <= base <= i32::MAX,
        offsets_upto(lumps, base, lumps.len() as int).fits,
    ensures
        offsets_upto(lumps, base, lumps.len() as int).map.contains_key(
            lumps[i].data().metadata.pos,
        ),
        offsets_upto(lumps, base, lumps.len() as int).map[lumps[i].data().metadata.pos] == base
            + payload_len_upto(lumps, i),
{
    let n = lumps.len() as int;
    let p = lumps[i].data().metadata.pos;
    let before = offsets_upto(lumps, base, i);
    lemma_cursor_exact(lumps, base, i);
    lemma_fits_from_start(lumps, base, i, n);
    lemma_cursor_fits(lumps, base, i);
    lemma_offsets_cover(lumps, base, i + 1);
    lemma_offset_stays(lumps, base, i + 1, n, p);
    if before.map.contains_key(p) {
        let j = lemma_offset_has_lump(lumps, base, i, p);
        assert(false);
    }
}

/// The payload of a lump alive stands in the payloads behind those of the
/// lumps alive before it.
proof fn lemma_payload_part(lumps: Seq<LumpView>, k: int, i: int)
    requires
        0 <= i < k <= lumps.len(),
        is_alive(lumps[i]),
    ensures
        payload_len_upto(lumps, i) + lumps[i].data().buffer.len() <= payloads_upto(lumps, k).len(),
        payloads_upto(lumps, k).subrange(
            payload_len_upto(lumps, i) as int,
            (payload_len_upto(lumps, i) + lumps[i].data().buffer.len()) as int,
        ) == lumps[i].data().buffer,
    decreases k,
{
    let before = payloads_upto(lumps, k - 1);
    let from = payload_len_upto(lumps, i) as int;
    let to = from + lumps[i].data().buffer.len();
    lemma_payloads_len(lumps, k - 1);
    lemma_payloads_len(lumps, k);
    if i == k - 1 {
        assert((before + lumps[i].data().buffer).subrange(from, to) =~= lumps[i].data().buffer);
    } else {
        lemma_payload_part(lumps, k - 1, i);
        if is_alive(lumps[k - 1]) {
            assert((before + lumps[k - 1].data().buffer).subrange(from, to) =~= before.subrange(
                from,
                to,
            ));
        }
    }
}

/// A rebuilt container is consistent where positions are not shared. Let
/// every lump alive have the size of its payload, and let lump `i` be alive
/// and no virtual lump, and no two lumps alive up to lump `i` stand at one
/// position. Then the entry of lump `i` in the rebuilt container points at
/// the payload of the lump: the bytes at its position are the payload.
pub proof fn lemma_rebuilt_payload(lumps: Seq<LumpView>, kind: WadKind, i: int)
    requires
        names_whole(lumps),
        sizes_true(lumps),
        can_rebuild(lumps),
        0 <= i < lumps.len(),
        is_alive(lumps[i]),
        !is_virtual_marker(lumps[i].data().metadata.name_text()),
        positions_apart(lumps, i + 1),
    ensures
        ({
            let e = table_entry(rebuilt(lumps, kind), 12, rebuilt_index(lumps, i));
            &&& e.size == lumps[i].data().buffer.len()
            &&& 0 <= e.pos
            &&& e.pos + e.size <= rebuilt(lumps, kind).len()
            &&& rebuilt(lumps, kind).subrange(e.pos, e.pos + e.size) == lumps[i].data().buffer
        }),
{
    let n = lumps.len() as int;
    let base = payload_start(lumps);
    let out = rebuilt(lumps, kind);
    let head = header_bytes(rebuilt_header(lumps, kind)) + entries_upto(
        lumps,
        rebuilt_offsets(lumps).map,
        n,
    );
    let payloads = payloads_upto(lumps, n);
    let from = payload_len_upto(lumps, i) as int;
    let to = from + lumps[i].data().buffer.len();
    lemma_rebuilt_entry(lumps, kind, i);
    lemma_offset_exact(lumps, base, i);
    lemma_payload_part(lumps, n, i);
    lemma_rebuilt_len(lumps, kind);
    lemma_payloads_len(lumps, n);
    assert(head.len() == base);
    assert(out == head + payloads);
    assert((head + payloads).subrange(base + from, base + to) =~= payloads.subrange(from, to));
}

/// A name that is none of the special names and no marker: a lump of such a
/// name takes its kind from the namespace it stands in.
pub open spec fn is_plain_name(name: Seq<u8>) -> bool {
    &&& !named(name, "PLAYPAL")
    &&& !named(name, "TITLEPIC")
    &&& !is_plain_marker(name)
    &&& !is_music_name(name)
    &&& !is_numbered_marker(name)
}

/// No entry before entry `k` opens a namespace.
pub open spec fn nothing_opened(raws: Seq<RawLump>, k: int) -> bool {
    forall|j: int|
        0 <= j < k ==> marker_after(#[trigger] names_of(raws)[j], Seq::empty())
            == Seq::<LumpKind>::empty()
}

/// Where no entry has opened a namespace, the marker stack is empty.
proof fn lemma_nothing_opened(raws: Seq<RawLump>, k: int)
    requires
        0 <= k <= raws.len(),
        nothing_opened(raws, k),
    ensures
        marker_before(raws, k) == Seq::<LumpKind>::empty(),
    decreases k,
{
    if k > 0 {
        lemma_nothing_opened(raws, k - 1);
        assert(marker_after(names_of(raws)[k - 1], Seq::empty()) == Seq::<LumpKind>::empty());
    }
}

/// The namespaces have boundaries. A lump of a plain name is of no kind
/// where no entry before it has opened a namespace. It is a flat where it
/// has a payload and the entry before it is `F_START`, and a picture where
/// it has a payload and the entry before it is `S_START` or `SS_START`.
pub proof fn lemma_namespace_boundary(raws: Seq<RawLump>, k: int)
    requires
        0 <= k < raws.len(),
        is_plain_name(names_of(raws)[k]),
    ensures
        nothing_opened(raws, k) ==> kind_of(raws, k) == LumpKind::Unknown,
        k > 0 && raws[k].entry.size > 0 && named(names_of(raws)[k - 1], "F_START") ==> kind_of(
            raws,
            k,
        ) == LumpKind::Flat,
        k > 0 && raws[k].entry.size > 0 && (named(names_of(raws)[k - 1], "S_START") || named(
            names_of(raws)[k - 1],
            "SS_START",
        )) ==> kind_of(raws, k) == LumpKind::Patch,
{
    reveal_strlit("PLAYPAL");
    reveal_strlit("F_START");
    reveal_strlit("S_START");
    reveal_strlit("SS_START");
    if nothing_opened(raws, k) {
        lemma_nothing_opened(raws, k);
    }
    if k > 0 {
        let before = names_of(raws)[k - 1];
        let playpal = ascii_bytes("PLAYPAL"@);
        if named(before, "F_START") {
            assert(before[0] != playpal[0]);
        }
        if named(before, "S_START") {
            assert(before[0] != playpal[0]);
            assert(before[0] != ascii_bytes("F_START"@)[0]);
        }
        if named(before, "SS_START") {
            assert(before[0] != playpal[0]);
            assert(before[0] != ascii_bytes("F_START"@)[0]);
        }
    }
}

/// The palette that is selected before a parse is in force all through the
/// parse, and a flat or a picture takes the palettes as they are when it is
/// classified: the index selected before the parse, and the tables of the
/// last palette lump before it. A flat that can be drawn is drawn with the
/// table of that index. What is parsed behind a lump does not change it.
pub proof fn lemma_palette_in_force(raws: Seq<RawLump>, pal: PalettesModel, k: int)
    requires
        0 <= k,
    ensures
        pal_before(raws, pal, k).n == pal.n,
        kind_of(raws, k) == LumpKind::Flat ==> {
            &&& lump_at(raws, pal, k) matches LumpView::Flat(flat)
            &&& flat.palettes == pal_before(raws, pal, k)
            &&& flat.data == data_of(raws, k)
            &&& flat.decodable() ==> pal.n < pal_before(raws, pal, k).colors.len() && flat.pixels
                == flat_pixels(raws[k].payload, pal_before(raws, pal, k).colors[pal.n as int])
        },
        kind_of(raws, k) == LumpKind::Patch ==> {
            &&& lump_at(raws, pal, k) matches LumpView::Patch(image)
            &&& image.palettes == pal_before(raws, pal, k)
            &&& image.data == data_of(raws, k)
        },
    decreases k,
{
    if k > 0 {
        lemma_palette_in_force(raws, pal, k - 1);
    }
}

/// Behind a palette lump the palettes in force are those of the lump, with
/// the index that was selected before the parse: what was in force before
/// the parse is of no account but for its index.
pub proof fn lemma_palettes_settled(
    raws: Seq<RawLump>,
    first: PalettesModel,
    second: PalettesModel,
    j: int,
    k: int,
)
    requires
        0 <= j < k,
        kind_of(raws, j) == LumpKind::Palette,
        first.n == second.n,
    ensures
        pal_before(raws, first, k) == pal_before(raws, second, k),
    decreases k - j,
{
    lemma_palette_in_force(raws, first, k - 1);
    lemma_palette_in_force(raws, second, k - 1);
    if j < k - 1 {
        lemma_palettes_settled(raws, first, second, j, k - 1);
    }
}

/// Parsing the same entries again keeps what was parsed, as far as the
/// palettes allow. Let the entries be parsed twice, with the same palette
/// index selected before. Then payload, entry, id and kind of every lump are
/// the same. The lump with what is decoded is the same where it is a lump
/// of no kind, music or a palette lump, and where it is a flat or a picture
/// with a palette lump before it. A flat or a picture before every palette
/// lump takes the palettes in force before the parse, and these may differ.
pub proof fn lemma_parsed_again(
    raws: Seq<RawLump>,
    first: PalettesModel,
    second: PalettesModel,
    k: int,
)
    requires
        0 <= k,
        first.n == second.n,
    ensures
        lump_at(raws, first, k).data() == lump_at(raws, second, k).data(),
        kind_of(raws, k) == LumpKind::Unknown || kind_of(raws, k) == LumpKind::Sound || kind_of(
            raws,
            k,
        ) == LumpKind::Palette ==> lump_at(raws, first, k) == lump_at(raws, second, k),
        forall|j: int|
            0 <= j < k && #[trigger] kind_of(raws, j) == LumpKind::Palette ==> lump_at(
                raws,
                first,
                k,
            ) == lump_at(raws, second, k),
{
    lemma_lump_data(raws, first, k);
    lemma_lump_data(raws, second, k);
    lemma_palette_in_force(raws, first, k);
    lemma_palette_in_force(raws, second, k);
    assert forall|j: int|
        0 <= j < k && #[trigger] kind_of(raws, j) == LumpKind::Palette implies lump_at(
        raws,
        first,
        k,
    ) == lump_at(raws, second, k) by {
        lemma_palettes_settled(raws, first, second, j, k);
    }
}

/// Loading a container again without another palette selected keeps the
/// lumps: parsed with the palettes that the first parse left in force,
/// every lump has the payload, entry, id and kind it had, and every lump
/// behind a palette lump is decoded to what it was.
pub proof fn lemma_reload_keeps(raws: Seq<RawLump>, pal: PalettesModel, j: int, k: int)
    requires
        0 <= j < k,
        kind_of(raws, j) == LumpKind::Palette,
    ensures
        lump_at(raws, pal_before(raws, pal, raws.len() as int), k) == lump_at(raws, pal, k),
        pal_before(raws, pal_before(raws, pal, raws.len() as int), k) == pal_before(raws, pal, k),
{
    let left = pal_before(raws, pal, raws.len() as int);
    lemma_palette_in_force(raws, pal, raws.len() as int);
    lemma_parsed_again(raws, left, pal, k);
    lemma_palettes_settled(raws, left, pal, j, k);
}

} // verus!
