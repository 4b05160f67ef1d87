use vstd::prelude::*;
use vstd::slice::slice_subrange;
use vstd::string::*;
use vstd::utf8::*;

use crate::codec::copy_range;
use crate::error::WadError;
use crate::lump::{
    entry_of_bytes, plain_id, Entry, InfoModel, LumpAdd, LumpAddKind, LumpData, LumpInfo, LumpKind,
    LumpModel, LumpState,
};
use crate::lumps::flat::{Flat, FlatModel};
use crate::lumps::music::lump::{DoomMusic, MusicModel};
use crate::lumps::music::mus::{empty_mus_header, MusModel};
use crate::lumps::palette::{no_palettes, Palettes, PalettesModel};
use crate::lumps::patch::{DoomImage, DoomImageInfo, ImageModel};
use crate::lumps::unknown::Unknown;
use crate::lumps::{lemma_decoded_twice, AnyLump, LumpView};
use crate::models::lump::Lump;
use crate::names::{
    ascii_bytes, is_music_name, is_numbered_flat_end, is_numbered_flat_start, is_numbered_marker,
    is_numbered_patch_end, is_numbered_patch_start, is_word, music_name, numbered_flat_end,
    numbered_flat_start, numbered_patch_end, numbered_patch_start, same_bytes,
};
use crate::pattern::{regex_compiles, regex_match_each, regex_matches};
use crate::text::{
    ascii_chars, lemma_ascii_chars_decide, lemma_ascii_is_utf8, lemma_printable, printable,
    printable_bytes,
};
use crate::wad::WadInfo;

verus! {

/// The number of palettes a container is taken to have.
pub const MAX_PAL: usize = 13;

/// A directory entry with the payload it points at.
pub struct RawLump {
    pub entry: Entry,
    pub payload: Seq<u8>,
}

/// Entry `k` of the directory table that begins at `dir_pos`.
pub open spec fn table_entry(buffer: Seq<u8>, dir_pos: int, k: int) -> Entry {
    entry_of_bytes(buffer.subrange(dir_pos + 16 * k, dir_pos + 16 * k + 16))
}

/// Whether the buffer holds the whole directory table.
pub open spec fn table_fits(info: WadInfo, buffer: Seq<u8>) -> bool {
    &&& 0 <= info.num_lumps
    &&& 0 <= info.dir_pos
    &&& info.dir_pos + 16 * info.num_lumps <= buffer.len()
}

/// Whether the buffer holds the payload of an entry.
pub open spec fn payload_fits(e: Entry, buffer: Seq<u8>) -> bool {
    0 <= e.pos && 0 <= e.size && e.pos + e.size <= buffer.len()
}

/// Whether the buffer holds the directory table and the payload of every
/// entry.
pub open spec fn directory_fits(info: WadInfo, buffer: Seq<u8>) -> bool {
    &&& table_fits(info, buffer)
    &&& forall|k: int|
        0 <= k < info.num_lumps ==> payload_fits(
            #[trigger] table_entry(buffer, info.dir_pos as int, k),
            buffer,
        )
}

/// Entry `k` and its payload.
pub open spec fn raw_lump(buffer: Seq<u8>, dir_pos: int, k: int) -> RawLump {
    let e = table_entry(buffer, dir_pos, k);
    RawLump { entry: e, payload: buffer.subrange(e.pos, e.pos + e.size) }
}

/// The entries of a container with their payloads, in directory order.
pub open spec fn raw_lumps(info: WadInfo, buffer: Seq<u8>) -> Seq<RawLump> {
    Seq::new(info.num_lumps as nat, |k: int| raw_lump(buffer, info.dir_pos as int, k))
}

/// The printable name of every entry.
pub open spec fn names_of(raws: Seq<RawLump>) -> Seq<Seq<u8>> {
    Seq::new(raws.len(), |k: int| printable(raws[k].entry.name))
}

/// How often `name` occurs in `names`.
pub open spec fn count_in(names: Seq<Seq<u8>>, name: Seq<u8>) -> nat
    decreases names.len(),
{
    if names.len() == 0 {
        0
    } else {
        count_in(names.drop_last(), name) + if names.last() == name {
            1nat
        } else {
            0nat
        }
    }
}

/// How many entries before entry `k` have its printable name.
pub open spec fn times_seen(raws: Seq<RawLump>, k: int) -> nat {
    count_in(names_of(raws).take(k), names_of(raws)[k])
}

/// A number in decimal digits.
pub open spec fn decimal(n: nat) -> Seq<u8>
    decreases n,
{
    if n < 10 {
        seq![('0' as u8 + n) as u8]
    } else {
        decimal(n / 10).push(('0' as u8 + n % 10) as u8)
    }
}

/// A name with a suffix: the name alone for the suffix 0, else the name
/// followed by the suffix in decimal digits.
pub open spec fn label(name: Seq<u8>, suffix: nat) -> Seq<u8> {
    if suffix == 0 {
        name
    } else {
        name + decimal(suffix)
    }
}

/// `base` with `top` written over its beginning, cut where `base` ends.
pub open spec fn overlay(base: Seq<u8>, top: Seq<u8>) -> Seq<u8> {
    Seq::new(
        base.len(),
        |i: int|
            if i < top.len() {
                top[i]
            } else {
                base[i]
            },
    )
}

/// The id that a name takes with a suffix: the printable name with the
/// suffix, written over the padded name.
pub open spec fn id_with(raw: Seq<u8>, suffix: nat) -> Seq<u8> {
    overlay(plain_id(raw), label(printable(raw), suffix))
}

/// The printable text of every id.
pub open spec fn texts_of(ids: Seq<Seq<u8>>) -> Seq<Seq<u8>> {
    Seq::new(ids.len(), |j: int| printable(ids[j]))
}

/// No suffix has more than twelve digits: a longer one fits no id.
pub const SUFFIX_END: u64 = 1_000_000_000_000;

/// The first suffix from `from` on with which the name takes an id whose
/// printable text is none of `texts`. There is none where the name with
/// the suffix no longer fits the twelve bytes of an id before a free one is
/// found.
pub open spec fn free_suffix(texts: Seq<Seq<u8>>, raw: Seq<u8>, from: nat) -> Option<nat>
    decreases SUFFIX_END - from,
{
    if from >= SUFFIX_END || label(printable(raw), from).len() > 12 {
        None
    } else if !texts.contains(printable(id_with(raw, from))) {
        Some(from)
    } else {
        free_suffix(texts, raw, from + 1)
    }
}

/// The ids of the first `k` entries, where each of them can be given one.
/// An entry takes its name with the first free suffix, counted from the
/// number of entries of its name before it: the first entry of a name takes
/// the name itself unless another lump has taken it as its id.
pub open spec fn ids_upto(raws: Seq<RawLump>, k: int) -> Option<Seq<Seq<u8>>>
    decreases k,
{
    if k <= 0 {
        Some(Seq::empty())
    } else {
        match ids_upto(raws, k - 1) {
            None => None,
            Some(ids) => match free_suffix(
                texts_of(ids),
                raws[k - 1].entry.name,
                times_seen(raws, k - 1),
            ) {
                None => None,
                Some(suffix) => Some(ids.push(id_with(raws[k - 1].entry.name, suffix))),
            },
        }
    }
}

/// Whether every entry can be given an id of its own.
pub open spec fn ids_free(raws: Seq<RawLump>) -> bool {
    ids_upto(raws, raws.len() as int) is Some
}

/// The id of entry `k`.
pub open spec fn id_of(raws: Seq<RawLump>, k: int) -> Seq<u8> {
    ids_upto(raws, k + 1)->0[k]
}

/// No two lumps have one printable id.
pub open spec fn distinct_ids(lumps: Seq<LumpView>) -> bool {
    forall|i: int, j: int|
        0 <= i < j < lumps.len() ==> (#[trigger] lumps[i]).data().metadata.id_text() != (
        #[trigger] lumps[j]).data().metadata.id_text()
}

/// The ids of the first entries are part of the ids of more entries.
pub proof fn lemma_ids_prefix(raws: Seq<RawLump>, j: int, k: int)
    requires
        0 <= j <= k,
        ids_upto(raws, k) is Some,
    ensures
        ids_upto(raws, j) is Some,
        ids_upto(raws, k)->0.len() == k,
        ids_upto(raws, j)->0 == ids_upto(raws, k)->0.take(j),
    decreases k - j,
{
    lemma_ids_len(raws, k);
    if j < k {
        lemma_ids_prefix(raws, j, k - 1);
        lemma_ids_len(raws, k - 1);
        assert(ids_upto(raws, k - 1)->0 =~= ids_upto(raws, k)->0.take(k - 1));
        assert(ids_upto(raws, k)->0.take(k - 1).take(j) =~= ids_upto(raws, k)->0.take(j));
    } else {
        assert(ids_upto(raws, k)->0 =~= ids_upto(raws, k)->0.take(k));
    }
}

/// There is one id for each entry.
pub proof fn lemma_ids_len(raws: Seq<RawLump>, k: int)
    requires
        0 <= k,
        ids_upto(raws, k) is Some,
    ensures
        ids_upto(raws, k)->0.len() == k,
    decreases k,
{
    if k > 0 {
        lemma_ids_len(raws, k - 1);
    }
}

/// Entries that cannot all be given an id cannot be given one when more
/// entries follow.
pub proof fn lemma_ids_lost(raws: Seq<RawLump>, j: int, k: int)
    requires
        0 <= j <= k,
        ids_upto(raws, j) is None,
    ensures
        ids_upto(raws, k) is None,
    decreases k - j,
{
    if j < k {
        lemma_ids_lost(raws, j, k - 1);
    }
}

/// A free suffix is free: the id it gives is none of those taken.
pub proof fn lemma_free_suffix(texts: Seq<Seq<u8>>, raw: Seq<u8>, from: nat)
    requires
        free_suffix(texts, raw, from) is Some,
    ensures
        free_suffix(texts, raw, from)->0 >= from,
        !texts.contains(printable(id_with(raw, free_suffix(texts, raw, from)->0))),
    decreases SUFFIX_END - from,
{
    if texts.contains(printable(id_with(raw, from))) {
        lemma_free_suffix(texts, raw, from + 1);
    }
}

/// Ids are unique: no two entries of a parse have one printable id.
pub proof fn lemma_ids_distinct(raws: Seq<RawLump>, k: int, i: int, j: int)
    requires
        0 <= i < j < k,
        ids_upto(raws, k) is Some,
    ensures
        printable(ids_upto(raws, k)->0[i]) != printable(ids_upto(raws, k)->0[j]),
        ids_upto(raws, k)->0[i] == id_of(raws, i),
        ids_upto(raws, k)->0[j] == id_of(raws, j),
{
    lemma_ids_prefix(raws, j + 1, k);
    lemma_ids_prefix(raws, j, k);
    lemma_ids_prefix(raws, i + 1, k);
    let before = ids_upto(raws, j)->0;
    let raw = raws[j].entry.name;
    lemma_free_suffix(texts_of(before), raw, times_seen(raws, j));
    let mine = ids_upto(raws, j + 1)->0[j];
    assert(texts_of(before)[i] == printable(before[i]));
    if printable(before[i]) == printable(mine) {
        assert(texts_of(before).contains(printable(mine)));
    }
}

/// The stack without its top; the empty stack stays empty.
pub open spec fn popped(marker: Seq<LumpKind>) -> Seq<LumpKind> {
    if marker.len() > 0 {
        marker.drop_last()
    } else {
        marker
    }
}

/// Whether `name` is the ASCII text `word`.
pub open spec fn named(name: Seq<u8>, word: &str) -> bool {
    name == ascii_bytes(word@)
}

/// Whether `name` is one of the six plain marker names.
pub open spec fn is_plain_marker(name: Seq<u8>) -> bool {
    ||| named(name, "F_START")
    ||| named(name, "S_START")
    ||| named(name, "SS_START")
    ||| named(name, "F_END")
    ||| named(name, "S_END")
    ||| named(name, "SS_END")
}

/// What a numbered marker does to the stack: a start pushes its namespace,
/// an end pops.
pub open spec fn numbered_effect(name: Seq<u8>, marker: Seq<LumpKind>) -> Seq<LumpKind> {
    let m1 = if is_numbered_flat_start(name) {
        marker.push(LumpKind::Flat)
    } else {
        marker
    };
    let m2 = if is_numbered_patch_start(name) {
        m1.push(LumpKind::Patch)
    } else {
        m1
    };
    let m3 = if is_numbered_flat_end(name) {
        popped(m2)
    } else {
        m2
    };
    if is_numbered_patch_end(name) {
        popped(m3)
    } else {
        m3
    }
}

/// The marker stack behind an entry of this name.
pub open spec fn marker_after(name: Seq<u8>, marker: Seq<LumpKind>) -> Seq<LumpKind> {
    if named(name, "PLAYPAL") {
        marker
    } else if named(name, "F_START") {
        marker.push(LumpKind::Flat)
    } else if named(name, "S_START") || named(name, "SS_START") {
        marker.push(LumpKind::Patch)
    } else if named(name, "F_END") || named(name, "S_END") || named(name, "SS_END") {
        popped(marker)
    } else if named(name, "TITLEPIC") {
        marker
    } else if is_music_name(name) {
        marker
    } else {
        numbered_effect(name, marker)
    }
}

/// The kind that the top of the marker stack gives to a lump with a payload.
pub open spec fn kind_in_namespace(size: int, marker: Seq<LumpKind>) -> LumpKind {
    if size > 0 && marker.len() > 0 {
        match marker.last() {
            LumpKind::Flat => LumpKind::Flat,
            LumpKind::Patch => LumpKind::Patch,
            _ => LumpKind::Unknown,
        }
    } else {
        LumpKind::Unknown
    }
}

/// The kind of an entry of this name and size when `marker` is the stack
/// before it.
pub open spec fn classify(name: Seq<u8>, size: int, marker: Seq<LumpKind>) -> LumpKind {
    if named(name, "PLAYPAL") {
        LumpKind::Palette
    } else if is_plain_marker(name) {
        LumpKind::Unknown
    } else if named(name, "TITLEPIC") {
        LumpKind::Patch
    } else if is_music_name(name) {
        LumpKind::Sound
    } else if is_numbered_marker(name) {
        LumpKind::Unknown
    } else {
        kind_in_namespace(size, marker)
    }
}

/// The marker stack before entry `k`.
pub open spec fn marker_before(raws: Seq<RawLump>, k: int) -> Seq<LumpKind>
    decreases k,
{
    if k <= 0 {
        Seq::empty()
    } else {
        marker_after(names_of(raws)[k - 1], marker_before(raws, k - 1))
    }
}

/// The kind of entry `k`.
pub open spec fn kind_of(raws: Seq<RawLump>, k: int) -> LumpKind {
    classify(names_of(raws)[k], raws[k].entry.size, marker_before(raws, k))
}

/// The data of entry `k`: its payload, its entry with the id, and its kind.
pub open spec fn data_of(raws: Seq<RawLump>, k: int) -> LumpModel {
    LumpModel {
        buffer: raws[k].payload,
        metadata: InfoModel {
            pos: raws[k].entry.pos as i32,
            size: raws[k].entry.size as i32,
            name: raws[k].entry.name,
            id: id_of(raws, k),
            state: LumpState::Default,
        },
        kind: kind_of(raws, k),
    }
}

/// A lump of a kind before it is decoded. A flat and a picture take the
/// palettes as they are; a palette lump becomes the source of the palettes.
pub open spec fn fresh_lump(data: LumpModel, pal: PalettesModel) -> LumpView {
    match data.kind {
        LumpKind::Flat => LumpView::Flat(
            FlatModel { pixels: Seq::empty(), palettes: pal, data: data },
        ),
        LumpKind::Patch => LumpView::Patch(
            ImageModel {
                img_info: DoomImageInfo { width: 0, height: 0, left: 0, top: 0 },
                pixels: Seq::empty(),
                palettes: pal,
                data: data,
            },
        ),
        LumpKind::Sound => LumpView::Music(
            MusicModel {
                mus: MusModel { header: empty_mus_header(), event_buffer: Seq::empty() },
                data: data,
                midi: None,
            },
        ),
        LumpKind::Palette => LumpView::Palette(PalettesModel { data: data, ..pal }),
        LumpKind::Unknown => LumpView::Unknown(data),
    }
}

/// The palettes of the directory behind an entry: a palette lump is decoded
/// at once and replaces them, any other lump leaves them.
pub open spec fn pal_after(data: LumpModel, pal: PalettesModel) -> PalettesModel {
    if data.kind == LumpKind::Palette {
        (PalettesModel { data: data, ..pal }).decoded()
    } else {
        pal
    }
}

/// The palettes of the directory before entry `k`.
pub open spec fn pal_before(raws: Seq<RawLump>, pal: PalettesModel, k: int) -> PalettesModel
    decreases k,
{
    if k <= 0 {
        pal
    } else {
        pal_after(data_of(raws, k - 1), pal_before(raws, pal, k - 1))
    }
}

/// Lump `k` of the directory: classified, holding the palettes that were in
/// force before it, and decoded.
pub open spec fn lump_at(raws: Seq<RawLump>, pal: PalettesModel, k: int) -> LumpView {
    fresh_lump(data_of(raws, k), pal_before(raws, pal, k)).decoded()
}

/// The first `k` lumps that could not be decoded, by their index.
pub open spec fn failures(raws: Seq<RawLump>, pal: PalettesModel, k: int) -> Seq<usize>
    decreases k,
{
    if k <= 0 {
        Seq::empty()
    } else if fresh_lump(data_of(raws, k - 1), pal_before(raws, pal, k - 1)).decodable() {
        failures(raws, pal, k - 1)
    } else {
        failures(raws, pal, k - 1).push((k - 1) as usize)
    }
}

/// What a directory is: its lumps in order, the palettes in force, and the
/// lumps that the last parse could not decode.
pub struct DirectoryModel {
    pub lumps: Seq<LumpView>,
    pub pal: PalettesModel,
    pub undecoded: Seq<usize>,
}

/// The directory that parsing these entries gives when `pal` are the
/// palettes in force before.
pub open spec fn parsed(raws: Seq<RawLump>, pal: PalettesModel) -> DirectoryModel {
    DirectoryModel {
        lumps: Seq::new(raws.len(), |k: int| lump_at(raws, pal, k)),
        pal: pal_before(raws, pal, raws.len() as int),
        undecoded: failures(raws, pal, raws.len() as int),
    }
}

/// The lumps of a container in the order of its directory.
pub struct LumpsDirectory {
    /// The lumps.
    pub lumps: Vec<AnyLump>,
    /// The palettes in force: what flats and pictures take when they are
    /// classified.
    pub pal: Palettes,
    /// The lumps that the last parse could not decode, by their index.
    pub undecoded: Vec<usize>,
}

/// The lumps as what they are.
pub open spec fn lump_views(lumps: Seq<AnyLump>) -> Seq<LumpView> {
    Seq::new(lumps.len(), |i: int| lumps[i]@)
}

impl View for LumpsDirectory {
    type V = DirectoryModel;

    open spec fn view(&self) -> DirectoryModel {
        DirectoryModel {
            lumps: lump_views(self.lumps@),
            pal: self.pal@,
            undecoded: self.undecoded@,
        }
    }
}

impl Default for LumpsDirectory {
    fn default() -> (r: Self)
        ensures
            r@.lumps == Seq::<LumpView>::empty(),
            r@.pal == no_palettes(),
            r@.undecoded == Seq::<usize>::empty(),
    {
        let r = LumpsDirectory { lumps: Vec::new(), pal: Palettes::default(), undecoded: Vec::new() };
        assert(r@.lumps =~= Seq::<LumpView>::empty());
        r
    }
}

/// Appends `n` in decimal digits.
fn push_decimal(out: &mut Vec<u8>, n: u64)
    ensures
        final(out)@ == old(out)@ + decimal(n as nat),
    decreases n,
{
    if n >= 10 {
        push_decimal(out, n / 10);
    }
    let digit: u8 = (n % 10) as u8;
    out.push('0' as u8 + digit);
    assert(out@ =~= old(out)@ + decimal(n as nat));
}

/// The names as sequences.
pub open spec fn name_views(names: Seq<Vec<u8>>) -> Seq<Seq<u8>> {
    Seq::new(names.len(), |i: int| names[i]@)
}

/// How often `name` occurs in `names`.
fn count_same(names: &Vec<Vec<u8>>, name: &Vec<u8>) -> (r: usize)
    ensures
        r == count_in(name_views(names@), name@),
{
    let ghost all = name_views(names@);
    let mut r: usize = 0;
    let mut i: usize = 0;
    while i < names.len()
        invariant
            i <= names@.len(),
            r <= i,
            all == name_views(names@),
            r == count_in(all.take(i as int), name@),
        decreases names@.len() - i,
    {
        assert(all.take(i + 1).drop_last() =~= all.take(i as int));
        if same_bytes(names[i].as_slice(), name.as_slice()) {
            r += 1;
        }
        i += 1;
    }
    assert(all.take(i as int) =~= all);
    r
}

/// The id of an entry: `label` written over the padded name.
fn labelled_id(name: &[u8; 8], label: &Vec<u8>) -> (id: [u8; 12])
    ensures
        id@ == overlay(plain_id(name@), label@),
{
    let mut id: [u8; 12] = [0u8; 12];
    let mut i: usize = 0;
    while i < 12
        invariant
            i <= 12,
            forall|j: int| 0 <= j < i ==> id@[j] == overlay(plain_id(name@), label@)[j],
        decreases 12 - i,
    {
        if i < label.len() {
            id[i] = label[i];
        } else if i < 8 {
            id[i] = name[i];
        } else {
            id[i] = 0;
        }
        i += 1;
    }
    assert(id@ =~= overlay(plain_id(name@), label@));
    id
}

/// Whether `text` is one of `texts`.
fn holds_text(texts: &Vec<Vec<u8>>, text: &Vec<u8>) -> (r: bool)
    ensures
        r == name_views(texts@).contains(text@),
{
    let ghost all = name_views(texts@);
    let mut i: usize = 0;
    while i < texts.len()
        invariant
            i <= texts@.len(),
            all == name_views(texts@),
            forall|j: int| 0 <= j < i ==> all[j] != text@,
        decreases texts@.len() - i,
    {
        if same_bytes(texts[i].as_slice(), text.as_slice()) {
            assert(all[i as int] == text@);
            return true;
        }
        i += 1;
    }
    false
}

/// The id that a name takes with the first free suffix from `seen` on,
/// where there is one.
fn free_id(texts: &Vec<Vec<u8>>, raw: &[u8; 8], name: &Vec<u8>, seen: usize) -> (r: Option<
    [u8; 12],
>)
    requires
        name@ == printable(raw@),
    ensures
        r is Some <==> free_suffix(name_views(texts@), raw@, seen as nat) is Some,
        r matches Some(id) ==> id@ == id_with(
            raw@,
            free_suffix(name_views(texts@), raw@, seen as nat)->0,
        ),
{
    let ghost taken = name_views(texts@);
    if seen as u64 >= SUFFIX_END {
        return None;
    }
    let mut suffix: u64 = seen as u64;
    loop
        invariant
            seen <= suffix <= SUFFIX_END,
            name@ == printable(raw@),
            taken == name_views(texts@),
            free_suffix(taken, raw@, seen as nat) == free_suffix(taken, raw@, suffix as nat),
        decreases SUFFIX_END - suffix,
    {
        if suffix >= SUFFIX_END {
            return None;
        }
        let mut text = copy_range(name.as_slice(), 0, name.len());
        if suffix > 0 {
            push_decimal(&mut text, suffix);
        }
        assert(text@ =~= label(name@, suffix as nat));
        if text.len() > 12 {
            return None;
        }
        let id = labelled_id(raw, &text);
        let shown = printable_bytes(id.as_slice());
        if !holds_text(texts, &shown) {
            return Some(id);
        }
        suffix += 1;
    }
}

/// The top of the stack taken off; nothing where the stack is empty.
fn pop(marker: &mut Vec<LumpKind>)
    ensures
        final(marker)@ == popped(old(marker)@),
{
    if marker.len() > 0 {
        marker.pop();
    }
}

impl LumpsDirectory {
    /// A directory without lumps.
    pub fn new() -> (r: Self)
        ensures
            r@.lumps == Seq::<LumpView>::empty(),
            r@.pal == no_palettes(),
            r@.undecoded == Seq::<usize>::empty(),
    {
        Self::default()
    }

    /// Selects palette `value`, counted around the number of palettes a
    /// container is taken to have. Flats and pictures that are classified
    /// from now on take it; those classified before keep theirs.
    pub fn set_palette(&mut self, value: usize)
        ensures
            final(self)@ == (DirectoryModel {
                pal: PalettesModel { n: (value % 13) as usize, ..old(self)@.pal },
                ..old(self)@
            }),
    {
        self.pal.set_n(value % MAX_PAL);
    }

    /// Lets a numbered marker work on the stack: a start pushes its
    /// namespace, an end pops.
    pub fn set_marker(marker: &mut Vec<LumpKind>, name: &[u8])
        ensures
            final(marker)@ == numbered_effect(name@, old(marker)@),
    {
        if numbered_flat_start(name) {
            marker.push(LumpKind::Flat);
        }
        if numbered_patch_start(name) {
            marker.push(LumpKind::Patch);
        }
        if numbered_flat_end(name) {
            pop(marker);
        }
        if numbered_patch_end(name) {
            pop(marker);
        }
    }

    /// The kind of an entry that is none of the special names, and what the
    /// entry does to the stack: a numbered marker works on the stack and is
    /// of no kind; any other entry with a payload takes the kind of the
    /// namespace it stands in.
    pub fn pop_marker(marker: &mut Vec<LumpKind>, metadata: &LumpInfo, name: &[u8]) -> (kind:
        LumpKind)
        ensures
            final(marker)@ == numbered_effect(name@, old(marker)@),
            kind == if is_numbered_marker(name@) {
                LumpKind::Unknown
            } else {
                kind_in_namespace(metadata.size as int, old(marker)@)
            },
    {
        let numbered = numbered_flat_start(name) || numbered_patch_start(name) || numbered_flat_end(
            name,
        ) || numbered_patch_end(name);
        Self::set_marker(marker, name);
        if numbered || metadata.size <= 0 || marker.len() == 0 {
            return LumpKind::Unknown;
        }
        match marker[marker.len() - 1] {
            LumpKind::Patch => LumpKind::Patch,
            LumpKind::Flat => LumpKind::Flat,
            _ => LumpKind::Unknown,
        }
    }

    /// The kind of an entry, and what the entry does to the stack.
    pub fn classify(marker: &mut Vec<LumpKind>, metadata: &LumpInfo, name: &[u8]) -> (kind:
        LumpKind)
        ensures
            final(marker)@ == marker_after(name@, old(marker)@),
            kind == classify(name@, metadata.size as int, old(marker)@),
    {
        proof {
            reveal_strlit("PLAYPAL");
            reveal_strlit("F_START");
            reveal_strlit("S_START");
            reveal_strlit("SS_START");
            reveal_strlit("F_END");
            reveal_strlit("S_END");
            reveal_strlit("SS_END");
            reveal_strlit("TITLEPIC");
        }
        if is_word(name, "PLAYPAL") {
            LumpKind::Palette
        } else if is_word(name, "F_START") {
            marker.push(LumpKind::Flat);
            LumpKind::Unknown
        } else if is_word(name, "S_START") || is_word(name, "SS_START") {
            marker.push(LumpKind::Patch);
            LumpKind::Unknown
        } else if is_word(name, "F_END") || is_word(name, "S_END") || is_word(name, "SS_END") {
            pop(marker);
            LumpKind::Unknown
        } else if is_word(name, "TITLEPIC") {
            LumpKind::Patch
        } else if music_name(name) {
            LumpKind::Sound
        } else {
            Self::pop_marker(marker, metadata, name)
        }
    }

    /// A lump of the kind of `data`, not decoded yet. A flat and a picture
    /// take a copy of the palettes; a palette lump becomes their source.
    fn wrap(pal: &mut Palettes, data: LumpData) -> (lump: AnyLump)
        ensures
            final(pal)@ == pal_after(data@, old(pal)@),
            data.kind == LumpKind::Palette ==> lump@ == fresh_lump(data@, old(pal)@).decoded(),
            data.kind != LumpKind::Palette ==> lump@ == fresh_lump(data@, old(pal)@),
    {
        match data.kind {
            LumpKind::Palette => {
                pal.set_data(data);
                let _ = pal.parse();
                AnyLump::Palette(pal.clone())
            },
            LumpKind::Flat => AnyLump::Flat(Flat::new(pal.clone(), data)),
            LumpKind::Patch => AnyLump::Patch(DoomImage::new(pal.clone(), data)),
            LumpKind::Sound => AnyLump::Music(DoomMusic::new(data)),
            LumpKind::Unknown => AnyLump::Unknown(Unknown { data }),
        }
    }

    /// Whether the buffer holds the directory table that `info` announces
    /// and the payload of every entry.
    pub fn fits(info: WadInfo, buffer: &Vec<u8>) -> (r: bool)
        ensures
            r == directory_fits(info, buffer@),
    {
        if info.num_lumps < 0 || info.dir_pos < 0 {
            return false;
        }
        let count = info.num_lumps as u64;
        let start = info.dir_pos as u64;
        let len = buffer.len();
        if start + 16 * count > len as u64 {
            return false;
        }
        let mut k: u64 = 0;
        while k < count
            invariant
                k <= count,
                count == info.num_lumps,
                start == info.dir_pos,
                len == buffer@.len(),
                start + 16 * count <= len,
                forall|j: int|
                    0 <= j < k ==> payload_fits(
                        #[trigger] table_entry(buffer@, info.dir_pos as int, j),
                        buffer@,
                    ),
            decreases count - k,
        {
            let at: usize = (start + 16 * k) as usize;
            let entry = LumpInfo::from_bytes(slice_subrange(buffer.as_slice(), at, at + 16));
            assert(buffer@.subrange(at as int, at + 16).subrange(0, 16) =~= buffer@.subrange(
                info.dir_pos + 16 * k,
                info.dir_pos + 16 * k + 16,
            ));
            assert(entry@.entry() == table_entry(buffer@, info.dir_pos as int, k as int));
            if entry.pos < 0 || entry.size < 0 || entry.pos as u64 + entry.size as u64 > len as u64 {
                return false;
            }
            k += 1;
        }
        true
    }

    /// Reads the directory of a container and fills the directory with its
    /// lumps, each classified, given an id of its own, and decoded. Fails,
    /// and changes nothing: with `Load` where the buffer does not hold the
    /// directory table or the payload of an entry, else with
    /// `InvalidLumpName` where the twelve bytes of an id leave an entry no
    /// free id. A lump that cannot be decoded does not stop the others: it
    /// is listed in `undecoded`.
    pub fn parse(&mut self, info: WadInfo, buffer: &Vec<u8>) -> (r: Result<(), WadError>)
        ensures
            r is Ok <==> directory_fits(info, buffer@) && ids_free(raw_lumps(info, buffer@)),
            r is Ok ==> final(self)@ == parsed(raw_lumps(info, buffer@), old(self)@.pal),
            r is Ok ==> distinct_ids(final(self)@.lumps),
            r is Err ==> *final(self) == *old(self),
            r matches Err(e) ==> if directory_fits(info, buffer@) {
                e is InvalidLumpName
            } else {
                e is Load
            },
    {
        if !Self::fits(info, buffer) {
            return Err(WadError::Load("The directory or a lump lies outside the file."));
        }
        let count = info.num_lumps as u64;
        let start = info.dir_pos as u64;
        let len = buffer.len();
        let ghost raws = raw_lumps(info, buffer@);
        let ghost pal0 = self.pal@;
        let mut lumps: Vec<AnyLump> = Vec::new();
        let mut pal = self.pal.clone();
        let mut undecoded: Vec<usize> = Vec::new();
        let mut marker: Vec<LumpKind> = Vec::new();
        let mut names: Vec<Vec<u8>> = Vec::new();
        let mut texts: Vec<Vec<u8>> = Vec::new();
        let mut k: u64 = 0;
        while k < count
            invariant
                k <= count,
                count == info.num_lumps,
                start == info.dir_pos,
                len == buffer@.len(),
                directory_fits(info, buffer@),
                raws == raw_lumps(info, buffer@),
                pal0 == old(self).pal@,
                *self == *old(self),
                lumps@.len() == k,
                names@.len() == k,
                texts@.len() == k,
                ids_upto(raws, k as int) is Some,
                forall|j: int| 0 <= j < k ==> (#[trigger] lumps@[j])@ == lump_at(raws, pal0, j),
                forall|j: int| 0 <= j < k ==> (#[trigger] names@[j])@ == names_of(raws)[j],
                forall|j: int|
                    0 <= j < k ==> (#[trigger] texts@[j])@ == printable(
                        ids_upto(raws, k as int)->0[j],
                    ),
                marker@ == marker_before(raws, k as int),
                pal@ == pal_before(raws, pal0, k as int),
                undecoded@ == failures(raws, pal0, k as int),
            decreases count - k,
        {
            let at: usize = (start + 16 * k) as usize;
            let mut metadata = LumpInfo::from_bytes(slice_subrange(buffer.as_slice(), at, at + 16));
            let ghost e = table_entry(buffer@, info.dir_pos as int, k as int);
            assert(buffer@.subrange(at as int, at + 16).subrange(0, 16) =~= buffer@.subrange(
                info.dir_pos + 16 * k,
                info.dir_pos + 16 * k + 16,
            ));
            assert(metadata@.entry() == e);
            assert(payload_fits(e, buffer@));
            let pos = metadata.pos as usize;
            let size = metadata.size as usize;
            let name = printable_bytes(metadata.name.as_slice());
            assert(raws[k as int] == raw_lump(buffer@, info.dir_pos as int, k as int));
            assert(name@ == names_of(raws)[k as int]);
            let seen = count_same(&names, &name);
            let ghost ids = ids_upto(raws, k as int)->0;
            proof {
                lemma_ids_len(raws, k as int);
                assert(name_views(names@) =~= names_of(raws).take(k as int));
                assert(seen == times_seen(raws, k as int));
                assert(name_views(texts@) =~= texts_of(ids));
            }
            metadata.id = match free_id(&texts, &metadata.name, &name, seen) {
                Some(id) => id,
                None => {
                    proof {
                        lemma_ids_lost(raws, k + 1, count as int);
                    }
                    return Err(WadError::InvalidLumpName);
                },
            };
            proof {
                lemma_ids_prefix(raws, k as int, k + 1);
                lemma_ids_len(raws, k + 1);
                assert(metadata.id@ == id_of(raws, k as int));
            }
            let text = printable_bytes(metadata.id.as_slice());
            let kind = Self::classify(&mut marker, &metadata, name.as_slice());
            let data = LumpData { buffer: copy_range(buffer.as_slice(), pos, pos + size), metadata, kind };
            assert(data@ == data_of(raws, k as int));
            let ghost fresh = fresh_lump(data@, pal@);
            let mut lump = Self::wrap(&mut pal, data);
            proof {
                lemma_decoded_twice(fresh);
            }
            match lump.parse() {
                Ok(()) => {},
                Err(_) => {
                    undecoded.push(k as usize);
                },
            }
            assert(lump@ == lump_at(raws, pal0, k as int));
            lumps.push(lump);
            names.push(name);
            texts.push(text);
            k += 1;
        }
        proof {
            assert(lump_views(lumps@) =~= parsed(raws, pal0).lumps);
            lemma_parsed_distinct(raws, pal0);
        }
        self.lumps = lumps;
        self.pal = pal;
        self.undecoded = undecoded;
        Ok(())
    }
}

/// A lump keeps the data it was made of.
pub proof fn lemma_lump_data(raws: Seq<RawLump>, pal: PalettesModel, k: int)
    ensures
        lump_at(raws, pal, k).data() == data_of(raws, k),
{
    lemma_decoded_twice(fresh_lump(data_of(raws, k), pal_before(raws, pal, k)));
}

/// The lumps of a parsed directory have ids of their own: no two of them
/// have one printable id.
pub proof fn lemma_parsed_distinct(raws: Seq<RawLump>, pal: PalettesModel)
    requires
        ids_free(raws),
    ensures
        distinct_ids(parsed(raws, pal).lumps),
{
    let lumps = parsed(raws, pal).lumps;
    assert forall|i: int, j: int| 0 <= i < j < lumps.len() implies (#[trigger] lumps[i]).data().metadata.id_text()
        != (#[trigger] lumps[j]).data().metadata.id_text() by {
        lemma_lump_data(raws, pal, i);
        lemma_lump_data(raws, pal, j);
        lemma_ids_distinct(raws, raws.len() as int, i, j);
    }
}

/// The printable id of a lump as text.
pub open spec fn id_chars(lump: LumpView) -> Seq<char> {
    ascii_chars(lump.data().metadata.id_text())
}

/// The printable name of a lump as text.
pub open spec fn name_chars(lump: LumpView) -> Seq<char> {
    ascii_chars(lump.data().metadata.name_text())
}

/// For each lump, whether the pattern finds a match in its id.
pub open spec fn id_hits(lumps: Seq<LumpView>, pattern: Seq<char>) -> Seq<bool> {
    Seq::new(lumps.len(), |i: int| regex_matches(pattern, id_chars(lumps[i])))
}

/// For each lump, whether the pattern finds a match in its name.
pub open spec fn name_hits(lumps: Seq<LumpView>, pattern: Seq<char>) -> Seq<bool> {
    Seq::new(lumps.len(), |i: int| regex_matches(pattern, name_chars(lumps[i])))
}

/// Whether index `i` is marked.
pub open spec fn hit(hits: Seq<bool>, i: int) -> bool {
    0 <= i < hits.len() && hits[i]
}

/// The marked indexes below `upto`, in ascending order.
pub open spec fn hit_indexes(hits: Seq<bool>, upto: int) -> Seq<usize>
    decreases upto,
{
    if upto <= 0 {
        Seq::empty()
    } else if hit(hits, upto - 1) {
        hit_indexes(hits, upto - 1).push((upto - 1) as usize)
    } else {
        hit_indexes(hits, upto - 1)
    }
}

/// `made` is what `f` made of the lumps at the indexes `found`, one by one.
pub open spec fn called_on<T, F: Fn(&AnyLump) -> T>(
    lumps: Seq<AnyLump>,
    found: Seq<usize>,
    f: F,
    made: Seq<T>,
) -> bool {
    &&& made.len() == found.len()
    &&& forall|j: int| 0 <= j < found.len() ==> #[trigger] found[j] < lumps.len()
    &&& forall|j: int|
        0 <= j < made.len() ==> f.ensures((&lumps[found[j] as int],), #[trigger] made[j])
}

/// A lump with another state.
pub open spec fn with_state(lump: LumpView, state: LumpState) -> LumpView {
    lump.with_data(
        LumpModel {
            metadata: InfoModel { state: state, ..lump.data().metadata },
            ..lump.data()
        },
    )
}

/// Whether a lump has not been deleted.
pub open spec fn is_alive(lump: LumpView) -> bool {
    lump.data().metadata.state.alive()
}

/// The lumps with the marked ones deleted.
pub open spec fn tombstoned(lumps: Seq<LumpView>, hits: Seq<bool>) -> Seq<LumpView> {
    Seq::new(
        lumps.len(),
        |i: int|
            if hit(hits, i) {
                with_state(lumps[i], LumpState::Deleted)
            } else {
                lumps[i]
            },
    )
}

/// How many of the first `upto` lumps are alive.
pub open spec fn alive_upto(lumps: Seq<LumpView>, upto: int) -> nat
    decreases upto,
{
    if upto <= 0 {
        0
    } else {
        alive_upto(lumps, upto - 1) + if is_alive(lumps[upto - 1]) {
            1nat
        } else {
            0nat
        }
    }
}

/// How many lumps are alive.
pub open spec fn alive_count_of(lumps: Seq<LumpView>) -> nat {
    alive_upto(lumps, lumps.len() as int)
}

/// How many of the first `upto` lumps are marked.
pub open spec fn hits_upto(lumps: Seq<LumpView>, hits: Seq<bool>, upto: int) -> nat
    decreases upto,
{
    if upto <= 0 {
        0
    } else {
        hits_upto(lumps, hits, upto - 1) + if hit(hits, upto - 1) {
            1nat
        } else {
            0nat
        }
    }
}

/// How many of the first `upto` lumps are marked and alive.
pub open spec fn alive_hits_upto(lumps: Seq<LumpView>, hits: Seq<bool>, upto: int) -> nat
    decreases upto,
{
    if upto <= 0 {
        0
    } else {
        alive_hits_upto(lumps, hits, upto - 1) + if hit(hits, upto - 1) && is_alive(
            lumps[upto - 1],
        ) {
            1nat
        } else {
            0nat
        }
    }
}

/// Deleting the marked lumps keeps every lump in its place and lowers the
/// number of lumps alive by the number of marked lumps that were alive.
pub proof fn lemma_tombstone_counts(lumps: Seq<LumpView>, hits: Seq<bool>, upto: int)
    requires
        0 <= upto <= lumps.len(),
    ensures
        tombstoned(lumps, hits).len() == lumps.len(),
        alive_upto(tombstoned(lumps, hits), upto) + alive_hits_upto(lumps, hits, upto)
            == alive_upto(lumps, upto),
        alive_hits_upto(lumps, hits, upto) <= hits_upto(lumps, hits, upto) <= upto,
    decreases upto,
{
    if upto > 0 {
        lemma_tombstone_counts(lumps, hits, upto - 1);
    }
}

/// Where no marked lump was deleted before, deleting the marked lumps lowers
/// the number of lumps alive by the number of marked lumps.
pub proof fn lemma_tombstone_alive_count(lumps: Seq<LumpView>, hits: Seq<bool>)
    requires
        forall|i: int| 0 <= i < lumps.len() && hit(hits, i) ==> is_alive(#[trigger] lumps[i]),
    ensures
        tombstoned(lumps, hits).len() == lumps.len(),
        alive_count_of(tombstoned(lumps, hits)) == alive_count_of(lumps) - hits_upto(
            lumps,
            hits,
            lumps.len() as int,
        ),
{
    lemma_tombstone_counts(lumps, hits, lumps.len() as int);
    lemma_alive_hits(lumps, hits, lumps.len() as int);
}

/// Where every marked lump is alive, the marked lumps are the marked lumps
/// alive.
proof fn lemma_alive_hits(lumps: Seq<LumpView>, hits: Seq<bool>, upto: int)
    requires
        0 <= upto <= lumps.len(),
        forall|i: int| 0 <= i < lumps.len() && hit(hits, i) ==> is_alive(#[trigger] lumps[i]),
    ensures
        alive_hits_upto(lumps, hits, upto) == hits_upto(lumps, hits, upto),
    decreases upto,
{
    if upto > 0 {
        lemma_alive_hits(lumps, hits, upto - 1);
    }
}

/// The greatest position among the lumps, and 1 where there is no lump.
pub open spec fn max_pos(lumps: Seq<LumpView>) -> int
    decreases lumps.len(),
{
    if lumps.len() == 0 {
        1
    } else if lumps.len() == 1 {
        lumps[0].data().metadata.pos as int
    } else {
        let rest = max_pos(lumps.drop_last());
        if lumps.last().data().metadata.pos > rest {
            lumps.last().data().metadata.pos as int
        } else {
            rest
        }
    }
}

/// No lump stands behind the greatest position: the position that an added
/// lump takes, one more, is the position of no lump in the directory.
pub proof fn lemma_max_pos(lumps: Seq<LumpView>, i: int)
    requires
        0 <= i < lumps.len(),
    ensures
        lumps[i].data().metadata.pos <= max_pos(lumps),
    decreases lumps.len(),
{
    if lumps.len() > 1 {
        if i < lumps.len() - 1 {
            lemma_max_pos(lumps.drop_last(), i);
        }
    }
}

/// The first lump with this id, where there is one.
pub open spec fn first_with_id(lumps: Seq<LumpView>, id: Seq<char>, i: int) -> bool {
    &&& 0 <= i < lumps.len()
    &&& id_chars(lumps[i]) == id
    &&& forall|j: int| 0 <= j < i ==> id_chars(#[trigger] lumps[j]) != id
}

/// Where no two lumps have one id, a lump is the one that its id finds: it
/// is the first with its id, and the only one.
pub proof fn lemma_found_by_id(lumps: Seq<LumpView>, k: int)
    requires
        distinct_ids(lumps),
        0 <= k < lumps.len(),
    ensures
        first_with_id(lumps, id_chars(lumps[k]), k),
        forall|i: int|
            0 <= i < lumps.len() && id_chars(#[trigger] lumps[i]) == id_chars(lumps[k]) ==> i == k,
{
    assert forall|i: int|
        0 <= i < lumps.len() && id_chars(#[trigger] lumps[i]) == id_chars(lumps[k]) implies i
        == k by {
        lemma_printable(lumps[i].data().metadata.id);
        lemma_printable(lumps[k].data().metadata.id);
        lemma_ascii_chars_decide(
            lumps[i].data().metadata.id_text(),
            lumps[k].data().metadata.id_text(),
        );
    }
}

/// No lump has this id.
pub open spec fn no_lump_with_id(lumps: Seq<LumpView>, id: Seq<char>) -> bool {
    forall|j: int| 0 <= j < lumps.len() ==> id_chars(#[trigger] lumps[j]) != id
}

/// The place that a request asks for, where it names one: the front, the
/// back, or the place before or behind the first lump with the id named.
pub open spec fn place_of(lumps: Seq<LumpView>, kind: LumpAddKind, at: int) -> bool {
    match kind {
        LumpAddKind::Front => at == 0,
        LumpAddKind::Back => at == lumps.len(),
        LumpAddKind::Before(id) => first_with_id(lumps, id@, at),
        LumpAddKind::After(id) => first_with_id(lumps, id@, at - 1),
    }
}

/// Whether a request names a place.
pub open spec fn has_place(lumps: Seq<LumpView>, kind: LumpAddKind) -> bool {
    match kind {
        LumpAddKind::Front => true,
        LumpAddKind::Back => true,
        LumpAddKind::Before(id) => !no_lump_with_id(lumps, id@),
        LumpAddKind::After(id) => !no_lump_with_id(lumps, id@),
    }
}

/// The printable id of every lump.
pub open spec fn texts_in(lumps: Seq<LumpView>) -> Seq<Seq<u8>> {
    Seq::new(lumps.len(), |i: int| lumps[i].data().metadata.id_text())
}

/// Whether a name is left an id that no lump has: the name itself or the
/// name with a suffix.
pub open spec fn id_left(lumps: Seq<LumpView>, name: Seq<u8>) -> bool {
    free_suffix(texts_in(lumps), name, 0) is Some
}

/// The lump that a request adds: a lump of no kind under the name asked
/// for, alive, at a position behind every other, with the name as its id,
/// or the name with the first suffix that gives an id no lump has.
pub open spec fn added_lump(lumps: Seq<LumpView>, buffer: Seq<u8>, name: Seq<u8>) -> LumpView {
    LumpView::Unknown(
        LumpModel {
            buffer: buffer,
            metadata: InfoModel {
                pos: (max_pos(lumps) + 1) as i32,
                size: buffer.len() as i32,
                name: name,
                id: id_with(name, free_suffix(texts_in(lumps), name, 0)->0),
                state: LumpState::Default,
            },
            kind: LumpKind::Unknown,
        },
    )
}

/// A lump with an id that no lump has keeps the ids distinct wherever it
/// is added.
pub proof fn lemma_insert_distinct(lumps: Seq<LumpView>, at: int, lump: LumpView)
    requires
        distinct_ids(lumps),
        0 <= at <= lumps.len(),
        !texts_in(lumps).contains(lump.data().metadata.id_text()),
    ensures
        distinct_ids(lumps.insert(at, lump)),
{
    let after = lumps.insert(at, lump);
    assert forall|i: int, j: int| 0 <= i < j < after.len() implies (#[trigger] after[i]).data().metadata.id_text()
        != (#[trigger] after[j]).data().metadata.id_text() by {
        let a = if i < at {
            i
        } else {
            i - 1
        };
        let b = if j < at {
            j
        } else {
            j - 1
        };
        if i == at {
            assert(after[j] == lumps[b]);
            assert(texts_in(lumps)[b] == lumps[b].data().metadata.id_text());
        } else if j == at {
            assert(after[i] == lumps[a]);
            assert(texts_in(lumps)[a] == lumps[a].data().metadata.id_text());
        } else {
            assert(after[i] == lumps[a]);
            assert(after[j] == lumps[b]);
        }
    }
}

/// Whether a lump can be added: its payload and the position behind every
/// other lump can be written in a directory entry.
pub open spec fn can_add(lumps: Seq<LumpView>, buffer: Seq<u8>) -> bool {
    buffer.len() <= i32::MAX && max_pos(lumps) < i32::MAX
}

impl LumpsDirectory {
    /// The printable id of every lump.
    fn id_texts(&self) -> (r: Vec<String>)
        ensures
            r@.len() == self.lumps@.len(),
            forall|i: int| 0 <= i < r@.len() ==> (#[trigger] r@[i])@ == id_chars(self@.lumps[i]),
    {
        let mut r: Vec<String> = Vec::new();
        let mut i: usize = 0;
        while i < self.lumps.len()
            invariant
                i <= self.lumps@.len(),
                r@.len() == i,
                forall|j: int| 0 <= j < i ==> (#[trigger] r@[j])@ == id_chars(self@.lumps[j]),
            decreases self.lumps@.len() - i,
        {
            r.push(self.lumps[i].info().id_ascii());
            i += 1;
        }
        r
    }

    /// The printable name of every lump.
    fn name_texts(&self) -> (r: Vec<String>)
        ensures
            r@.len() == self.lumps@.len(),
            forall|i: int| 0 <= i < r@.len() ==> (#[trigger] r@[i])@ == name_chars(self@.lumps[i]),
    {
        let mut r: Vec<String> = Vec::new();
        let mut i: usize = 0;
        while i < self.lumps.len()
            invariant
                i <= self.lumps@.len(),
                r@.len() == i,
                forall|j: int| 0 <= j < i ==> (#[trigger] r@[j])@ == name_chars(self@.lumps[j]),
            decreases self.lumps@.len() - i,
        {
            r.push(self.lumps[i].info().name_ascii());
            i += 1;
        }
        r
    }

    /// For each lump, whether `pattern` finds a match in its id. Fails where
    /// the pattern does not compile.
    pub fn match_ids(&self, pattern: &str) -> (r: Result<Vec<bool>, WadError>)
        ensures
            r is Ok <==> regex_compiles(pattern@),
            r matches Ok(hits) ==> hits@ == id_hits(self@.lumps, pattern@),
            r matches Err(e) ==> e is InvalidRegex,
    {
        let texts = self.id_texts();
        match regex_match_each(pattern, &texts) {
            Ok(hits) => {
                assert(hits@ =~= id_hits(self@.lumps, pattern@));
                Ok(hits)
            },
            Err(_) => Err(WadError::InvalidRegex),
        }
    }

    /// For each lump, whether `pattern` finds a match in its name. Fails
    /// where the pattern does not compile.
    pub fn match_names(&self, pattern: &str) -> (r: Result<Vec<bool>, WadError>)
        ensures
            r is Ok <==> regex_compiles(pattern@),
            r matches Ok(hits) ==> hits@ == name_hits(self@.lumps, pattern@),
            r matches Err(e) ==> e is InvalidRegex,
    {
        let texts = self.name_texts();
        match regex_match_each(pattern, &texts) {
            Ok(hits) => {
                assert(hits@ =~= name_hits(self@.lumps, pattern@));
                Ok(hits)
            },
            Err(_) => Err(WadError::InvalidRegex),
        }
    }

    /// The indexes of the marked lumps, in ascending order.
    pub fn indexes_where(&self, hits: &Vec<bool>) -> (r: Vec<usize>)
        ensures
            r@ == hit_indexes(hits@, self.lumps@.len() as int),
    {
        let mut r: Vec<usize> = Vec::new();
        let mut i: usize = 0;
        while i < self.lumps.len()
            invariant
                i <= self.lumps@.len(),
                r@ == hit_indexes(hits@, i as int),
            decreases self.lumps@.len() - i,
        {
            if i < hits.len() && hits[i] {
                r.push(i);
            }
            i += 1;
        }
        r
    }

    /// The indexes of the lumps in whose id `pattern` finds a match, in
    /// ascending order. Fails where the pattern does not compile.
    pub fn indexes(&self, pattern: &str) -> (r: Result<Vec<usize>, WadError>)
        ensures
            r is Ok <==> regex_compiles(pattern@),
            r matches Ok(found) ==> found@ == hit_indexes(
                id_hits(self@.lumps, pattern@),
                self.lumps@.len() as int,
            ),
            r matches Err(e) ==> e is InvalidRegex,
    {
        match self.match_ids(pattern) {
            Ok(hits) => Ok(self.indexes_where(&hits)),
            Err(e) => Err(e),
        }
    }

    /// The index of the first lump whose printable id is `name`.
    pub fn index(&self, name: &str) -> (r: Option<usize>)
        ensures
            r matches Some(i) ==> i < self.lumps.len() && first_with_id(self@.lumps, name@, i as int),
            r is None ==> no_lump_with_id(self@.lumps, name@),
    {
        let wanted = name.as_bytes();
        let mut i: usize = 0;
        while i < self.lumps.len()
            invariant
                i <= self.lumps@.len(),
                wanted@ == name.spec_bytes(),
                forall|j: int| 0 <= j < i ==> id_chars(#[trigger] self@.lumps[j]) != name@,
            decreases self.lumps@.len() - i,
        {
            let info = self.lumps[i].info();
            let id = printable_bytes(info.id.as_slice());
            proof {
                lemma_printable(info.id@);
                lemma_ascii_is_utf8(id@);
                encode_utf8_decode_utf8(name@);
            }
            if same_bytes(id.as_slice(), wanted) {
                return Some(i);
            }
            i += 1;
        }
        None
    }

    /// The first lump whose printable id is `name`.
    pub fn lump(&self, name: &str) -> (r: Option<&AnyLump>)
        ensures
            r matches Some(l) ==> exists|i: int|
                first_with_id(self@.lumps, name@, i) && l@ == self@.lumps[i],
            r is None ==> no_lump_with_id(self@.lumps, name@),
    {
        match self.index(name) {
            Some(i) => Some(&self.lumps[i]),
            None => None,
        }
    }

    /// How many lumps are alive.
    pub fn alive_count(&self) -> (r: usize)
        ensures
            r == alive_count_of(self@.lumps),
    {
        let mut r: usize = 0;
        let mut i: usize = 0;
        while i < self.lumps.len()
            invariant
                i <= self.lumps@.len(),
                r <= i,
                r == alive_upto(self@.lumps, i as int),
            decreases self.lumps@.len() - i,
        {
            if self.lumps[i].info().state.is_alive() {
                r += 1;
            }
            i += 1;
        }
        r
    }

    /// Deletes the marked lumps: each stays in its place with the state
    /// `Deleted`. Gives the number of marked lumps.
    pub fn remove_where(&mut self, hits: &Vec<bool>) -> (r: usize)
        ensures
            final(self)@ == (DirectoryModel {
                lumps: tombstoned(old(self)@.lumps, hits@),
                ..old(self)@
            }),
            r == hits_upto(old(self)@.lumps, hits@, old(self)@.lumps.len() as int),
    {
        let ghost before = self@.lumps;
        let mut r: usize = 0;
        let mut i: usize = 0;
        while i < self.lumps.len()
            invariant
                i <= self.lumps@.len(),
                self.lumps@.len() == before.len(),
                before == old(self)@.lumps,
                self.pal == old(self).pal,
                self.undecoded == old(self).undecoded,
                r <= i,
                r == hits_upto(before, hits@, i as int),
                forall|j: int| 0 <= j < i ==> (#[trigger] self.lumps@[j])@ == tombstoned(before, hits@)[j],
                forall|j: int| i <= j < before.len() ==> (#[trigger] self.lumps@[j])@ == before[j],
            decreases self.lumps@.len() - i,
        {
            if i < hits.len() && hits[i] {
                let mut data = self.lumps[i].data();
                data.metadata.state = LumpState::Deleted;
                let mut lump = self.lumps[i].clone();
                lump.set_data(data);
                self.lumps.set(i, lump);
                r += 1;
            }
            i += 1;
        }
        assert(self@.lumps =~= tombstoned(before, hits@));
        r
    }

    /// Deletes the lumps in whose id `pattern` finds a match: each stays in
    /// its place with the state `Deleted`. Gives the number of lumps in
    /// whose id the pattern finds a match. Fails, and changes nothing, where
    /// the pattern does not compile.
    pub fn remove_lumps(&mut self, pattern: &str) -> (r: Result<usize, WadError>)
        ensures
            r is Ok <==> regex_compiles(pattern@),
            r matches Ok(n) ==> final(self)@ == (DirectoryModel {
                lumps: tombstoned(old(self)@.lumps, id_hits(old(self)@.lumps, pattern@)),
                ..old(self)@
            }) && n == hits_upto(
                old(self)@.lumps,
                id_hits(old(self)@.lumps, pattern@),
                old(self)@.lumps.len() as int,
            ),
            r matches Err(e) ==> e is InvalidRegex && *final(self) == *old(self),
    {
        match self.match_ids(pattern) {
            Ok(hits) => Ok(self.remove_where(&hits)),
            Err(e) => Err(e),
        }
    }

    /// Calls `f` on each marked lump, in the order of the directory. Gives
    /// what `f` made of each of them, in the same order.
    pub fn callback_where<T, F: Fn(&AnyLump) -> T>(&self, hits: &Vec<bool>, f: F) -> (r: Vec<T>)
        requires
            forall|i: int|
                0 <= i < self.lumps@.len() && hit(hits@, i) ==> f.requires(
                    (#[trigger] &self.lumps@[i],),
                ),
        ensures
            called_on(self.lumps@, hit_indexes(hits@, self.lumps@.len() as int), f, r@),
    {
        let mut r: Vec<T> = Vec::new();
        let mut i: usize = 0;
        while i < self.lumps.len()
            invariant
                i <= self.lumps@.len(),
                forall|j: int|
                    0 <= j < self.lumps@.len() && hit(hits@, j) ==> f.requires(
                        (#[trigger] &self.lumps@[j],),
                    ),
                called_on(self.lumps@, hit_indexes(hits@, i as int), f, r@),
            decreases self.lumps@.len() - i,
        {
            let ghost found = hit_indexes(hits@, i as int);
            let ghost prior = r@;
            if i < hits.len() && hits[i] {
                let made = f(&self.lumps[i]);
                let ghost last = made;
                r.push(made);
                proof {
                    let next = hit_indexes(hits@, i + 1);
                    assert(hit(hits@, i as int));
                    assert(next == found.push(i));
                    assert(f.ensures((&self.lumps@[i as int],), last));
                    assert forall|j: int| 0 <= j < next.len() implies #[trigger] next[j]
                        < self.lumps@.len() by {
                        if j < found.len() {
                            assert(next[j] == found[j]);
                        }
                    }
                    assert forall|j: int| 0 <= j < r@.len() implies f.ensures(
                        (&self.lumps@[next[j] as int],),
                        #[trigger] r@[j],
                    ) by {
                        if j < prior.len() {
                            assert(r@[j] == prior[j]);
                            assert(next[j] == found[j]);
                        } else {
                            assert(r@[j] == last);
                            assert(next[j] == i);
                        }
                    }
                }
            } else {
                assert(!hit(hits@, i as int));
                assert(hit_indexes(hits@, i + 1) == found);
            }
            i += 1;
        }
        r
    }

    /// Calls `f` on each lump in whose name `pattern` finds a match, in the
    /// order of the directory. Gives what `f` made of each of them, in the
    /// same order. Fails, and calls nothing, where the pattern does not
    /// compile.
    pub fn callback_lumps<T, F: Fn(&AnyLump) -> T>(&self, pattern: &str, f: F) -> (r: Result<
        Vec<T>,
        WadError,
    >)
        requires
            forall|i: int| 0 <= i < self.lumps@.len() ==> f.requires((#[trigger] &self.lumps@[i],)),
        ensures
            r is Ok <==> regex_compiles(pattern@),
            r matches Ok(made) ==> called_on(
                self.lumps@,
                hit_indexes(name_hits(self@.lumps, pattern@), self.lumps@.len() as int),
                f,
                made@,
            ),
            r matches Err(e) ==> e is InvalidRegex,
    {
        match self.match_names(pattern) {
            Ok(hits) => Ok(self.callback_where(&hits, f)),
            Err(e) => Err(e),
        }
    }

    /// Replaces the data of each marked lump by what `f` makes of it, in the
    /// order of the directory.
    pub fn update_where<F: Fn(LumpData) -> LumpData>(&mut self, hits: &Vec<bool>, f: F)
        requires
            forall|d: LumpData| f.requires((d,)),
        ensures
            final(self).pal == old(self).pal,
            final(self).undecoded == old(self).undecoded,
            final(self)@.lumps.len() == old(self)@.lumps.len(),
            forall|i: int|
                0 <= i < old(self)@.lumps.len() && !hit(hits@, i) ==> final(self)@.lumps[i] == old(
                    self,
                )@.lumps[i],
            forall|i: int|
                0 <= i < old(self)@.lumps.len() && hit(hits@, i) ==> exists|d: LumpData, e: LumpData|
                    #![trigger f.ensures((d,), e)]
                    d@ == old(self)@.lumps[i].data() && f.ensures((d,), e) && final(self)@.lumps[i]
                        == old(self)@.lumps[i].with_data(e@),
    {
        let ghost before = self@.lumps;
        let mut i: usize = 0;
        while i < self.lumps.len()
            invariant
                i <= self.lumps@.len(),
                self.lumps@.len() == before.len(),
                before == old(self)@.lumps,
                self.pal == old(self).pal,
                self.undecoded == old(self).undecoded,
                forall|d: LumpData| f.requires((d,)),
                forall|j: int|
                    0 <= j < before.len() && (i <= j || !hit(hits@, j)) ==> (
                    #[trigger] self.lumps@[j])@ == before[j],
                forall|j: int|
                    0 <= j < i && hit(hits@, j) ==> exists|d: LumpData, e: LumpData|
                        #![trigger f.ensures((d,), e)]
                        d@ == before[j].data() && f.ensures((d,), e) && self.lumps@[j]@
                            == before[j].with_data(e@),
            decreases self.lumps@.len() - i,
        {
            if i < hits.len() && hits[i] {
                let data = self.lumps[i].data();
                let ghost d = data;
                let changed = f(data);
                let ghost e = changed;
                let mut lump = self.lumps[i].clone();
                lump.set_data(changed);
                self.lumps.set(i, lump);
                assert(d@ == before[i as int].data() && f.ensures((d,), e) && self.lumps@[i as int]@
                    == before[i as int].with_data(e@));
            }
            i += 1;
        }
    }

    /// Replaces the data of each lump in whose name `pattern` finds a match
    /// by what `f` makes of it. Fails, and changes nothing, where the
    /// pattern does not compile.
    pub fn callback_lumps_mut<F: Fn(LumpData) -> LumpData>(&mut self, pattern: &str, f: F) -> (r:
        Result<(), WadError>)
        requires
            forall|d: LumpData| f.requires((d,)),
        ensures
            r is Ok <==> regex_compiles(pattern@),
            final(self).pal == old(self).pal,
            final(self).undecoded == old(self).undecoded,
            final(self)@.lumps.len() == old(self)@.lumps.len(),
            r matches Err(e) ==> e is InvalidRegex && *final(self) == *old(self),
            r is Ok ==> forall|i: int|
                0 <= i < old(self)@.lumps.len() && !hit(name_hits(old(self)@.lumps, pattern@), i)
                    ==> final(self)@.lumps[i] == old(self)@.lumps[i],
            r is Ok ==> forall|i: int|
                0 <= i < old(self)@.lumps.len() && hit(name_hits(old(self)@.lumps, pattern@), i)
                    ==> exists|d: LumpData, e: LumpData|
                    #![trigger f.ensures((d,), e)]
                    d@ == old(self)@.lumps[i].data() && f.ensures((d,), e) && final(self)@.lumps[i]
                        == old(self)@.lumps[i].with_data(e@),
    {
        match self.match_names(pattern) {
            Ok(hits) => {
                self.update_where(&hits, f);
                Ok(())
            },
            Err(e) => Err(e),
        }
    }

    /// The greatest position among the lumps, and 1 where there is no lump.
    fn greatest_pos(&self) -> (r: i32)
        ensures
            r == max_pos(self@.lumps),
    {
        if self.lumps.len() == 0 {
            return 1;
        }
        let mut r: i32 = self.lumps[0].info().pos;
        assert(self@.lumps.take(1) =~= seq![self@.lumps[0]]);
        let mut i: usize = 1;
        while i < self.lumps.len()
            invariant
                1 <= i <= self.lumps@.len(),
                r == max_pos(self@.lumps.take(i as int)),
            decreases self.lumps@.len() - i,
        {
            assert(self@.lumps.take(i + 1).drop_last() =~= self@.lumps.take(i as int));
            let pos = self.lumps[i].info().pos;
            if pos > r {
                r = pos;
            }
            i += 1;
        }
        assert(self@.lumps.take(i as int) =~= self@.lumps);
        r
    }

    /// The place that a request asks for. Fails where the request names a
    /// lump that the directory does not hold.
    pub fn index_from_kind(&self, kind: LumpAddKind) -> (r: Result<usize, WadError>)
        ensures
            r is Ok <==> has_place(self@.lumps, kind),
            r matches Ok(at) ==> at <= self.lumps@.len() && place_of(self@.lumps, kind, at as int),
            r matches Err(e) ==> e is InvalidLumpName,
    {
        match kind {
            LumpAddKind::Front => Ok(0),
            LumpAddKind::Back => Ok(self.lumps.len()),
            LumpAddKind::Before(id) => match self.index(id) {
                Some(i) => Ok(i),
                None => Err(WadError::InvalidLumpName),
            },
            LumpAddKind::After(id) => match self.index(id) {
                Some(i) => Ok(i + 1),
                None => Err(WadError::InvalidLumpName),
            },
        }
    }

    /// The printable id of every lump, in bytes.
    fn id_bytes(&self) -> (r: Vec<Vec<u8>>)
        ensures
            name_views(r@) == texts_in(self@.lumps),
    {
        let mut r: Vec<Vec<u8>> = Vec::new();
        let mut i: usize = 0;
        while i < self.lumps.len()
            invariant
                i <= self.lumps@.len(),
                r@.len() == i,
                forall|j: int| 0 <= j < i ==> (#[trigger] r@[j])@ == texts_in(self@.lumps)[j],
            decreases self.lumps@.len() - i,
        {
            let info = self.lumps[i].info();
            r.push(printable_bytes(info.id.as_slice()));
            i += 1;
        }
        assert(name_views(r@) =~= texts_in(self@.lumps));
        r
    }

    /// Adds a lump of no kind with the payload and under the name of the
    /// request, at the place the request asks for. The lump takes a
    /// position greater than that of every lump in the directory, and as
    /// its id its name, or its name with the first suffix that gives an id
    /// no lump in the directory has. Gives the printable id of the lump.
    /// Fails, and changes nothing: with `Unknown` where the payload is too
    /// long or no greater position is left, else with `InvalidLumpName`
    /// where the request names a lump that the directory does not hold or
    /// the name is left no id.
    pub fn insert(&mut self, add: LumpAdd) -> (r: Result<String, WadError>)
        ensures
            r is Ok <==> can_add(old(self)@.lumps, add.buffer@) && has_place(
                old(self)@.lumps,
                add.kind,
            ) && id_left(old(self)@.lumps, add.name@),
            r matches Ok(id) ==> exists|at: int|
                place_of(old(self)@.lumps, add.kind, at) && 0 <= at <= old(self)@.lumps.len()
                    && final(self)@ == (DirectoryModel {
                    lumps: old(self)@.lumps.insert(
                        at,
                        added_lump(old(self)@.lumps, add.buffer@, add.name@),
                    ),
                    ..old(self)@
                }) && id@ == id_chars(added_lump(old(self)@.lumps, add.buffer@, add.name@)),
            r is Ok && distinct_ids(old(self)@.lumps) ==> distinct_ids(final(self)@.lumps),
            r is Err ==> *final(self) == *old(self),
            r matches Err(e) ==> if can_add(old(self)@.lumps, add.buffer@) {
                e is InvalidLumpName
            } else {
                e is Unknown
            },
    {
        let top = self.greatest_pos();
        if add.buffer.len() > i32::MAX as usize || top == i32::MAX {
            return Err(WadError::Unknown);
        }
        let at = match self.index_from_kind(add.kind) {
            Ok(at) => at,
            Err(e) => {
                return Err(e);
            },
        };
        let texts = self.id_bytes();
        let name = printable_bytes(add.name.as_slice());
        let mut metadata = LumpInfo::new(top + 1, add.buffer.len() as i32, add.name);
        metadata.id = match free_id(&texts, &add.name, &name, 0) {
            Some(id) => id,
            None => {
                return Err(WadError::InvalidLumpName);
            },
        };
        let id = metadata.id_ascii();
        let lump = AnyLump::Unknown(
            Unknown { data: LumpData { buffer: add.buffer.clone(), metadata, kind: LumpKind::Unknown } },
        );
        let ghost before = self@.lumps;
        let ghost added = added_lump(before, add.buffer@, add.name@);
        assert(lump@ == added);
        self.lumps.insert(at, lump);
        assert(self@.lumps =~= before.insert(at as int, added));
        proof {
            lemma_free_suffix(texts_in(before), add.name@, 0);
            if distinct_ids(before) {
                lemma_insert_distinct(before, at as int, added);
            }
        }
        Ok(id)
    }
}

} // verus!
