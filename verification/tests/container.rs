use tinywad::dir::LumpsDirectory;
use tinywad::error::WadError;
use tinywad::lump::{LumpAdd, LumpAddKind, LumpInfo, LumpKind, LumpState};
use tinywad::models::lump::Lump;
use tinywad::models::operation::WadOp;
use tinywad::output::WadOutput;
use tinywad::wad::{Wad, WadInfo, WadKind, WadOperationKind, DEFAULT_RE_NAME};

fn name_bytes(name: &str) -> [u8; 8] {
    let mut out = [0u8; 8];
    out[..name.len()].copy_from_slice(name.as_bytes());
    out
}

/// A container with the directory behind the payloads, as tools write it:
/// a lump without a payload has the position 0.
fn container_dir_last(magic: &[u8; 4], lumps: &[(&str, Vec<u8>)]) -> Vec<u8> {
    let mut out = Vec::new();
    out.extend_from_slice(magic);
    out.extend_from_slice(&(lumps.len() as i32).to_le_bytes());
    out.extend_from_slice(&0i32.to_le_bytes());
    let mut entries = Vec::new();
    for (name, payload) in lumps {
        let pos = if payload.is_empty() { 0 } else { out.len() as i32 };
        entries.push((pos, payload.len() as i32, name_bytes(name)));
        out.extend_from_slice(payload);
    }
    let dir_pos = out.len() as i32;
    out[8..12].copy_from_slice(&dir_pos.to_le_bytes());
    for (pos, size, name) in entries {
        out.extend_from_slice(&pos.to_le_bytes());
        out.extend_from_slice(&size.to_le_bytes());
        out.extend_from_slice(&name);
    }
    out
}

fn loaded(lumps: &[(&str, Vec<u8>)]) -> Wad {
    let mut wad = Wad::new();
    assert!(wad.load(container_dir_last(b"PWAD", lumps)).is_ok());
    wad
}

fn entry(buffer: &[u8], k: usize) -> (i32, i32, [u8; 8]) {
    let info = LumpInfo::from_bytes(&buffer[12 + 16 * k..12 + 16 * k + 16]);
    (info.pos, info.size, info.name)
}

fn triples(dir: &LumpsDirectory) -> Vec<(String, LumpKind, i32)> {
    dir.lumps.iter().map(|l| (l.info().id_ascii(), l.kind(), l.info().size)).collect()
}

#[test]
fn one_lump_container_is_parsed_and_rebuilt() {
    let mut buffer = Vec::new();
    buffer.extend_from_slice(b"PWAD");
    buffer.extend_from_slice(&1i32.to_le_bytes());
    buffer.extend_from_slice(&12i32.to_le_bytes());
    buffer.extend_from_slice(&28i32.to_le_bytes());
    buffer.extend_from_slice(&4i32.to_le_bytes());
    buffer.extend_from_slice(b"TEST\0\0\0\0");
    buffer.extend_from_slice(&[1, 2, 3, 4]);
    let mut wad = Wad::new();
    assert!(wad.load(buffer).is_ok());
    assert_eq!(wad.dir().lumps.len(), 1);
    assert_eq!(wad.dir().lumps[0].kind(), LumpKind::Unknown);
    assert_eq!(wad.dir().lumps[0].info().id_ascii(), "TEST");
    assert!(wad.lump("TEST").is_some());

    let out = wad.dest().unwrap();
    assert_eq!(out.len(), 32);
    let header = WadInfo::from_bytes(&out);
    assert_eq!(header.kind, WadKind::Pwad);
    assert_eq!(header.num_lumps, 1);
    assert_eq!(header.dir_pos, 12);
    assert_eq!(entry(&out, 0), (28, 4, *b"TEST\0\0\0\0"));
    assert_eq!(&out[28..], &[1, 2, 3, 4]);
}

#[test]
fn rebuild_moves_the_directory_behind_the_header() {
    let wad = loaded(&[("ONE", vec![1, 2, 3]), ("TWO", vec![4, 5]), ("THREE", vec![6])]);
    let out = wad.dest().unwrap();
    assert_eq!(out.len(), 12 + 3 * 16 + 6);
    assert_eq!(&out[..4], b"PWAD");
    assert_eq!(entry(&out, 0), (60, 3, name_bytes("ONE")));
    assert_eq!(entry(&out, 1), (63, 2, name_bytes("TWO")));
    assert_eq!(entry(&out, 2), (65, 1, name_bytes("THREE")));
    assert_eq!(&out[60..], &[1, 2, 3, 4, 5, 6]);
}

#[test]
fn rebuild_leaves_deleted_lumps_out() {
    let mut wad = loaded(&[("ONE", vec![1, 2, 3]), ("TWO", vec![4, 5]), ("THREE", vec![6])]);
    wad.remove_by_name("^TWO$").unwrap();
    let out = wad.dest().unwrap();
    assert_eq!(out.len(), 12 + 2 * 16 + 4);
    assert_eq!(WadInfo::from_bytes(&out).num_lumps, 2);
    assert_eq!(entry(&out, 0), (44, 3, name_bytes("ONE")));
    assert_eq!(entry(&out, 1), (47, 1, name_bytes("THREE")));
    assert_eq!(&out[44..], &[1, 2, 3, 6]);
}

#[test]
fn rebuild_of_nothing_is_a_header() {
    let wad = loaded(&[]);
    let out = wad.dest().unwrap();
    assert_eq!(out, [b"PWAD".to_vec(), vec![0, 0, 0, 0], vec![12, 0, 0, 0]].concat());
}

#[test]
fn virtual_lumps_are_rebuilt_with_position_zero() {
    let wad = loaded(&[
        ("F_START", vec![]),
        ("FLOOR", vec![7; 8]),
        ("F_END", vec![]),
        ("S1_START", vec![]),
        ("P_END", vec![]),
        ("FF_START", vec![]),
        ("PLAIN", vec![9]),
    ]);
    let out = wad.dest().unwrap();
    let base = 12 + 7 * 16;
    assert_eq!(entry(&out, 0).0, 0);
    assert_eq!(entry(&out, 1).0, base);
    assert_eq!(entry(&out, 2).0, 0);
    assert_eq!(entry(&out, 3).0, 0);
    assert_eq!(entry(&out, 4).0, 0);
    assert_eq!(entry(&out, 5).0, 0);
    assert_eq!(entry(&out, 6).0, base + 8);
}

#[test]
fn marker_at_the_position_of_a_lump_shares_its_offset() {
    let mut buffer = Vec::new();
    buffer.extend_from_slice(b"PWAD");
    buffer.extend_from_slice(&3i32.to_le_bytes());
    buffer.extend_from_slice(&12i32.to_le_bytes());
    for (pos, size, name) in [(60, 0, "F_START"), (60, 2, "FLOOR"), (62, 1, "NEXT")] {
        buffer.extend_from_slice(&(pos as i32).to_le_bytes());
        buffer.extend_from_slice(&(size as i32).to_le_bytes());
        buffer.extend_from_slice(&name_bytes(name));
    }
    buffer.extend_from_slice(&[1, 2, 3]);
    let mut wad = Wad::new();
    assert!(wad.load(buffer).is_ok());
    let out = wad.dest().unwrap();
    assert_eq!(entry(&out, 0).0, 0);
    assert_eq!(entry(&out, 1).0, 60);
    assert_eq!(entry(&out, 2).0, 60);
    assert_eq!(out.len(), 12 + 48 + 3);
}

#[test]
fn lumps_at_one_position_share_their_offset() {
    let payload = vec![1, 2, 3, 4];
    let mut buffer = Vec::new();
    buffer.extend_from_slice(b"IWAD");
    buffer.extend_from_slice(&3i32.to_le_bytes());
    buffer.extend_from_slice(&12i32.to_le_bytes());
    for (pos, size, name) in [(60, 4, "A"), (60, 4, "B"), (62, 2, "C")] {
        buffer.extend_from_slice(&(pos as i32).to_le_bytes());
        buffer.extend_from_slice(&(size as i32).to_le_bytes());
        buffer.extend_from_slice(&name_bytes(name));
    }
    buffer.extend_from_slice(&payload);
    let mut wad = Wad::new();
    assert!(wad.load(buffer).is_ok());
    let out = wad.dest().unwrap();
    assert_eq!(&out[..4], b"IWAD");
    assert_eq!(entry(&out, 0).0, 60);
    assert_eq!(entry(&out, 1).0, 60);
    assert_eq!(entry(&out, 2).0, 64);
    assert_eq!(out.len(), 12 + 48 + 4 + 4 + 2);
}

#[test]
fn rebuilt_container_parses_to_the_same_lumps() {
    let wad = loaded(&[
        ("PLAYPAL", vec![3; 768]),
        ("F_START", vec![]),
        ("FLOOR", vec![1; 4096]),
        ("FLOOR", vec![2; 4096]),
        ("F_END", vec![]),
        ("D_E1M1", vec![1, 2, 3]),
        ("TITLEPIC", vec![0; 9]),
        ("S3_START", vec![]),
        ("SPR", vec![1]),
        ("S3_END", vec![]),
        ("THINGS", vec![5; 10]),
        ("THINGS", vec![]),
    ]);
    let out = wad.dest().unwrap();
    let mut again = Wad::new();
    assert!(again.load(out).is_ok());
    assert_eq!(triples(again.dir()), triples(wad.dir()));
    assert_eq!(again.info().num_lumps, 12);
    assert_eq!(again.info().dir_pos, 12);
    assert_eq!(triples(wad.dir())[3], ("FLOOR1".to_string(), LumpKind::Flat, 4096));
}

#[test]
fn builder_can_be_used_on_a_directory() {
    let wad = loaded(&[("ONE", vec![1, 2, 3])]);
    let mut output = WadOutput::new(WadInfo { kind: WadKind::Iwad, num_lumps: 77, dir_pos: 99 }, wad.dir());
    assert!(output.buffer().is_empty());
    assert!(output.build().is_ok());
    let out = output.buffer();
    assert_eq!(&out[..4], b"IWAD");
    assert_eq!(WadInfo::from_bytes(&out).num_lumps, 1);
    assert_eq!(WadInfo::from_bytes(&out).dir_pos, 12);
    assert!(output.build().is_ok());
    assert_eq!(output.buffer(), out);
}

#[test]
fn rebuild_fails_where_an_offset_does_not_fit() {
    let mut dir = LumpsDirectory::new();
    let payload = vec![1];
    dir.insert(LumpAdd::new(LumpAddKind::Back, &payload, "A")).unwrap();
    let mut data = dir.lumps[0].data();
    data.metadata.size = i32::MAX;
    dir.lumps[0].set_data(data);
    let mut output = WadOutput::new(WadInfo::default(), &dir);
    assert!(matches!(output.build(), Err(WadError::Unknown)));
    assert!(output.buffer().is_empty());
}

#[test]
fn load_fails_on_a_short_buffer() {
    let mut wad = loaded(&[("KEEP", vec![1])]);
    assert!(matches!(wad.load(vec![b'P', b'W', b'A', b'D', 0, 0, 0, 0, 12, 0, 0]), Err(WadError::Load(_))));
    assert_eq!(wad.dir().lumps.len(), 1);
    assert_eq!(wad.info().num_lumps, 1);
}

#[test]
fn load_fails_on_an_unknown_magic() {
    let mut wad = loaded(&[("KEEP", vec![1])]);
    let buffer = container_dir_last(b"ZWAD", &[("ONE", vec![1])]);
    assert!(matches!(wad.load(buffer), Err(WadError::Type(_))));
    assert_eq!(wad.dir().lumps.len(), 1);
    assert_eq!(wad.info().kind, WadKind::Pwad);
}

#[test]
fn load_fails_where_the_directory_lies_outside() {
    let mut wad = Wad::new();
    let mut buffer = container_dir_last(b"PWAD", &[("ONE", vec![1])]);
    buffer.truncate(buffer.len() - 1);
    assert!(matches!(wad.load(buffer), Err(WadError::Load(_))));
    assert!(wad.dir().lumps.is_empty());
}

#[test]
fn reload_parses_the_source_again() {
    let mut playpal = vec![0u8; 2 * 768];
    playpal[768 + 3] = 200;
    playpal[3] = 100;
    let mut wad = loaded(&[("PLAYPAL", playpal), ("F_START", vec![]), ("FL", vec![1; 4096])]);
    let first = match &wad.dir().lumps[2] {
        tinywad::lumps::AnyLump::Flat(f) => f.pixels().clone(),
        _ => unreachable!(),
    };
    assert_eq!(&first[..4], &[100, 0, 0, 255]);
    wad.set_palette(1);
    assert!(wad.reload().is_ok());
    let second = match &wad.dir().lumps[2] {
        tinywad::lumps::AnyLump::Flat(f) => f.pixels().clone(),
        _ => unreachable!(),
    };
    assert_eq!(&second[..4], &[200, 0, 0, 255]);
}

fn flat_pixels(wad: &Wad, k: usize) -> Vec<u8> {
    match &wad.dir().lumps[k] {
        tinywad::lumps::AnyLump::Flat(f) => f.pixels().clone(),
        _ => unreachable!(),
    }
}

#[test]
fn reload_without_another_palette_keeps_the_lumps() {
    let mut playpal = vec![0u8; 768];
    playpal[6] = 50;
    let mut wad = loaded(&[
        ("PLAYPAL", playpal),
        ("F_START", vec![]),
        ("FL", vec![2; 4096]),
        ("F_END", vec![]),
        ("D_X", vec![1]),
    ]);
    let lumps = triples(wad.dir());
    let drawn = flat_pixels(&wad, 2);
    assert_eq!(&drawn[..4], &[50, 0, 0, 255]);
    assert_eq!(wad.dir().undecoded, vec![4]);
    assert!(wad.reload().is_ok());
    assert_eq!(triples(wad.dir()), lumps);
    assert_eq!(flat_pixels(&wad, 2), drawn);
    assert_eq!(wad.dir().undecoded, vec![4]);
}

#[test]
fn flat_before_the_palette_takes_the_palettes_in_force_before() {
    let mut playpal = vec![0u8; 768];
    playpal[6] = 50;
    let mut wad = loaded(&[("F_START", vec![]), ("FL", vec![2; 4096]), ("PLAYPAL", playpal)]);
    assert_eq!(wad.dir().undecoded, vec![1]);
    assert!(flat_pixels(&wad, 1).is_empty());
    assert!(wad.reload().is_ok());
    assert!(wad.dir().undecoded.is_empty());
    assert_eq!(&flat_pixels(&wad, 1)[..4], &[50, 0, 0, 255]);
}

#[test]
fn remove_deletes_the_selected_ids() {
    let mut wad = loaded(&[("FLOOR", vec![1]), ("WALL", vec![2]), ("FLOOR", vec![3])]);
    wad.select("^FLOOR1");
    wad.remove();
    let states: Vec<LumpState> = wad.dir().lumps.iter().map(|l| l.info().state).collect();
    assert_eq!(states, vec![LumpState::Default, LumpState::Default, LumpState::Deleted]);
    assert_eq!(wad.dir().alive_count(), 2);
}

#[test]
fn default_selection_selects_everything() {
    let mut wad = loaded(&[("FLOOR", vec![1]), ("WALL", vec![2])]);
    assert_eq!(DEFAULT_RE_NAME, ".*");
    assert_eq!(wad.selected_names(), vec![true, true]);
    wad.remove();
    assert_eq!(wad.dir().alive_count(), 0);
    assert_eq!(wad.dest().unwrap().len(), 12);
}

#[test]
fn selection_that_does_not_compile_selects_everything() {
    let mut wad = loaded(&[("FLOOR", vec![1]), ("WALL", vec![2])]);
    wad.select("(");
    assert_eq!(wad.selected_names(), vec![true, true]);
    assert_eq!(wad.selected_ids(), vec![true, true]);
    wad.select("^W");
    assert_eq!(wad.selected_names(), vec![false, true]);
}

#[test]
fn remove_by_name_with_a_bad_pattern_fails() {
    let mut wad = loaded(&[("FLOOR", vec![1])]);
    assert!(matches!(wad.remove_by_name("*"), Err(WadError::InvalidRegex)));
    assert_eq!(wad.dir().alive_count(), 1);
}

#[test]
fn update_raw_replaces_the_payload_of_the_selected_names() {
    let mut wad = loaded(&[("FLOOR", vec![1]), ("WALL", vec![2]), ("FLOOR", vec![3])]);
    wad.select("^FLOOR$");
    wad.update_lumps_raw(&vec![8, 9]).unwrap();
    let lumps = &wad.dir().lumps;
    assert_eq!(lumps[0].payload(), &vec![8, 9]);
    assert_eq!(lumps[1].payload(), &vec![2]);
    assert_eq!(lumps[2].payload(), &vec![8, 9]);
    assert_eq!(lumps[0].info().size, 2);
    assert_eq!(lumps[0].info().state, LumpState::Updated);
    assert_eq!(lumps[1].info().state, LumpState::Default);
    let out = wad.dest().unwrap();
    assert_eq!(out.len(), 12 + 48 + 2 + 1 + 2);
}

#[test]
fn update_from_a_file_is_not_supported() {
    let mut wad = loaded(&[("FLOOR", vec![1])]);
    assert!(matches!(wad.update_lumps(&vec![1, 2, 3]), Err(WadError::Unknown)));
    assert_eq!(wad.dir().lumps[0].payload(), &vec![1]);
}

#[test]
fn added_lump_is_rebuilt_with_the_others() {
    let mut wad = loaded(&[("ONE", vec![1])]);
    let payload = vec![5, 6];
    assert_eq!(wad.info().num_lumps, 1);
    let id = wad.add_lump_raw(LumpAdd::new(LumpAddKind::Front, &payload, "ZERO")).unwrap();
    assert_eq!(id, "ZERO");
    assert_eq!(wad.info().num_lumps, 2);
    assert_eq!(wad.dir().lumps.len(), 2);
    let out = wad.dest().unwrap();
    assert_eq!(WadInfo::from_bytes(&out).num_lumps, 2);
    assert_eq!(entry(&out, 0), (44, 2, name_bytes("ZERO")));
    assert_eq!(entry(&out, 1), (46, 1, name_bytes("ONE")));
    assert_eq!(&out[44..], &[5, 6, 1]);
    let add = LumpAdd::new(LumpAddKind::After("NONE"), &payload, "X");
    assert!(matches!(wad.add_lump_raw(add), Err(WadError::InvalidLumpName)));
    assert_eq!(wad.info().num_lumps, 2);
    let id = wad.add_lump_raw(LumpAdd::new(LumpAddKind::After("ZERO"), &payload, "MID")).unwrap();
    assert_eq!(id, "MID");
    let names: Vec<String> = wad.dir().lumps.iter().map(|l| l.info().name_ascii()).collect();
    assert_eq!(names, vec!["ZERO".to_string(), "MID".to_string(), "ONE".to_string()]);
    assert_eq!(wad.info().num_lumps, 3);
}

#[test]
fn header_counts_the_lumps_alive() {
    let mut wad = loaded(&[("FLOOR", vec![1]), ("WALL", vec![2]), ("FLOOR", vec![3])]);
    let source = wad.dest().unwrap();
    assert_eq!(wad.info().num_lumps, 3);
    wad.remove_by_name("^FLOOR").unwrap();
    assert_eq!(wad.info().num_lumps, 1);
    wad.remove_by_name("^FLOOR").unwrap();
    assert_eq!(wad.info().num_lumps, 1);
    assert_eq!(wad.dir().alive_count(), 1);
    assert!(matches!(wad.remove_by_name("("), Err(WadError::InvalidRegex)));
    assert_eq!(wad.info().num_lumps, 1);
    assert_eq!(wad.info().kind, WadKind::Pwad);
    wad.select("WALL");
    wad.remove();
    assert_eq!(wad.info().num_lumps, 0);
    assert!(wad.reload().is_ok());
    assert_eq!(wad.info().num_lumps, 3);
    assert_eq!(wad.dest().unwrap(), source);
}

#[test]
fn load_fails_where_no_id_is_left() {
    let mut lumps = Vec::new();
    for _ in 0..10001 {
        lumps.push(("ABCDEFGH", vec![]));
    }
    let mut wad = loaded(&[("KEEP", vec![1])]);
    assert!(matches!(wad.load(container_dir_last(b"PWAD", &lumps)), Err(WadError::InvalidLumpName)));
    assert_eq!(wad.dir().lumps.len(), 1);
}

#[test]
fn set_kind_changes_the_magic_of_the_rebuilt_container() {
    let mut wad = loaded(&[("ONE", vec![1])]);
    wad.set_kind(WadKind::Iwad);
    assert_eq!(&wad.dest().unwrap()[..4], b"IWAD");
}

#[test]
fn header_and_kind_are_written_as_they_are_read() {
    let info = WadInfo { kind: WadKind::Iwad, num_lumps: -2, dir_pos: 0x01020304 };
    let bytes = info.to_bytes();
    assert_eq!(bytes, vec![0x49, 0x57, 0x41, 0x44, 0xfe, 0xff, 0xff, 0xff, 4, 3, 2, 1]);
    let back = WadInfo::from_bytes(&bytes);
    assert_eq!((back.kind, back.num_lumps, back.dir_pos), (WadKind::Iwad, -2, 0x01020304));
    assert_eq!(WadKind::from_bytes(b"PWAD"), WadKind::Pwad);
    assert_eq!(WadKind::from_bytes(b"PWA"), WadKind::Unknown);
    assert_eq!(WadKind::from_bytes(b"PWADX"), WadKind::Unknown);
    assert_eq!(WadKind::Unknown.to_bytes(), vec![0, 0, 0, 0]);
    assert_eq!(WadKind::from(&b"IWAD"[..]), WadKind::Iwad);
    assert_eq!(WadKind::from(&b"iwad"[..]), WadKind::Unknown);
}

#[test]
fn operation_is_named_by_its_selector() {
    assert_eq!(WadOperationKind::from_str("dump").unwrap(), WadOperationKind::Dump);
    assert_eq!(WadOperationKind::from_str("save").unwrap(), WadOperationKind::Save);
    assert_eq!(WadOperationKind::from_str("save_as").unwrap(), WadOperationKind::SaveAs);
    assert!(matches!(WadOperationKind::from_str("Dump"), Err(WadError::InvalidOperation)));
    assert!(matches!(WadOperationKind::from_str(""), Err(WadError::InvalidOperation)));
    assert_eq!(WadOperationKind::default(), WadOperationKind::Dump);
}

#[test]
fn errors_have_their_messages() {
    assert_eq!(WadError::Read("gone".to_string()).message(), "Unable to read this file: gone");
    assert_eq!(WadError::Type("no").message(), "Wrong WAD file type: no");
    assert_eq!(WadError::Load("short").message(), "Unable to load the program: short");
    assert_eq!(WadError::InvalidLumpName.message(), "Invalid lump name");
    assert_eq!(WadError::InvalidRegex.message(), "Invalid Regex");
    assert_eq!(WadError::InvalidOperation.message(), "Invalid operation");
    assert_eq!(WadError::Unknown.message(), "Unable to use this API");
}
