use tinywad::dir::LumpsDirectory;
use tinywad::error::WadError;
use tinywad::lump::{LumpAdd, LumpAddKind, LumpKind, LumpState};
use tinywad::lumps::AnyLump;
use tinywad::models::lump::Lump;
use tinywad::wad::{WadInfo, WadKind};

fn name8(name: &str) -> [u8; 8] {
    let mut out = [0u8; 8];
    out[..name.len()].copy_from_slice(name.as_bytes());
    out
}

/// A container with the directory behind the header and the payloads behind
/// the directory.
fn container(magic: &[u8; 4], lumps: &[(&str, Vec<u8>)]) -> Vec<u8> {
    let mut out = Vec::new();
    out.extend_from_slice(magic);
    out.extend_from_slice(&(lumps.len() as i32).to_le_bytes());
    out.extend_from_slice(&12i32.to_le_bytes());
    let mut pos = 12 + 16 * lumps.len() as i32;
    for (name, payload) in lumps {
        out.extend_from_slice(&pos.to_le_bytes());
        out.extend_from_slice(&(payload.len() as i32).to_le_bytes());
        out.extend_from_slice(&name8(name));
        pos += payload.len() as i32;
    }
    for (_, payload) in lumps {
        out.extend_from_slice(payload);
    }
    out
}

fn parsed(lumps: &[(&str, Vec<u8>)]) -> LumpsDirectory {
    let buffer = container(b"PWAD", lumps);
    let info = WadInfo::from_bytes(&buffer);
    let mut dir = LumpsDirectory::new();
    assert!(dir.parse(info, &buffer).is_ok());
    dir
}

fn kinds(dir: &LumpsDirectory) -> Vec<LumpKind> {
    dir.lumps.iter().map(|l| l.kind()).collect()
}

fn ids(dir: &LumpsDirectory) -> Vec<String> {
    dir.lumps.iter().map(|l| l.info().id_ascii()).collect()
}

#[test]
fn lump_between_flat_markers_is_a_flat() {
    let dir = parsed(&[("F_START", vec![]), ("LUMPA", vec![0; 100]), ("F_END", vec![])]);
    assert_eq!(kinds(&dir), vec![LumpKind::Unknown, LumpKind::Flat, LumpKind::Unknown]);
    assert!(matches!(dir.lumps[1], AnyLump::Flat(_)));
}

#[test]
fn lump_before_any_marker_is_unknown() {
    let dir = parsed(&[("LUMPA", vec![0; 100]), ("F_START", vec![]), ("F_END", vec![])]);
    assert_eq!(kinds(&dir), vec![LumpKind::Unknown, LumpKind::Unknown, LumpKind::Unknown]);
    assert!(matches!(dir.lumps[0], AnyLump::Unknown(_)));
}

#[test]
fn lump_behind_the_end_marker_is_unknown() {
    let dir = parsed(&[
        ("F_START", vec![]),
        ("IN", vec![1]),
        ("F_END", vec![]),
        ("OUT", vec![1]),
    ]);
    assert_eq!(
        kinds(&dir),
        vec![LumpKind::Unknown, LumpKind::Flat, LumpKind::Unknown, LumpKind::Unknown]
    );
}

#[test]
fn sprite_markers_open_a_patch_namespace() {
    let dir = parsed(&[
        ("S_START", vec![]),
        ("A", vec![1]),
        ("S_END", vec![]),
        ("SS_START", vec![]),
        ("B", vec![1]),
        ("SS_END", vec![]),
        ("C", vec![1]),
    ]);
    assert_eq!(
        kinds(&dir),
        vec![
            LumpKind::Unknown,
            LumpKind::Patch,
            LumpKind::Unknown,
            LumpKind::Unknown,
            LumpKind::Patch,
            LumpKind::Unknown,
            LumpKind::Unknown
        ]
    );
}

#[test]
fn numbered_markers_push_and_pop() {
    let dir = parsed(&[
        ("F1_START", vec![]),
        ("A", vec![1]),
        ("S2_START", vec![]),
        ("B", vec![1]),
        ("S2_END", vec![]),
        ("C", vec![1]),
        ("F1_END", vec![]),
        ("D", vec![1]),
    ]);
    assert_eq!(
        kinds(&dir),
        vec![
            LumpKind::Unknown,
            LumpKind::Flat,
            LumpKind::Unknown,
            LumpKind::Patch,
            LumpKind::Unknown,
            LumpKind::Flat,
            LumpKind::Unknown,
            LumpKind::Unknown
        ]
    );
}

#[test]
fn numbered_marker_with_a_payload_is_unknown() {
    let dir = parsed(&[("F1_START", vec![7; 3]), ("A", vec![1])]);
    assert_eq!(kinds(&dir), vec![LumpKind::Unknown, LumpKind::Flat]);
}

#[test]
fn popping_an_empty_stack_is_no_error() {
    let dir = parsed(&[("F_END", vec![]), ("S_END", vec![]), ("A", vec![1])]);
    assert_eq!(kinds(&dir), vec![LumpKind::Unknown, LumpKind::Unknown, LumpKind::Unknown]);
}

#[test]
fn empty_lump_in_a_namespace_is_unknown() {
    let dir = parsed(&[("F_START", vec![]), ("EMPTY", vec![]), ("F_END", vec![])]);
    assert_eq!(kinds(&dir)[1], LumpKind::Unknown);
}

#[test]
fn special_names_do_not_look_at_the_stack() {
    let dir = parsed(&[
        ("TITLEPIC", vec![1, 2]),
        ("D_E1M1", vec![1, 2]),
        ("PLAYPAL", vec![]),
        ("F_START", vec![]),
        ("TITLEPIC", vec![1, 2]),
        ("D_INTRO", vec![1, 2]),
    ]);
    assert_eq!(
        kinds(&dir),
        vec![
            LumpKind::Patch,
            LumpKind::Sound,
            LumpKind::Palette,
            LumpKind::Unknown,
            LumpKind::Patch,
            LumpKind::Sound
        ]
    );
    assert!(matches!(dir.lumps[0], AnyLump::Patch(_)));
    assert!(matches!(dir.lumps[1], AnyLump::Music(_)));
    assert!(matches!(dir.lumps[2], AnyLump::Palette(_)));
}

#[test]
fn lower_case_music_prefix_is_not_music() {
    let dir = parsed(&[("d_e1m1", vec![1, 2])]);
    assert_eq!(kinds(&dir), vec![LumpKind::Unknown]);
}

#[test]
fn second_lump_of_a_name_takes_a_number() {
    let dir = parsed(&[("FLOOR", vec![1]), ("FLOOR", vec![2])]);
    assert_eq!(ids(&dir), vec!["FLOOR".to_string(), "FLOOR1".to_string()]);
    assert_eq!(dir.index("FLOOR"), Some(0));
    assert_eq!(dir.index("FLOOR1"), Some(1));
    assert_eq!(dir.lump("FLOOR").unwrap().payload(), &vec![1]);
    assert_eq!(dir.lump("FLOOR1").unwrap().payload(), &vec![2]);
    assert!(dir.lump("FLOOR2").is_none());
}

#[test]
fn numbers_count_the_occurrences_before() {
    let mut lumps = Vec::new();
    for i in 0..12u8 {
        lumps.push(("ABCDEFGH", vec![i]));
    }
    let dir = parsed(&lumps);
    let ids = ids(&dir);
    assert_eq!(ids[0], "ABCDEFGH");
    assert_eq!(ids[1], "ABCDEFGH1");
    assert_eq!(ids[9], "ABCDEFGH9");
    assert_eq!(ids[10], "ABCDEFGH10");
    assert_eq!(ids[11], "ABCDEFGH11");
    assert_eq!(dir.index("ABCDEFGH10"), Some(10));
}

#[test]
fn id_of_a_lump_is_no_id_of_another() {
    let dir = parsed(&[("FLOOR", vec![7]), ("FLOOR", vec![8]), ("FLOOR1", vec![9])]);
    assert_eq!(ids(&dir), vec!["FLOOR".to_string(), "FLOOR1".to_string(), "FLOOR11".to_string()]);
    for (k, id) in ids(&dir).iter().enumerate() {
        assert_eq!(dir.index(id), Some(k));
    }
    assert_eq!(dir.lump("FLOOR11").unwrap().payload(), &vec![9]);
}

#[test]
fn name_taken_as_an_id_sends_the_suffix_on() {
    let dir = parsed(&[("A1", vec![]), ("A", vec![]), ("A", vec![]), ("A", vec![]), ("A2", vec![])]);
    assert_eq!(
        ids(&dir),
        vec!["A1".to_string(), "A".to_string(), "A2".to_string(), "A3".to_string(), "A21".to_string()]
    );
    for (k, id) in ids(&dir).iter().enumerate() {
        assert_eq!(dir.index(id), Some(k));
    }
}

#[test]
fn parse_fails_where_no_id_is_left() {
    let mut lumps = Vec::new();
    for _ in 0..10000 {
        lumps.push(("ABCDEFGH", vec![]));
    }
    let dir = parsed(&lumps);
    assert_eq!(dir.lumps[9999].info().id_ascii(), "ABCDEFGH9999");
    lumps.push(("ABCDEFGH", vec![]));
    let buffer = container(b"PWAD", &lumps);
    let info = WadInfo::from_bytes(&buffer);
    let mut kept = parsed(&[("KEEP", vec![1])]);
    assert!(matches!(kept.parse(info, &buffer), Err(WadError::InvalidLumpName)));
    assert_eq!(ids(&kept), vec!["KEEP".to_string()]);
    assert!(LumpsDirectory::fits(info, &buffer));
}

#[test]
fn id_is_the_label_written_over_the_name() {
    let dir = parsed(&[("A B", vec![1])]);
    assert_eq!(dir.lumps[0].info().name_ascii(), "AB");
    assert_eq!(&dir.lumps[0].info().id, b"ABB\0\0\0\0\0\0\0\0\0");
    assert_eq!(ids(&dir), vec!["ABB".to_string()]);
}

#[test]
fn parse_keeps_positions_sizes_and_payloads() {
    let dir = parsed(&[("ONE", vec![1, 2, 3]), ("TWO", vec![4, 5])]);
    let one = dir.lumps[0].data();
    let two = dir.lumps[1].data();
    assert_eq!((one.metadata.pos, one.metadata.size), (44, 3));
    assert_eq!((two.metadata.pos, two.metadata.size), (47, 2));
    assert_eq!(one.buffer, vec![1, 2, 3]);
    assert_eq!(two.buffer, vec![4, 5]);
    assert_eq!(one.metadata.state, LumpState::Default);
    assert_eq!(&one.metadata.name, b"ONE\0\0\0\0\0");
}

#[test]
fn parse_fails_where_the_table_lies_outside() {
    let mut buffer = container(b"PWAD", &[("ONE", vec![1, 2, 3])]);
    buffer[4] = 2;
    let info = WadInfo::from_bytes(&buffer);
    let mut dir = parsed(&[("KEEP", vec![9])]);
    assert!(matches!(dir.parse(info, &buffer), Err(WadError::Load(_))));
    assert_eq!(ids(&dir), vec!["KEEP".to_string()]);
}

#[test]
fn parse_fails_where_a_payload_lies_outside() {
    let mut buffer = container(b"PWAD", &[("ONE", vec![1, 2, 3])]);
    buffer[16] = 4;
    let info = WadInfo::from_bytes(&buffer);
    let mut dir = LumpsDirectory::new();
    assert!(matches!(dir.parse(info, &buffer), Err(WadError::Load(_))));
    assert!(dir.lumps.is_empty());
}

#[test]
fn parse_fails_on_negative_numbers() {
    let buffer = container(b"PWAD", &[("ONE", vec![1, 2, 3])]);
    let mut dir = LumpsDirectory::new();
    let info = WadInfo { kind: WadKind::Pwad, num_lumps: -1, dir_pos: 12 };
    assert!(matches!(dir.parse(info, &buffer), Err(WadError::Load(_))));
    let info = WadInfo { kind: WadKind::Pwad, num_lumps: 1, dir_pos: -12 };
    assert!(matches!(dir.parse(info, &buffer), Err(WadError::Load(_))));
}

#[test]
fn undecodable_lump_does_not_stop_the_parse() {
    let dir = parsed(&[
        ("F_START", vec![]),
        ("SHORT", vec![0; 10]),
        ("F_END", vec![]),
        ("D_BAD", vec![1, 2, 3]),
        ("LAST", vec![1]),
    ]);
    assert_eq!(dir.lumps.len(), 5);
    assert_eq!(dir.undecoded, vec![1, 3]);
}

#[test]
fn marker_stack_does_not_leak_into_the_next_parse() {
    let mut dir = parsed(&[("F_START", vec![]), ("A", vec![1])]);
    assert_eq!(kinds(&dir)[1], LumpKind::Flat);
    let buffer = container(b"PWAD", &[("B", vec![1])]);
    let info = WadInfo::from_bytes(&buffer);
    assert!(dir.parse(info, &buffer).is_ok());
    assert_eq!(kinds(&dir), vec![LumpKind::Unknown]);
}

#[test]
fn tombstone_keeps_every_lump_in_its_place() {
    let mut dir = parsed(&[("FLOOR", vec![1]), ("WALL", vec![2]), ("FLOOR", vec![3])]);
    assert_eq!(dir.alive_count(), 3);
    assert_eq!(dir.remove_lumps("^FLOOR").unwrap(), 2);
    assert_eq!(dir.alive_count(), 1);
    assert_eq!(dir.lumps.len(), 3);
    assert_eq!(ids(&dir), vec!["FLOOR".to_string(), "WALL".to_string(), "FLOOR1".to_string()]);
    let states: Vec<LumpState> = dir.lumps.iter().map(|l| l.info().state).collect();
    assert_eq!(states, vec![LumpState::Deleted, LumpState::Default, LumpState::Deleted]);
    assert_eq!(dir.index("WALL"), Some(1));
}

#[test]
fn tombstone_matches_the_id_not_the_name() {
    let mut dir = parsed(&[("FLOOR", vec![1]), ("FLOOR", vec![2])]);
    assert_eq!(dir.remove_lumps("^FLOOR1$").unwrap(), 1);
    let states: Vec<LumpState> = dir.lumps.iter().map(|l| l.info().state).collect();
    assert_eq!(states, vec![LumpState::Default, LumpState::Deleted]);
}

#[test]
fn tombstone_counts_matches_already_deleted() {
    let mut dir = parsed(&[("FLOOR", vec![1]), ("WALL", vec![2])]);
    assert_eq!(dir.remove_lumps("FLOOR").unwrap(), 1);
    assert_eq!(dir.remove_lumps("FLOOR").unwrap(), 1);
    assert_eq!(dir.alive_count(), 1);
}

#[test]
fn tombstone_with_a_bad_pattern_changes_nothing() {
    let mut dir = parsed(&[("FLOOR", vec![1])]);
    assert!(matches!(dir.remove_lumps("FLOOR("), Err(WadError::InvalidRegex)));
    assert_eq!(dir.alive_count(), 1);
}

#[test]
fn indexes_lists_the_matching_ids_in_order() {
    let dir = parsed(&[("A1", vec![]), ("B", vec![]), ("A2", vec![]), ("A1", vec![])]);
    assert_eq!(dir.indexes("^A").unwrap(), vec![0, 2, 3]);
    assert_eq!(dir.indexes("^A11$").unwrap(), vec![3]);
    assert_eq!(dir.indexes("Z").unwrap(), Vec::<usize>::new());
    assert_eq!(dir.indexes(".*").unwrap(), vec![0, 1, 2, 3]);
    assert!(matches!(dir.indexes("["), Err(WadError::InvalidRegex)));
}

#[test]
fn indexes_where_lists_the_marked() {
    let dir = parsed(&[("A", vec![]), ("B", vec![]), ("C", vec![])]);
    assert_eq!(dir.indexes_where(&vec![true, false, true]), vec![0, 2]);
    assert_eq!(dir.indexes_where(&vec![true]), vec![0]);
    assert_eq!(dir.indexes_where(&vec![false, true, true, true, true]), vec![1, 2]);
}

#[test]
fn match_names_looks_at_the_name() {
    let dir = parsed(&[("FLOOR", vec![]), ("FLOOR", vec![])]);
    assert_eq!(dir.match_names("^FLOOR$").unwrap(), vec![true, true]);
    assert_eq!(dir.match_ids("^FLOOR$").unwrap(), vec![true, false]);
}

#[test]
fn callback_visits_the_matching_names_in_order() {
    let dir = parsed(&[("A1", vec![]), ("B", vec![]), ("A2", vec![])]);
    let seen = dir.callback_lumps("^A", |l| l.info().name_ascii()).unwrap();
    assert_eq!(seen, vec!["A1".to_string(), "A2".to_string()]);
    let sizes = dir.callback_where(&vec![false, true, true], |l| l.info().size);
    assert_eq!(sizes, vec![0, 0]);
    assert!(matches!(dir.callback_lumps("(", |l| l.kind()), Err(WadError::InvalidRegex)));
}

#[test]
fn callback_mut_replaces_the_data_of_the_matching() {
    let mut dir = parsed(&[("A1", vec![1]), ("B", vec![2]), ("A2", vec![3])]);
    dir.callback_lumps_mut("^A", |mut d| {
        d.buffer = vec![9, 9];
        d.metadata.size = 2;
        d
    })
    .unwrap();
    let buffers: Vec<Vec<u8>> = dir.lumps.iter().map(|l| l.payload().clone()).collect();
    assert_eq!(buffers, vec![vec![9, 9], vec![2], vec![9, 9]]);
    assert_eq!(dir.lumps[0].info().size, 2);
    assert_eq!(dir.lumps[1].info().size, 1);
}

#[test]
fn set_palette_counts_around_thirteen() {
    let mut dir = LumpsDirectory::new();
    dir.set_palette(14);
    let mut playpal = Vec::new();
    for p in 0..2u8 {
        for c in 0..256u32 {
            playpal.extend_from_slice(&[p, c as u8, 0]);
        }
    }
    let buffer = container(b"PWAD", &[("PLAYPAL", playpal)]);
    let info = WadInfo::from_bytes(&buffer);
    assert!(dir.parse(info, &buffer).is_ok());
    let selected = dir.pal.palette().unwrap();
    assert_eq!(selected[5].rgba(), (1, 5, 0, 255));
}

#[test]
fn insert_at_the_back_takes_a_new_position() {
    let mut dir = parsed(&[("ONE", vec![1, 2, 3]), ("TWO", vec![4, 5])]);
    let payload = vec![7, 8, 9, 10];
    let id = dir.insert(LumpAdd::new(LumpAddKind::Back, &payload, "NEW")).unwrap();
    assert_eq!(id, "NEW");
    assert_eq!(ids(&dir), vec!["ONE".to_string(), "TWO".to_string(), "NEW".to_string()]);
    let new = dir.lumps[2].data();
    assert_eq!(new.metadata.pos, 48);
    assert_eq!(new.metadata.size, 4);
    assert_eq!(new.buffer, payload);
    assert_eq!(new.kind, LumpKind::Unknown);
    assert_eq!(new.metadata.state, LumpState::Default);
}

#[test]
fn insert_into_an_empty_directory_takes_position_two() {
    let mut dir = LumpsDirectory::new();
    let payload = vec![1];
    dir.insert(LumpAdd::new(LumpAddKind::Front, &payload, "FIRST")).unwrap();
    assert_eq!(dir.lumps[0].info().pos, 2);
}

#[test]
fn insert_before_and_after_a_named_lump() {
    let mut dir = parsed(&[("ONE", vec![1]), ("TWO", vec![2])]);
    let payload = vec![0];
    dir.insert(LumpAdd::new(LumpAddKind::Before("TWO"), &payload, "B")).unwrap();
    dir.insert(LumpAdd::new(LumpAddKind::After("TWO"), &payload, "A")).unwrap();
    dir.insert(LumpAdd::new(LumpAddKind::Front, &payload, "F")).unwrap();
    assert_eq!(
        ids(&dir),
        vec!["F".to_string(), "ONE".to_string(), "B".to_string(), "TWO".to_string(), "A".to_string()]
    );
    let positions: Vec<i32> = dir.lumps.iter().map(|l| l.info().pos).collect();
    assert_eq!(positions, vec![48, 44, 46, 45, 47]);
}

#[test]
fn inserted_lump_takes_an_id_of_its_own() {
    let mut dir = parsed(&[("ONE", vec![1]), ("ONE", vec![2]), ("TWO", vec![3])]);
    let payload = vec![0];
    assert_eq!(dir.insert(LumpAdd::new(LumpAddKind::Back, &payload, "TWO")).unwrap(), "TWO1");
    assert_eq!(dir.insert(LumpAdd::new(LumpAddKind::Front, &payload, "ONE")).unwrap(), "ONE2");
    assert_eq!(dir.insert(LumpAdd::new(LumpAddKind::Back, &payload, "NEW")).unwrap(), "NEW");
    assert_eq!(
        ids(&dir),
        vec![
            "ONE2".to_string(),
            "ONE".to_string(),
            "ONE1".to_string(),
            "TWO".to_string(),
            "TWO1".to_string(),
            "NEW".to_string()
        ]
    );
    for (k, id) in ids(&dir).iter().enumerate() {
        assert_eq!(dir.index(id), Some(k));
    }
    assert_eq!(&dir.lumps[0].info().name, b"ONE\0\0\0\0\0");
}

#[test]
fn insert_next_to_a_missing_lump_fails() {
    let mut dir = parsed(&[("ONE", vec![1])]);
    let payload = vec![0];
    let add = LumpAdd::new(LumpAddKind::Before("NONE"), &payload, "B");
    assert!(matches!(dir.insert(add), Err(WadError::InvalidLumpName)));
    let add = LumpAdd::new(LumpAddKind::After("NONE"), &payload, "B");
    assert!(matches!(dir.index_from_kind(add.kind), Err(WadError::InvalidLumpName)));
    assert_eq!(dir.lumps.len(), 1);
}

#[test]
fn insert_fails_where_no_position_is_left() {
    let mut dir = LumpsDirectory::new();
    let payload = vec![0];
    dir.insert(LumpAdd::new(LumpAddKind::Back, &payload, "A")).unwrap();
    let mut data = dir.lumps[0].data();
    data.metadata.pos = i32::MAX;
    dir.lumps[0].set_data(data);
    let add = LumpAdd::new(LumpAddKind::Back, &payload, "B");
    assert!(matches!(dir.insert(add), Err(WadError::Unknown)));
    assert_eq!(dir.lumps.len(), 1);
}

#[test]
fn request_takes_the_first_eight_bytes_of_the_name() {
    let payload = vec![];
    let add = LumpAdd::new(LumpAddKind::Back, &payload, "ABCDEFGHIJ");
    assert_eq!(&add.name, b"ABCDEFGH");
    let add = LumpAdd::new(LumpAddKind::Back, &payload, "AB");
    assert_eq!(&add.name, b"AB\0\0\0\0\0\0");
}

#[test]
fn update_is_not_supported() {
    let mut dir = parsed(&[("ONE", vec![1]), ("F_START", vec![]), ("FL", vec![0; 4096])]);
    for lump in dir.lumps.iter_mut() {
        let before = lump.data();
        assert!(matches!(lump.update(&vec![1, 2, 3]), Err(WadError::Unknown)));
        assert_eq!(lump.data().buffer, before.buffer);
    }
}
