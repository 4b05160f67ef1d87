use tinywad::error::WadError;
use tinywad::lump::{LumpData, LumpInfo, LumpKind};
use tinywad::lumps::flat::{Flat, FLAT_SIZE};
use tinywad::lumps::music::lump::DoomMusic;
use tinywad::lumps::music::mid::Midi;
use tinywad::lumps::music::mus::{
    controller_as_midi, MetaEvent, Mus, MusController, MusHeader, MusPlayNote, MusReleaseNote,
    MusSystemEvent, MUS_MAGIC,
};
use tinywad::lumps::palette::Palettes;
use tinywad::lumps::patch::{DoomImage, DoomImageInfo};
use tinywad::lumps::unknown::Unknown;
use tinywad::models::lump::Lump;
use tinywad::properties::color::ColorRgb;

fn lump(name: &[u8; 8], buffer: Vec<u8>, kind: LumpKind) -> LumpData {
    LumpData { metadata: LumpInfo::new(100, buffer.len() as i32, *name), buffer, kind }
}

/// Palettes of which palette `p` has the color `(p, c, 255 - c)` at `c`.
fn palettes(count: u8) -> Palettes {
    let mut payload = Vec::new();
    for p in 0..count {
        for c in 0..=255u8 {
            payload.extend_from_slice(&[p, c, 255 - c]);
        }
    }
    let mut pal = Palettes::new();
    pal.set_data(lump(b"PLAYPAL\0", payload, LumpKind::Palette));
    assert!(pal.parse().is_ok());
    pal
}

#[test]
fn palettes_are_decoded_three_bytes_a_color() {
    let pal = palettes(2);
    assert_eq!(pal.palettes.len(), 2);
    assert_eq!(pal.palettes[0].len(), 256);
    assert_eq!(pal.palettes[1][7].rgba(), (1, 7, 248, 255));
    assert_eq!(pal.palette().unwrap()[9].rgba(), (0, 9, 246, 255));
    assert_eq!(pal.palettes().len(), 2);
    let bytes = pal.palette_as_bytes(1);
    assert_eq!(bytes.len(), 1024);
    assert_eq!(&bytes[4..8], &[1, 1, 254, 255]);
    assert!(pal.palette_as_bytes(2).is_empty());
}

#[test]
fn palettes_fail_on_a_palette_cut_short() {
    let mut pal = palettes(1);
    pal.set_data(lump(b"PLAYPAL\0", vec![0; 769], LumpKind::Palette));
    assert!(matches!(pal.parse(), Err(WadError::InvalidLumpName)));
    assert!(pal.palettes.is_empty());
    pal.set_data(lump(b"PLAYPAL\0", vec![], LumpKind::Palette));
    assert!(pal.parse().is_ok());
    assert!(pal.palette().is_none());
}

#[test]
fn palette_selection_picks_the_table() {
    let mut pal = palettes(3);
    pal.set_n(2);
    assert_eq!(pal.palette().unwrap()[0].rgba(), (2, 0, 255, 255));
    pal.set_n(3);
    assert!(pal.palette().is_none());
    assert!(pal.selected().is_none());
}

#[test]
fn flat_is_drawn_with_the_selected_palette() {
    let mut payload = vec![0u8; FLAT_SIZE];
    payload[1] = 200;
    let mut pal = palettes(2);
    let mut first = Flat::new(pal.clone(), lump(b"FLOOR\0\0\0", payload.clone(), LumpKind::Flat));
    assert!(first.pixels().is_empty());
    assert!(first.parse().is_ok());
    assert_eq!(first.pixels().len(), 4 * FLAT_SIZE);
    assert_eq!(&first.pixels()[..8], &[0, 0, 255, 255, 0, 200, 55, 255]);

    pal.set_n(1);
    let mut second = Flat::new(pal, lump(b"FLOOR\0\0\0", payload, LumpKind::Flat));
    assert!(second.parse().is_ok());
    assert_eq!(&second.pixels()[..8], &[1, 0, 255, 255, 1, 200, 55, 255]);
    assert_ne!(first.pixels(), second.pixels());
}

#[test]
fn flat_decoded_twice_stays_as_it_is() {
    let mut flat = Flat::new(palettes(1), lump(b"FLOOR\0\0\0", vec![3; FLAT_SIZE], LumpKind::Flat));
    assert!(flat.parse().is_ok());
    let once = flat.pixels().clone();
    assert!(flat.parse().is_ok());
    assert_eq!(flat.pixels(), &once);
}

#[test]
fn flat_fails_without_palette_or_payload() {
    let mut flat = Flat::new(Palettes::new(), lump(b"FLOOR\0\0\0", vec![3; FLAT_SIZE], LumpKind::Flat));
    assert!(matches!(flat.parse(), Err(WadError::InvalidLumpName)));
    assert!(flat.pixels().is_empty());
    let mut flat = Flat::new(palettes(1), lump(b"FLOOR\0\0\0", vec![3; FLAT_SIZE - 1], LumpKind::Flat));
    assert!(matches!(flat.parse(), Err(WadError::InvalidLumpName)));
    assert!(flat.pixels().is_empty());
}

/// A picture of two by two pixels: the first column has a post of two
/// pixels, the second a post of one pixel in the second row.
fn picture() -> Vec<u8> {
    let mut payload = vec![2, 0, 2, 0, 5, 0, 6, 0];
    payload.extend_from_slice(&16i32.to_le_bytes());
    payload.extend_from_slice(&23i32.to_le_bytes());
    payload.extend_from_slice(&[0, 2, 0, 10, 11, 0, 0xff]);
    payload.extend_from_slice(&[1, 1, 0, 12, 0, 0xff]);
    payload
}

#[test]
fn picture_is_drawn_column_by_column() {
    let mut image = DoomImage::new(palettes(1), lump(b"TITLEPIC", picture(), LumpKind::Patch));
    assert!(image.parse().is_ok());
    assert_eq!(image.img_info, DoomImageInfo { width: 2, height: 2, left: 5, top: 6 });
    assert_eq!(image.pixels(), &vec![Some(10), None, Some(11), Some(12)]);
    let rgba = image.buffer().unwrap();
    assert_eq!(rgba, vec![0, 10, 245, 255, 0, 0, 0, 0, 0, 11, 244, 255, 0, 12, 243, 255]);
    assert!(image.parse().is_ok());
    assert_eq!(image.pixels(), &vec![Some(10), None, Some(11), Some(12)]);
}

#[test]
fn picture_without_palette_has_no_colors() {
    let mut image = DoomImage::new(Palettes::new(), lump(b"TITLEPIC", picture(), LumpKind::Patch));
    assert!(image.parse().is_ok());
    assert!(image.buffer().is_none());
}

#[test]
fn malformed_pictures_fail() {
    let cases: Vec<Vec<u8>> = vec![
        vec![],
        vec![2, 0, 2, 0, 0, 0, 0],
        picture()[..16].to_vec(),
        picture()[..28].to_vec(),
        {
            let mut p = picture();
            p[17] = 3;
            p
        },
        {
            let mut p = picture();
            p[8..12].copy_from_slice(&(-1i32).to_le_bytes());
            p
        },
        {
            let mut p = picture();
            p[12..16].copy_from_slice(&29i32.to_le_bytes());
            p
        },
    ];
    for payload in cases {
        let mut image = DoomImage::new(palettes(1), lump(b"TITLEPIC", payload, LumpKind::Patch));
        assert!(matches!(image.parse(), Err(WadError::InvalidLumpName)));
        assert!(image.pixels().is_empty());
        assert_eq!(image.img_info, DoomImageInfo::default());
    }
}

#[test]
fn picture_without_columns_is_empty() {
    let mut image =
        DoomImage::new(palettes(1), lump(b"TITLEPIC", vec![0, 0, 9, 0, 0, 0, 0, 0], LumpKind::Patch));
    assert!(image.parse().is_ok());
    assert!(image.pixels().is_empty());
    assert_eq!(image.img_info.height, 9);
}

fn score(song_len: u16, instruments: u16, events: &[u8]) -> Vec<u8> {
    let mut payload = MUS_MAGIC.to_vec();
    payload.extend_from_slice(&song_len.to_le_bytes());
    payload.extend_from_slice(&0x1234u16.to_le_bytes());
    payload.extend_from_slice(&3u16.to_le_bytes());
    payload.extend_from_slice(&1u16.to_le_bytes());
    payload.extend_from_slice(&instruments.to_le_bytes());
    payload.extend_from_slice(&0u16.to_le_bytes());
    for i in 0..instruments {
        payload.extend_from_slice(&i.to_le_bytes());
    }
    payload.extend_from_slice(events);
    payload
}

const PREAMBLE: [u8; 29] = [
    0x4d, 0x54, 0x68, 0x64, 0, 0, 0, 6, 0, 0, 0, 1, 0x02, 0x30, 0x4d, 0x54, 0x72, 0x6b, 0, 0, 0, 0,
    0, 0xff, 0x51, 3, 0x0f, 0x42, 0x40,
];

fn midi(track: &[u8]) -> Vec<u8> {
    let mut out = PREAMBLE.to_vec();
    out.extend_from_slice(track);
    let len = (out.len() - 22) as u32;
    out[18..22].copy_from_slice(&len.to_be_bytes());
    out
}

fn transcoded(events: &[u8]) -> Result<Vec<u8>, WadError> {
    let mus = Mus::from_bytes(&score(events.len() as u16, 0, events))?;
    Ok(Midi::try_from(&mus)?.buffer().clone())
}

#[test]
fn score_header_is_read() {
    let payload = score(7, 2, &[1, 2, 3]);
    let header = MusHeader::from_bytes(&payload);
    assert_eq!(header.magic, MUS_MAGIC);
    assert_eq!(header.song_len, 7);
    assert_eq!(header.song_start, 0x1234);
    assert_eq!(header.channels, 3);
    assert_eq!(header.sec_channels, 1);
    assert_eq!(header.instr_count, 2);
    assert_eq!(header.dummy, 0);
    assert!(header.instruments.is_empty());
    let mus = Mus::from_bytes(&payload).unwrap();
    assert_eq!(mus.event_buffer(), &vec![1, 2, 3]);
    assert_eq!(mus.header().instr_count, 2);
    assert!(matches!(Mus::from_bytes(&payload[..15]), Err(WadError::InvalidLumpName)));
    assert!(matches!(Mus::from_bytes(&payload[..19]), Err(WadError::InvalidLumpName)));
    assert!(Mus::from_bytes(&payload[..20]).unwrap().event_buffer().is_empty());
}

#[test]
fn empty_score_is_the_preamble() {
    assert_eq!(transcoded(&[]).unwrap(), midi(&[]));
    assert_eq!(midi(&[])[18..22], [0, 0, 0, 7]);
}

#[test]
fn note_with_volume_and_end_of_score() {
    let out = transcoded(&[0x10, 0x80 | 60, 0x40, 0x60]).unwrap();
    assert_eq!(out, midi(&[0, 0x90, 60, 64, 0, 0xff, 0x2f, 0x80]));
    assert_eq!(out.len(), 37);
    assert_eq!(out[18..22], [0, 0, 0, 15]);
}

#[test]
fn delay_is_written_before_the_next_event() {
    let out = transcoded(&[0x90, 60, 0x81, 0x00, 0x60]).unwrap();
    assert_eq!(out, midi(&[0, 0x90, 60, 100, 0x84, 0x00, 0xff, 0x2f, 0x80]));
    let out = transcoded(&[0x90, 60, 0x05, 0x60]).unwrap();
    assert_eq!(out, midi(&[0, 0x90, 60, 100, 20, 0xff, 0x2f, 0x80]));
    let out = transcoded(&[0x90, 60, 0xff, 0xff, 0x7f, 0x60]).unwrap();
    assert_eq!(out, midi(&[0, 0x90, 60, 100, 0x83, 0xff, 0xff, 0x7c, 0xff, 0x2f, 0x80]));
}

#[test]
fn every_kind_of_event_is_transcoded() {
    assert_eq!(transcoded(&[0x0f, 0x80 | 5]).unwrap(), midi(&[0, 0x89, 5, 100]));
    assert_eq!(transcoded(&[0x21, 0x03]).unwrap(), midi(&[0, 0xe1, 0x80, 1]));
    assert_eq!(transcoded(&[0x32, 10]).unwrap(), midi(&[0, 0xb2, 120, 0]));
    assert_eq!(transcoded(&[0x43, 0, 17]).unwrap(), midi(&[0, 0xc3, 17]));
    assert_eq!(transcoded(&[0x43, 4, 0x80 | 17]).unwrap(), midi(&[0, 0xb3, 10, 17]));
    assert_eq!(transcoded(&[0x50, 0]).unwrap(), midi(&[0]));
    assert_eq!(transcoded(&[0x70, 0]).unwrap(), midi(&[0]));
}

#[test]
fn volume_is_kept_for_a_channel_once_the_volume_controller_is_seen() {
    let events = [0x41, 3, 90, 0x11, 0x80 | 60, 70, 0x11, 61, 0x01, 61, 0x12, 62, 0x60];
    assert_eq!(
        transcoded(&events).unwrap(),
        midi(&[
            0, 0xb1, 7, 90, 0, 0x91, 60, 70, 0, 0x91, 61, 70, 0, 0x81, 61, 70, 0, 0x92, 62, 100, 0,
            0xff, 0x2f, 0x80
        ])
    );
    assert!(matches!(transcoded(&events[..12]), Err(WadError::InvalidLumpName)));
}

#[test]
fn malformed_scores_fail() {
    for events in [
        vec![0x00],
        vec![0x10, 60],
        vec![0x20],
        vec![0x30],
        vec![0x30, 15],
        vec![0x40, 1],
        vec![0x40, 15, 1],
        vec![0xe0, 0],
        vec![0xe0, 0, 0x80],
        vec![0xe0, 0, 0xff, 0xff, 0xff, 0xff, 0xff, 0xff, 0xff, 0xff, 0xff, 0xff, 0x01],
    ] {
        assert!(matches!(transcoded(&events), Err(WadError::InvalidLumpName)), "{:?}", events);
    }
    let mus = Mus::from_bytes(&score(3, 0, &[0x60])).unwrap();
    assert!(matches!(Midi::try_from(&mus), Err(WadError::InvalidLumpName)));
}

#[test]
fn controllers_have_their_midi_numbers() {
    let expected = [0, 0, 1, 7, 10, 11, 91, 93, 64, 67, 120, 123, 126, 127, 121];
    for (value, midi) in expected.iter().enumerate() {
        assert_eq!(controller_as_midi(value as u8).unwrap(), *midi);
    }
    assert!(matches!(controller_as_midi(15), Err(WadError::InvalidLumpName)));
    assert!(matches!(controller_as_midi(255), Err(WadError::InvalidLumpName)));
}

#[test]
fn events_are_taken_apart() {
    let meta = MetaEvent(0xb7);
    assert!(meta.last());
    assert_eq!(meta.event_type(), 3);
    assert_eq!(meta.channel(), 7);
    assert!(!MetaEvent(0x7f).last());
    assert_eq!(MusReleaseNote(0xff).note(), 127);
    let play = MusPlayNote(0x80 | 33, 0x80 | 44);
    assert_eq!((play.note(), play.is_volume(), play.volume()), (33, true, 44));
    assert!(!MusPlayNote(33, 0).is_volume());
    assert_eq!(MusSystemEvent(0x8a).controller(), 10);
    let controller = MusController(0x83, 0xff);
    assert_eq!((controller.controller(), controller.value()), (3, 127));
}

#[test]
fn midi_buffer_can_be_changed_and_reset() {
    let mut midi = Midi::new();
    assert!(midi.buffer().is_empty());
    midi.buffer_mut().push(1);
    assert_eq!(midi.buffer(), &vec![1]);
    midi.reset();
    assert!(midi.buffer().is_empty());
    let mut mus = Mus::new();
    mus.event_buffer_mut().push(0x60);
    assert_eq!(mus.event_buffer(), &vec![0x60]);
}

#[test]
fn music_is_read_and_transcoded() {
    let mut music = DoomMusic::new(lump(b"D_E1M1\0\0", score(1, 0, &[0x60]), LumpKind::Sound));
    assert!(music.midi().is_none());
    assert!(music.parse().is_ok());
    assert_eq!(music.midi().unwrap().buffer(), &midi(&[0, 0xff, 0x2f, 0x80]));
    assert_eq!(music.mus().header().song_len, 1);
    music.set_data(lump(b"D_E1M1\0\0", vec![1, 2, 3], LumpKind::Sound));
    assert!(matches!(music.parse(), Err(WadError::InvalidLumpName)));
    assert!(music.midi().is_none());
    music.set_data(lump(b"D_E1M1\0\0", score(2, 0, &[0x00]), LumpKind::Sound));
    assert!(matches!(music.parse(), Err(WadError::InvalidLumpName)));
    assert!(music.midi().is_none());
    assert_eq!(music.mus().header().song_len, 2);
}

#[test]
fn unknown_lump_decodes_to_itself() {
    let mut unknown = Unknown { data: lump(b"THINGS\0\0", vec![1, 2], LumpKind::Unknown) };
    assert!(unknown.parse().is_ok());
    assert_eq!(unknown.data().buffer, vec![1, 2]);
    assert!(matches!(unknown.update(&vec![9]), Err(WadError::Unknown)));
    unknown.set_data(lump(b"OTHER\0\0\0", vec![3], LumpKind::Unknown));
    assert_eq!(unknown.info().name_ascii(), "OTHER");
    assert_eq!(unknown.payload(), &vec![3]);
}

#[test]
fn colors_are_packed_red_first() {
    let c = ColorRgb::from_rgba(1, 2, 3, 4);
    assert_eq!(*c.as_ref(), 0x01020304);
    assert_eq!(c.rgba(), (1, 2, 3, 4));
    assert_eq!(*ColorRgb::from_rgb(255, 0, 128).as_ref(), 0xff0080ff);
    assert_eq!(ColorRgb::from_bytes(&[9, 8, 7, 6]).rgba(), (9, 8, 7, 6));
    assert_eq!(ColorRgb::from_bytes(&[9, 8, 7]).rgba(), (9, 8, 7, 255));
    assert_eq!(ColorRgb::from_bytes(&[9, 8]).rgba(), (0, 0, 0, 0));
    assert_eq!(ColorRgb::default().rgba(), (0, 0, 0, 0));
}

#[test]
fn colors_convert_from_and_into_channels() {
    assert_eq!(*ColorRgb::from((1, 2, 3, 4)).as_ref(), 0x01020304);
    assert_eq!(*ColorRgb::from((1, 2, 3)).as_ref(), 0x010203ff);
    assert_eq!(*ColorRgb::from(&[5u8, 6, 7][..]).as_ref(), 0x050607ff);
    assert_eq!(*ColorRgb::from(&[5u8][..]).as_ref(), 0);
    let channels: (u8, u8, u8, u8) = ColorRgb::from_rgba(9, 8, 7, 6).into();
    assert_eq!(channels, (9, 8, 7, 6));
}
