use tinywad::codec::{
    copy_range, push_all, push_i32_be, push_i32_le, push_u16_be, push_u32_be, read_i32_le,
    read_u16_le,
};
use tinywad::header::{Header, HeaderKind, HeaderSize};
use tinywad::lump::{LumpData, LumpInfo, LumpKind, LumpState};
use tinywad::models::convert::ForceConvert;
use tinywad::text::{printable_bytes, printable_string};

#[test]
fn integers_are_read_little_endian() {
    let bytes = [0x78, 0x56, 0x34, 0x12, 0xff, 0xff, 0xff, 0xff, 0x00, 0x00, 0x00, 0x80];
    assert_eq!(read_i32_le(&bytes, 0), 0x12345678);
    assert_eq!(read_i32_le(&bytes, 4), -1);
    assert_eq!(read_i32_le(&bytes, 8), i32::MIN);
    assert_eq!(read_i32_le(&bytes, 1), -0x00edcbaa);
    assert_eq!(read_u16_le(&bytes, 0), 0x5678);
    assert_eq!(read_u16_le(&bytes, 10), 0x8000);
}

#[test]
fn integers_are_written_as_std_writes_them() {
    for x in [0, 1, -1, 255, 256, -256, 0x12345678, i32::MAX, i32::MIN, -0x12345678] {
        let mut le = vec![9];
        push_i32_le(&mut le, x);
        assert_eq!(le[1..], x.to_le_bytes());
        assert_eq!(read_i32_le(&le, 1), x);
        let mut be = Vec::new();
        push_i32_be(&mut be, x);
        assert_eq!(be, x.to_be_bytes());
    }
    for x in [0u32, 6, 0xdeadbeef, u32::MAX] {
        let mut be = Vec::new();
        push_u32_be(&mut be, x);
        assert_eq!(be, x.to_be_bytes());
    }
    for x in [0u16, 1, 560, u16::MAX] {
        let mut be = Vec::new();
        push_u16_be(&mut be, x);
        assert_eq!(be, x.to_be_bytes());
    }
}

#[test]
fn bytes_are_copied_and_appended() {
    assert_eq!(copy_range(&[1, 2, 3, 4], 1, 3), vec![2, 3]);
    assert_eq!(copy_range(&[1, 2, 3, 4], 2, 2), Vec::<u8>::new());
    let mut out = vec![1];
    push_all(&mut out, &[2, 3]);
    assert_eq!(out, vec![1, 2, 3]);
}

#[test]
fn text_keeps_the_visible_ascii() {
    assert_eq!(printable_bytes(b"AB\0\0"), b"AB");
    assert_eq!(printable_bytes(b" A\tB\x7f~!"), b"AB~!");
    assert_eq!(printable_bytes(&[0xc3, 0xa9, b'x', 0x80, 0xff]), b"x");
    assert_eq!(printable_string(b"F_START\0"), "F_START");
    assert_eq!(printable_string(&[0xff, b'a', 0x20, b'1']), "a1");
}

#[test]
fn name_is_read_as_utf8() {
    let info = LumpInfo::new(0, 0, [0xc3, 0xa9, b'x', 0, 0, 0, 0, 0]);
    assert_eq!(info.name(), "\u{e9}x\0\0\0\0\0");
    assert_eq!(info.id(), "\u{e9}x\0\0\0\0\0\0\0\0\0");
    assert_eq!(info.name_ascii(), "x");
}

#[test]
fn entry_is_read_and_written() {
    let mut bytes = Vec::new();
    bytes.extend_from_slice(&1000i32.to_le_bytes());
    bytes.extend_from_slice(&(-7i32).to_le_bytes());
    bytes.extend_from_slice(b"E1M1\0\0\0\0");
    bytes.push(99);
    let info = LumpInfo::from_bytes(&bytes);
    assert_eq!((info.pos, info.size), (1000, -7));
    assert_eq!(&info.name, b"E1M1\0\0\0\0");
    assert_eq!(&info.id, b"E1M1\0\0\0\0\0\0\0\0");
    assert_eq!(info.state, LumpState::Default);
    assert_eq!(info.to_bytes(), &bytes[..16]);
    assert_eq!(info.name(), "E1M1\0\0\0\0");
    assert_eq!(info.id(), "E1M1\0\0\0\0\0\0\0\0");
    assert_eq!(info.name_ascii(), "E1M1");
    assert_eq!(info.id_ascii(), "E1M1");
    assert_eq!(LumpInfo::ascii(b"a b\0c"), "abc");
}

#[test]
fn default_entry_is_empty() {
    let info = LumpInfo::default();
    assert_eq!((info.pos, info.size, info.name, info.id), (0, 0, [0; 8], [0; 12]));
    assert_eq!(info.state, LumpState::Default);
    let data = LumpData::default();
    assert!(data.buffer.is_empty());
    assert_eq!(data.kind, LumpKind::Unknown);
    assert_eq!(LumpKind::default(), LumpKind::Unknown);
}

#[test]
fn overwritable_needs_life_place_and_payload() {
    let mut info = LumpInfo::new(10, 5, *b"A\0\0\0\0\0\0\0");
    assert!(info.is_overwritable());
    info.state = LumpState::Updated;
    assert!(info.is_overwritable());
    info.state = LumpState::Deleted;
    assert!(!info.is_overwritable());
    assert!(!LumpInfo::new(0, 5, [0; 8]).is_overwritable());
    assert!(!LumpInfo::new(10, 0, [0; 8]).is_overwritable());
    assert!(LumpState::Default.is_alive());
    assert!(LumpState::Updated.is_alive());
    assert!(!LumpState::Deleted.is_alive());
}

#[test]
fn lump_is_written_with_its_entry_behind() {
    let data = LumpData {
        buffer: vec![1, 2],
        metadata: LumpInfo::new(0x0102, -2, *b"NAME\0\0\0\0"),
        kind: LumpKind::Flat,
    };
    let copy = data.clone();
    assert_eq!(copy.buffer, data.buffer);
    assert_eq!(copy.metadata.pos, 0x0102);
    assert_eq!(
        data.into_bytes(),
        [vec![1, 2], vec![0, 0, 1, 2], vec![0xff, 0xff, 0xff, 0xfe], b"NAME\0\0\0\0".to_vec()].concat()
    );
}

#[test]
fn header_kind_has_its_name() {
    assert_eq!(HeaderKind::Delete.to_string(), "DELETE");
    assert_eq!(HeaderKind::Update.to_string(), "UPDATE");
    assert_eq!(HeaderKind::Unknown.to_string(), "UNKNOWN");
    assert_eq!(HeaderKind::Update.to_bytes(), b"UPDATE");
    assert_eq!(HeaderKind::from_str("DELETE").unwrap(), HeaderKind::Delete);
    assert_eq!(HeaderKind::from_str("UPDATE").unwrap(), HeaderKind::Update);
    assert_eq!(HeaderKind::from_str("delete").unwrap(), HeaderKind::Unknown);
    assert_eq!(HeaderKind::from_bytes(b"DELETE"), HeaderKind::Delete);
    assert_eq!(HeaderKind::from_bytes(b"DELETE\0"), HeaderKind::Unknown);
    assert_eq!(HeaderKind::from_bytes(&[0xff, 0xfe]), HeaderKind::Unknown);
    assert_eq!(HeaderKind::from(&b"UPDATE"[..]), HeaderKind::Update);
    assert_eq!(HeaderKind::from(&b"UPDAT"[..]), HeaderKind::Unknown);
}

#[test]
fn header_is_read_and_written() {
    let mut header = Header::new(HeaderKind::Update, 0x01020304);
    assert_eq!(header.size(), 0x01020304);
    assert_eq!(header.size_as_vec(), vec![4, 3, 2, 1]);
    assert_eq!(header.to_bytes(), [b"UPDATE".to_vec(), vec![4, 3, 2, 1]].concat());
    header.set_size(-1);
    assert_eq!(header.size(), -1);
    header.set_size(HeaderSize(7));
    assert_eq!(header.size(), 7);
    assert_eq!(header.kind(), HeaderKind::Update);
    let back = Header::from_bytes(&[b"DELETE".to_vec(), vec![5, 0, 0, 0, 9]].concat());
    assert_eq!(back.kind, HeaderKind::Delete);
    assert_eq!(back.size(), 5);
    assert_eq!(HeaderSize::from_bytes(&[0xfe, 0xff, 0xff, 0xff]).0, -2);
    assert_eq!(HeaderSize::from(3).to_bytes(), vec![3, 0, 0, 0]);
}

struct Wide(i64);

impl TryFrom<Wide> for u8 {
    type Error = ();

    fn try_from(value: Wide) -> Result<u8, ()> {
        u8::try_from(value.0).map_err(|_| ())
    }
}

impl ForceConvert for Wide {}

#[test]
fn forced_conversion_falls_back_to_the_default() {
    let small: u8 = Wide(200).force_into();
    assert_eq!(small, 200);
    let large: u8 = Wide(300).force_into();
    assert_eq!(large, 0);
}
