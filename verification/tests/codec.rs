use rengine::errors::Error;
use rengine::reader::BytesReader;
use rengine::sizeofs;
use rengine::writer::BytesWriter;

fn round_trip_u64(v: u64, expected_len: usize) {
    let mut w = BytesWriter::new(10);
    w.write_u64(v).unwrap();
    let buf = w.into_vec();
    assert_eq!(buf.len(), expected_len);
    let mut r = BytesReader::new(0, buf.len());
    assert_eq!(r.read_u64(&buf).unwrap(), v);
    assert_eq!(r.get_read_start(), buf.len());
    assert!(r.is_complete());
}

#[test]
fn varint_round_trip_boundaries() {
    round_trip_u64(0, 1);
    round_trip_u64(1, 1);
    round_trip_u64(127, 1);
    round_trip_u64(128, 2);
    round_trip_u64(300, 2);
    round_trip_u64(0x3fff, 2);
    round_trip_u64(0x4000, 3);
    round_trip_u64(0xffffffff, 5);
    round_trip_u64(u64::MAX, 10);
}

#[test]
fn varint_encoding_is_little_endian_base128() {
    let mut w = BytesWriter::new(4);
    w.write_u32(300).unwrap();
    // 300 = 0b100101100: low seven bits with the continuation bit, then 2
    assert_eq!(w.into_vec(), vec![0xac, 0x02]);
}

#[test]
fn u16_and_u32_round_trips() {
    let mut w = BytesWriter::new(32);
    w.write_u16(0xbeef).unwrap();
    w.write_u32(0xdeadbeef).unwrap();
    w.write_i32(-5).unwrap();
    w.write_i64(-1).unwrap();
    let buf = w.into_vec();
    let mut r = BytesReader::new(0, buf.len());
    assert_eq!(r.read_u16(&buf).unwrap(), 0xbeef);
    assert_eq!(r.read_u32(&buf).unwrap(), 0xdeadbeef);
    assert_eq!(r.read_i32(&buf).unwrap(), -5);
    assert_eq!(r.read_i64(&buf).unwrap(), -1);
    assert!(r.is_complete());
}

#[test]
fn read_past_end_is_an_error() {
    let buf: Vec<u8> = vec![];
    let mut r = BytesReader::new(0, 0);
    assert_eq!(r.read_u8(&buf), Err(Error::UnexpectedEndOfBuffer));
    let mut r = BytesReader::new(0, 0);
    assert_eq!(r.read_u64(&buf), Err(Error::UnexpectedEndOfBuffer));
}

#[test]
fn overlong_varint_is_an_error() {
    // four continuation bytes where a u16 allows at most three
    let buf: Vec<u8> = vec![0x80, 0x80, 0x80, 0x01];
    let mut r = BytesReader::new(0, buf.len());
    assert_eq!(r.read_u16(&buf), Err(Error::Varint("u16")));
    // eleven continuation bytes overflow even a u64
    let buf: Vec<u8> = vec![0x80; 11];
    let mut r = BytesReader::new(0, buf.len());
    assert_eq!(r.read_u64(&buf), Err(Error::Varint("u64")));
}

#[test]
fn truncated_varint_is_end_of_buffer() {
    let buf: Vec<u8> = vec![0x80, 0x80];
    let mut r = BytesReader::new(0, buf.len());
    assert_eq!(r.read_u32(&buf), Err(Error::UnexpectedEndOfBuffer));
}

#[test]
fn write_over_capacity_is_an_error() {
    let mut w = BytesWriter::new(1);
    w.write_u8(7).unwrap();
    assert_eq!(w.write_u8(8), Err(Error::OutputBufferTooSmall(1, 1, 1)));
}

#[test]
fn string_round_trip() {
    let mut w = BytesWriter::new(64);
    w.write_string("hello").unwrap();
    w.write_string("").unwrap();
    w.write_string("\u{4e16}\u{754c}").unwrap();
    let buf = w.into_vec();
    let mut r = BytesReader::new(0, buf.len());
    assert_eq!(r.read_string(&buf).unwrap(), "hello");
    assert_eq!(r.read_string(&buf).unwrap(), "");
    assert_eq!(r.read_string(&buf).unwrap(), "\u{4e16}\u{754c}");
    assert!(r.is_complete());
}

#[test]
fn invalid_utf8_is_an_error() {
    // a one-byte string whose byte is a lone continuation byte
    let buf: Vec<u8> = vec![1, 0xff];
    let mut r = BytesReader::new(0, buf.len());
    assert_eq!(r.read_string(&buf), Err(Error::Utf8));
}

#[test]
fn bool_and_tag_round_trip() {
    let mut w = BytesWriter::new(16);
    w.write_bool(true).unwrap();
    w.write_bool(false).unwrap();
    w.write_tag(1 << 3 | 2).unwrap();
    let buf = w.into_vec();
    let mut r = BytesReader::new(0, buf.len());
    assert_eq!(r.read_bool(&buf).unwrap(), true);
    assert_eq!(r.read_bool(&buf).unwrap(), false);
    assert_eq!(r.next_tag(&buf).unwrap(), 1 << 3 | 2);
}

#[test]
fn unknown_wire_type_is_refused() {
    let buf: Vec<u8> = vec![];
    let mut r = BytesReader::new(0, 0);
    assert_eq!(r.read_unknow(&buf, 0x1f), Err(Error::UnknownWireType(7)));
}

#[test]
fn sizeofs_match_encodings() {
    assert_eq!(sizeofs::sizeof_varint(0), 1);
    assert_eq!(sizeofs::sizeof_varint(127), 1);
    assert_eq!(sizeofs::sizeof_varint(128), 2);
    assert_eq!(sizeofs::sizeof_varint(0x3fff), 2);
    assert_eq!(sizeofs::sizeof_varint(0x4000), 3);
    assert_eq!(sizeofs::sizeof_varint(u64::MAX), 10);
    assert_eq!(sizeofs::sizeof_u8(0), 1);
    assert_eq!(sizeofs::sizeof_i8(-1), 1);
    assert_eq!(sizeofs::sizeof_u16(300), 2);
    assert_eq!(sizeofs::sizeof_i16(-1), 3);
    assert_eq!(sizeofs::sizeof_u32(1), 1);
    assert_eq!(sizeofs::sizeof_i32(-1), 5);
    assert_eq!(sizeofs::sizeof_u64(1), 1);
    assert_eq!(sizeofs::sizeof_i64(-1), 10);
    assert_eq!(sizeofs::sizeof_bool(true), 1);
    assert_eq!(sizeofs::sizeof_string("hello"), 6);
    assert_eq!(sizeofs::sizeof_len(5), 1);
    assert_eq!(sizeofs::sizeof_tag(1 << 3), 1);
}

#[test]
fn tagged_writes_round_trip() {
    let mut w = BytesWriter::new(64);
    w.write_u32_with_tag(1 << 3, 300).unwrap();
    w.write_u64_with_tag(2 << 3, u64::MAX).unwrap();
    w.write_bool_with_tag(3 << 3, true).unwrap();
    w.write_string_with_tag(4 << 3, "hi").unwrap();
    let buf = w.into_vec();
    let mut r = BytesReader::new(0, buf.len());
    assert_eq!(r.next_tag(&buf).unwrap(), 1 << 3);
    assert_eq!(r.read_u32(&buf).unwrap(), 300);
    assert_eq!(r.next_tag(&buf).unwrap(), 2 << 3);
    assert_eq!(r.read_u64(&buf).unwrap(), u64::MAX);
    assert_eq!(r.next_tag(&buf).unwrap(), 3 << 3);
    assert_eq!(r.read_bool(&buf).unwrap(), true);
    assert_eq!(r.next_tag(&buf).unwrap(), 4 << 3);
    assert_eq!(r.read_string(&buf).unwrap(), "hi");
    assert!(r.is_complete());
    // a tagged write that cannot fit whole is refused
    let mut w = BytesWriter::new(2);
    assert!(w.write_u32_with_tag(1 << 3, 300).is_err());
}

#[test]
fn string_write_failure_keeps_the_prefix() {
    // the body does not fit: the length prefix stays, nothing of the body
    let mut w = BytesWriter::new(3);
    assert!(matches!(
        w.write_string("hello"),
        Err(Error::OutputBufferTooSmall(_, _, _))
    ));
    assert_eq!(w.into_vec(), vec![5]);
}
