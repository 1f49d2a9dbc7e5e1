use mcrs_protocol::codec::{read_string, write_string};
use mcrs_protocol::error::{Error, IoErrorKind};
use mcrs_protocol::var_int::{VarIntRead, VarIntSize, WriteVarInt};
use mcrs_protocol::reader::ByteReader;

fn var32(value: i32) -> Vec<u8> {
    let mut out: Vec<u8> = Vec::new();
    let n = out.write_var_i32(value).unwrap();
    assert_eq!(n, out.len());
    assert_eq!(value.var_int_size(), out.len());
    out
}

fn var64(value: i64) -> Vec<u8> {
    let mut out: Vec<u8> = Vec::new();
    let n = out.write_var_i64(value).unwrap();
    assert_eq!(n, out.len());
    assert_eq!(value.var_int_size(), out.len());
    out
}

#[test]
fn var_i32_encodings() {
    assert_eq!(var32(0), vec![0]);
    assert_eq!(var32(1), vec![1]);
    assert_eq!(var32(127), vec![127]);
    assert_eq!(var32(128), vec![128, 1]);
    assert_eq!(var32(255), vec![255, 1]);
    assert_eq!(var32(25565), vec![221, 199, 1]);
    assert_eq!(var32(2097151), vec![255, 255, 127]);
    assert_eq!(var32(i32::MAX), vec![255, 255, 255, 255, 7]);
    assert_eq!(var32(-1), vec![255, 255, 255, 255, 15]);
    assert_eq!(var32(i32::MIN), vec![128, 128, 128, 128, 8]);
}

#[test]
fn var_i64_encodings() {
    assert_eq!(var64(0), vec![0]);
    assert_eq!(var64(2147483648), vec![128, 128, 128, 128, 8]);
    assert_eq!(var64(-1), vec![255, 255, 255, 255, 255, 255, 255, 255, 255, 1]);
    assert_eq!(var64(i64::MAX), vec![255, 255, 255, 255, 255, 255, 255, 255, 127]);
    assert_eq!(var64(i64::MIN), vec![128, 128, 128, 128, 128, 128, 128, 128, 128, 1]);
}

#[test]
fn var_i32_round_trips() {
    for value in [0, 1, -1, 127, 128, 300, 25565, i32::MAX, i32::MIN, -123456] {
        let mut bytes = var32(value);
        bytes.push(42);
        let mut reader = ByteReader::new(bytes);
        assert_eq!(reader.read_var_i32().unwrap(), value);
        assert_eq!(reader.remaining(), 1);
    }
}

#[test]
fn var_i64_round_trips() {
    for value in [0, 1, -1, 300, i64::MAX, i64::MIN, 1 << 40] {
        let bytes = var64(value);
        let mut reader = ByteReader::new(bytes);
        assert_eq!(reader.read_var_i64().unwrap(), value);
        assert_eq!(reader.remaining(), 0);
    }
}

#[test]
fn var_int_eof_takes_the_rest() {
    let mut reader = ByteReader::new(vec![128]);
    assert!(matches!(reader.read_var_i32(), Err(Error::IoError(IoErrorKind::UnexpectedEof))));
    assert_eq!(reader.remaining(), 0);
    let mut reader = ByteReader::new(vec![]);
    assert!(matches!(reader.read_var_i64(), Err(Error::IoError(IoErrorKind::UnexpectedEof))));
}

#[test]
fn var_int_overlong_stops_at_five_bytes() {
    let mut reader = ByteReader::new(vec![255, 255, 255, 255, 255, 1]);
    assert_eq!(reader.read_var_i32().unwrap(), -1);
    assert_eq!(reader.remaining(), 1);
}

#[test]
fn string_round_trip() {
    let mut out: Vec<u8> = Vec::new();
    write_string(&mut out, &"héllo".to_string());
    assert_eq!(out, vec![6, b'h', 0xc3, 0xa9, b'l', b'l', b'o']);
    let mut reader = ByteReader::new(out);
    assert_eq!(read_string(&mut reader).unwrap().unwrap(), "héllo");
    assert_eq!(reader.remaining(), 0);
}

#[test]
fn string_with_negative_length_is_refused() {
    let mut reader = ByteReader::new(vec![255, 255, 255, 255, 15, 1, 2]);
    assert!(read_string(&mut reader).is_none());
    assert_eq!(reader.remaining(), 7);
}

#[test]
fn string_invalid_utf8_is_replaced() {
    let mut reader = ByteReader::new(vec![2, 0xff, 0x41]);
    assert_eq!(read_string(&mut reader).unwrap().unwrap(), "\u{FFFD}A");
}

#[test]
fn string_short_input_is_eof() {
    let mut reader = ByteReader::new(vec![5, b'a']);
    assert!(matches!(
        read_string(&mut reader).unwrap(),
        Err(Error::IoError(IoErrorKind::UnexpectedEof))
    ));
}

#[test]
fn reader_read_exact() {
    let mut reader = ByteReader::from_slice(&[1, 2, 3]);
    assert_eq!(reader.read_exact(2), Some(vec![1, 2]));
    let fork = reader.fork();
    assert_eq!(reader.read_exact(2), None);
    assert_eq!(reader.remaining(), 0);
    let mut fork = fork;
    assert_eq!(fork.read_exact(1), Some(vec![3]));
    assert_eq!(fork.remaining(), 0);
}
