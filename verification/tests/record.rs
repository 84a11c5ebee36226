use sqlite_format::endian::{read_be, read_be_signed, read_be_u16, read_be_u32, read_le_u16};
use sqlite_format::error::FormatError;
use sqlite_format::record::{read_value, Record, RecordHeader, RecordSerialType, RecordValue};
use sqlite_format::text::{decode_text, same_text, TextEncoding};

#[test]
fn serial_type_fixed_codes() {
    assert_eq!(RecordSerialType::from(0), Ok(RecordSerialType::Null));
    assert_eq!(RecordSerialType::from(1), Ok(RecordSerialType::I8));
    assert_eq!(RecordSerialType::from(2), Ok(RecordSerialType::I16));
    assert_eq!(RecordSerialType::from(3), Ok(RecordSerialType::I24));
    assert_eq!(RecordSerialType::from(4), Ok(RecordSerialType::I32));
    assert_eq!(RecordSerialType::from(5), Ok(RecordSerialType::I48));
    assert_eq!(RecordSerialType::from(6), Ok(RecordSerialType::I64));
    assert_eq!(RecordSerialType::from(7), Ok(RecordSerialType::F64));
    assert_eq!(RecordSerialType::from(8), Ok(RecordSerialType::Zero));
    assert_eq!(RecordSerialType::from(9), Ok(RecordSerialType::One));
}

#[test]
fn serial_type_lengths() {
    let expected: [(u64, u64); 10] =
        [(0, 0), (1, 1), (2, 2), (3, 3), (4, 4), (5, 6), (6, 8), (7, 8), (8, 0), (9, 0)];
    for (code, len) in expected {
        assert_eq!(RecordSerialType::from(code).unwrap().len(), len);
    }
    assert_eq!(RecordSerialType::Blob(7).len(), 7);
    assert_eq!(RecordSerialType::String(9).len(), 9);
}

#[test]
fn serial_type_parity_decides_blob_or_text() {
    assert_eq!(RecordSerialType::from(12), Ok(RecordSerialType::Blob(0)));
    assert_eq!(RecordSerialType::from(13), Ok(RecordSerialType::String(0)));
    assert_eq!(RecordSerialType::from(14), Ok(RecordSerialType::Blob(1)));
    assert_eq!(RecordSerialType::from(15), Ok(RecordSerialType::String(1)));
    assert_eq!(RecordSerialType::from(100), Ok(RecordSerialType::Blob(44)));
    assert_eq!(RecordSerialType::from(101), Ok(RecordSerialType::String(44)));
    assert_eq!(RecordSerialType::from(u64::MAX), Ok(RecordSerialType::String((u64::MAX - 13) / 2)));
    assert_eq!(RecordSerialType::from(u64::MAX - 1), Ok(RecordSerialType::Blob((u64::MAX - 13) / 2)));
}

#[test]
fn serial_type_reserved_codes_fail() {
    assert_eq!(RecordSerialType::from(10), Err(FormatError::ReservedSerialType));
    assert_eq!(RecordSerialType::from(11), Err(FormatError::ReservedSerialType));
}

#[test]
fn big_endian_readers() {
    let buf = [0x01, 0x02, 0x03, 0x04, 0x05, 0x06, 0x07, 0x08, 0x09];
    assert_eq!(read_be(&buf, 0, 0), 0);
    assert_eq!(read_be(&buf, 0, 1), 0x01);
    assert_eq!(read_be(&buf, 1, 3), 0x020304);
    assert_eq!(read_be(&buf, 1, 8), 0x0203_0405_0607_0809);
    assert_eq!(read_be_u16(&buf, 2), 0x0304);
    assert_eq!(read_be_u32(&buf, 5), 0x0607_0809);
    assert_eq!(read_le_u16(&buf, 2), 0x0403);
}

#[test]
fn signed_big_endian_readers() {
    assert_eq!(read_be_signed(&[0x7f], 0, 1), 127);
    assert_eq!(read_be_signed(&[0x80], 0, 1), -128);
    assert_eq!(read_be_signed(&[0xff], 0, 1), -1);
    assert_eq!(read_be_signed(&[0xff, 0xfe], 0, 2), -2);
    assert_eq!(read_be_signed(&[0x80, 0x00, 0x00], 0, 3), -8_388_608);
    assert_eq!(read_be_signed(&[0x7f, 0xff, 0xff], 0, 3), 8_388_607);
    assert_eq!(read_be_signed(&[0xff, 0xff, 0xff, 0xff, 0xff, 0x85], 0, 6), -123);
    assert_eq!(read_be_signed(&[0x80, 0, 0, 0, 0, 0, 0, 0], 0, 8), i64::MIN);
    assert_eq!(read_be_signed(&[0x7f, 0xff, 0xff, 0xff, 0xff, 0xff, 0xff, 0xff], 0, 8), i64::MAX);
    assert_eq!(read_be_signed(&[0xff, 0xff, 0xff, 0xff, 0xff, 0xff, 0xff, 0xff], 0, 8), -1);
    assert_eq!(read_be_signed(&[0x99, 0x00, 0x01, 0x00], 1, 2), 1);
}

#[test]
fn utf8_text_is_decoded() {
    assert_eq!(decode_text(b"users"), Some("users".to_string()));
    assert_eq!(decode_text(b""), Some(String::new()));
    assert_eq!(decode_text(&[0xc3, 0xa9]), Some("\u{e9}".to_string()));
    assert_eq!(decode_text(&[0xf0, 0x9f, 0x98, 0x80]).map(|t| t.chars().count()), Some(1));
}

#[test]
fn ill_formed_utf8_is_refused() {
    assert_eq!(decode_text(&[0xff]), None);
    assert_eq!(decode_text(&[0xc3]), None);
    assert_eq!(decode_text(&[0xc0, 0x80]), None);
    assert_eq!(decode_text(&[0xed, 0xa0, 0x80]), None);
    assert_eq!(decode_text(&[b'a', 0x80]), None);
}

#[test]
fn same_text_compares_contents() {
    assert!(same_text("", ""));
    assert!(same_text(".dbinfo", ".dbinfo"));
    assert!(!same_text(".dbinfo", ".dbinfO"));
    assert!(!same_text(".dbinfo", ".dbinf"));
    assert!(!same_text("a", ""));
}

#[test]
fn values_of_each_kind() {
    let utf8 = TextEncoding::Utf8;
    let buf = [0xff, 0x80, 0x00, 0x01, 0x02, 0x03, 0x04, 0x05];
    assert_eq!(read_value(&buf, 0, RecordSerialType::Null, utf8), Ok(RecordValue::Null));
    assert_eq!(read_value(&buf, 0, RecordSerialType::I8, utf8), Ok(RecordValue::I8(-1)));
    assert_eq!(read_value(&buf, 0, RecordSerialType::I16, utf8), Ok(RecordValue::I16(-128)));
    assert_eq!(read_value(&buf, 1, RecordSerialType::I24, utf8), Ok(RecordValue::I24(-8_388_607)));
    assert_eq!(read_value(&buf, 2, RecordSerialType::I24, utf8), Ok(RecordValue::I24(0x000102)));
    assert_eq!(read_value(&buf, 2, RecordSerialType::I32, utf8), Ok(RecordValue::I32(0x0001_0203)));
    assert_eq!(read_value(&buf, 2, RecordSerialType::I48, utf8), Ok(RecordValue::I48(0x0001_0203_0405)));
    assert_eq!(
        read_value(&buf, 0, RecordSerialType::I64, utf8),
        Ok(RecordValue::I64(i64::from_be_bytes(buf)))
    );
    assert_eq!(read_value(&buf, 8, RecordSerialType::Zero, utf8), Ok(RecordValue::Zero));
    assert_eq!(read_value(&buf, 8, RecordSerialType::One, utf8), Ok(RecordValue::One));
    assert_eq!(read_value(&buf, 3, RecordSerialType::Blob(2), utf8), Ok(RecordValue::Blob(vec![1, 2])));
    assert_eq!(read_value(&buf, 3, RecordSerialType::Blob(0), utf8), Ok(RecordValue::Blob(vec![])));
    assert_eq!(
        read_value(&buf, 3, RecordSerialType::String(2), utf8),
        Ok(RecordValue::String("\u{1}\u{2}".to_string()))
    );
    assert_eq!(read_value(&buf, 0, RecordSerialType::String(1), utf8), Err(FormatError::InvalidText));
}

#[test]
fn float_is_kept_as_its_bits() {
    let bits = 1.5f64.to_bits();
    let buf = bits.to_be_bytes();
    let v = read_value(&buf, 0, RecordSerialType::F64, TextEncoding::Utf8).unwrap();
    assert_eq!(v, RecordValue::F64(bits));
    match v {
        RecordValue::F64(b) => assert_eq!(f64::from_bits(b), 1.5),
        _ => panic!("not a float"),
    }
}

fn sample_record() -> Vec<u8> {
    // header: length 8, then Null, I8, I16, String(3), Blob(2), One, F64
    let mut r = vec![8, 0, 1, 2, 19, 16, 9, 7];
    r.push(0x85);
    r.extend_from_slice(&[0x01, 0x00]);
    r.extend_from_slice(b"abc");
    r.extend_from_slice(&[0xca, 0xfe]);
    r.extend_from_slice(&2.0f64.to_bits().to_be_bytes());
    r
}

#[test]
fn record_with_mixed_values() {
    let rec = Record::new(&sample_record(), &TextEncoding::Utf8).unwrap();
    assert_eq!(rec.header.len, 8);
    assert_eq!(
        rec.header.col_types,
        vec![
            RecordSerialType::Null,
            RecordSerialType::I8,
            RecordSerialType::I16,
            RecordSerialType::String(3),
            RecordSerialType::Blob(2),
            RecordSerialType::One,
            RecordSerialType::F64,
        ]
    );
    assert_eq!(
        rec.values,
        vec![
            RecordValue::Null,
            RecordValue::I8(-123),
            RecordValue::I16(256),
            RecordValue::String("abc".to_string()),
            RecordValue::Blob(vec![0xca, 0xfe]),
            RecordValue::One,
            RecordValue::F64(2.0f64.to_bits()),
        ]
    );
    assert_eq!(rec.values.len(), rec.header.col_types.len());
}

#[test]
fn record_header_alone() {
    let h = RecordHeader::new(&sample_record()).unwrap();
    assert_eq!(h.len, 8);
    assert_eq!(h.col_types.len(), 7);
}

#[test]
fn record_decoding_twice_gives_equal_values() {
    let buf = sample_record();
    let first = Record::new(&buf, &TextEncoding::Utf8);
    let second = Record::new(&buf, &TextEncoding::Utf8);
    assert_eq!(first, second);
    assert_eq!(first.unwrap().values, second.unwrap().values);
    let bad = [3u8, 10, 1];
    assert_eq!(Record::new(&bad, &TextEncoding::Utf8), Record::new(&bad, &TextEncoding::Utf8));
}

#[test]
fn record_ignores_bytes_behind_its_values() {
    let mut buf = sample_record();
    let expected = Record::new(&buf, &TextEncoding::Utf8).unwrap();
    buf.extend_from_slice(&[0xff, 0xff, 0xff]);
    assert_eq!(Record::new(&buf, &TextEncoding::Utf8).unwrap(), expected);
}

#[test]
fn record_with_no_columns() {
    let rec = Record::new(&[1], &TextEncoding::Utf8).unwrap();
    assert_eq!(rec.header.len, 1);
    assert!(rec.header.col_types.is_empty());
    assert!(rec.values.is_empty());
}

#[test]
fn record_truncated_value_area() {
    let full = sample_record();
    for cut in 1..=(full.len() - 8) {
        let buf = &full[..full.len() - cut];
        assert_eq!(Record::new(buf, &TextEncoding::Utf8), Err(FormatError::TruncatedRecord));
    }
    assert!(Record::new(&full, &TextEncoding::Utf8).is_ok());
}

#[test]
fn record_truncated_header() {
    assert_eq!(Record::new(&[], &TextEncoding::Utf8), Err(FormatError::TruncatedRecord));
    assert_eq!(Record::new(&[0x80], &TextEncoding::Utf8), Err(FormatError::TruncatedRecord));
    // The header claims more bytes than the buffer has.
    assert_eq!(Record::new(&[5, 1, 1], &TextEncoding::Utf8), Err(FormatError::TruncatedRecord));
    // The header is shorter than its own length field.
    assert_eq!(Record::new(&[0, 1, 1], &TextEncoding::Utf8), Err(FormatError::TruncatedRecord));
    // The last serial type is cut off by the end of the header.
    assert_eq!(Record::new(&[2, 0x81, 0x00, 0], &TextEncoding::Utf8), Err(FormatError::TruncatedRecord));
    assert_eq!(RecordHeader::new(&[2, 0x81, 0x00, 0]), Err(FormatError::TruncatedRecord));
}

#[test]
fn record_with_reserved_serial_type() {
    assert_eq!(Record::new(&[2, 10], &TextEncoding::Utf8), Err(FormatError::ReservedSerialType));
    assert_eq!(Record::new(&[3, 1, 11, 0], &TextEncoding::Utf8), Err(FormatError::ReservedSerialType));
    assert_eq!(RecordHeader::new(&[2, 11]), Err(FormatError::ReservedSerialType));
}

#[test]
fn record_with_invalid_text() {
    assert_eq!(Record::new(&[2, 15, 0xff], &TextEncoding::Utf8), Err(FormatError::InvalidText));
    assert_eq!(Record::new(&[2, 17, 0xc3, 0x28], &TextEncoding::Utf8), Err(FormatError::InvalidText));
}

#[test]
fn record_with_utf16_text_is_not_decoded() {
    let buf = [2, 17, b'a', 0];
    assert_eq!(Record::new(&buf, &TextEncoding::Utf16le), Err(FormatError::UnsupportedTextEncoding));
    assert_eq!(Record::new(&buf, &TextEncoding::Utf16be), Err(FormatError::UnsupportedTextEncoding));
    // Without a text value the encoding does not matter.
    assert_eq!(
        Record::new(&[2, 1, 5], &TextEncoding::Utf16le).unwrap().values,
        vec![RecordValue::I8(5)]
    );
}

#[test]
fn record_first_failure_wins() {
    // The reserved code is met in the header before the bad text is read.
    assert_eq!(Record::new(&[3, 15, 10, 0xff], &TextEncoding::Utf8), Err(FormatError::ReservedSerialType));
    // The bad text comes before the value that is cut off.
    assert_eq!(Record::new(&[3, 15, 4, 0xff, 0], &TextEncoding::Utf8), Err(FormatError::InvalidText));
    // The value that is cut off comes before the bad text.
    assert_eq!(Record::new(&[3, 4, 15, 0, 0], &TextEncoding::Utf8), Err(FormatError::TruncatedRecord));
}

#[test]
fn record_with_two_byte_serial_type() {
    // String of 100 bytes has the code 213, a varint of two bytes.
    let mut buf = vec![3, 0x81, 0x55];
    buf.extend_from_slice(&[b'x'; 100]);
    let rec = Record::new(&buf, &TextEncoding::Utf8).unwrap();
    assert_eq!(rec.header.col_types, vec![RecordSerialType::String(100)]);
    assert_eq!(rec.values, vec![RecordValue::String("x".repeat(100))]);
}
