use sqlite_format::varint::{encode_varint, parse_varint, read_varint, varint_size_of};

#[test]
fn test_parse_varint_0() {
    assert_eq!(parse_varint(b"\x00"), (0, 1))
}

#[test]
fn test_parse_varint_len1() {
    assert_eq!(parse_varint(b"\x7f"), (127, 1))
}

#[test]
fn test_parse_varint_len2() {
    assert_eq!(
        parse_varint(b"\xff\xff\xff\xff\xff\xff\xff\xff\xff"),
        (u64::MAX, 9)
    )
}

#[test]
fn varint_single_bytes_decode_to_themselves() {
    for b in 0u8..=127 {
        assert_eq!(parse_varint(&[b]), (b as u64, 1));
    }
}

#[test]
fn varint_two_bytes() {
    assert_eq!(parse_varint(&[0x81, 0x00]), (128, 2));
    assert_eq!(parse_varint(&[0x81, 0x01, 0xff]), (129, 2));
    assert_eq!(parse_varint(&[0xff, 0x7f]), (16383, 2));
}

#[test]
fn varint_eight_bytes_hold_56_bits() {
    let buf = [0xff, 0xff, 0xff, 0xff, 0xff, 0xff, 0xff, 0x7f];
    assert_eq!(parse_varint(&buf), ((1u64 << 56) - 1, 8));
}

#[test]
fn varint_ninth_byte_is_taken_whole() {
    let buf = [0x80, 0x80, 0x80, 0x80, 0x80, 0x80, 0x80, 0x80, 0x80];
    assert_eq!(parse_varint(&buf), (0x80, 9));
    let buf = [0x81, 0x80, 0x80, 0x80, 0x80, 0x80, 0x80, 0x80, 0x01, 0x55];
    assert_eq!(parse_varint(&buf), ((1u64 << 57) + 1, 9));
}

#[test]
fn varint_stops_at_first_clear_high_bit() {
    assert_eq!(parse_varint(&[0x05, 0x85, 0x01]), (5, 1));
}

#[test]
fn read_varint_reports_a_cut_off_varint() {
    assert_eq!(read_varint(&[], 0, 0), None);
    assert_eq!(read_varint(&[0x80], 0, 1), None);
    assert_eq!(read_varint(&[0xff; 8], 0, 8), None);
    assert_eq!(read_varint(&[0x81, 0x00], 0, 1), None);
    assert_eq!(read_varint(&[0x81, 0x00], 0, 2), Some((128, 2)));
}

#[test]
fn read_varint_reads_from_the_given_offset() {
    let buf = [0xaa, 0xbb, 0x82, 0x03, 0x7f];
    assert_eq!(read_varint(&buf, 2, 5), Some((259, 2)));
    assert_eq!(read_varint(&buf, 4, 5), Some((127, 1)));
    assert_eq!(read_varint(&buf, 5, 5), None);
}

#[test]
fn encode_varint_known_encodings() {
    assert_eq!(encode_varint(0), vec![0x00]);
    assert_eq!(encode_varint(127), vec![0x7f]);
    assert_eq!(encode_varint(128), vec![0x81, 0x00]);
    assert_eq!(encode_varint(16383), vec![0xff, 0x7f]);
    assert_eq!(encode_varint(16384), vec![0x81, 0x80, 0x00]);
    assert_eq!(encode_varint(u64::MAX), vec![0xff; 9]);
    assert_eq!(
        encode_varint(1u64 << 56),
        vec![0x80, 0xc0, 0x80, 0x80, 0x80, 0x80, 0x80, 0x80, 0x00]
    );
}

#[test]
fn varint_sizes_at_the_thresholds() {
    assert_eq!(varint_size_of(0), 1);
    assert_eq!(varint_size_of(127), 1);
    assert_eq!(varint_size_of(128), 2);
    assert_eq!(varint_size_of((1 << 14) - 1), 2);
    assert_eq!(varint_size_of(1 << 14), 3);
    assert_eq!(varint_size_of((1 << 56) - 1), 8);
    assert_eq!(varint_size_of(1 << 56), 9);
    assert_eq!(varint_size_of(u64::MAX), 9);
}

#[test]
fn varint_round_trip_on_chosen_values() {
    let mut values: Vec<u64> = vec![0, 1, 127, 128, 255, 256, 300, 16383, 16384, u64::MAX, u64::MAX - 1];
    for shift in 0..64 {
        let p = 1u64 << shift;
        values.push(p);
        values.push(p - 1);
        values.push(p + 1);
        values.push(p | 0x5555_5555_5555_5555);
    }
    for v in values {
        let bytes = encode_varint(v);
        assert_eq!(bytes.len(), varint_size_of(v));
        assert_eq!(parse_varint(&bytes), (v, bytes.len()));
        assert_eq!(read_varint(&bytes, 0, bytes.len()), Some((v, bytes.len())));
    }
}
