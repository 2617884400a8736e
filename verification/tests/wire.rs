use amadeus_mcp::varint::{read_varint, write_varint};
use amadeus_mcp::wire::{
    read_binary, read_int, read_list, read_record_header, write_binary, write_int, write_list,
    write_record_header,
};

fn varint_of(v: i128) -> Vec<u8> {
    let mut out = Vec::new();
    write_varint(&mut out, v);
    out
}

#[test]
fn integers_take_a_header_and_their_shortest_numeral() {
    assert_eq!(varint_of(0), vec![0]);
    assert_eq!(varint_of(1), vec![1, 1]);
    assert_eq!(varint_of(255), vec![1, 255]);
    assert_eq!(varint_of(256), vec![2, 1, 0]);
    assert_eq!(varint_of(65535), vec![2, 255, 255]);
    assert_eq!(varint_of(-1), vec![129, 1]);
    assert_eq!(varint_of(-256), vec![130, 1, 0]);
    assert_eq!(varint_of(1_700_000_000_123_000_000), {
        let mut expected = vec![8u8];
        expected.extend_from_slice(&1_700_000_000_123_000_000u64.to_be_bytes());
        expected
    });
}

#[test]
fn the_extremes_take_sixteen_digits() {
    let mut max = vec![16u8, 0x7f];
    max.extend_from_slice(&[0xff; 15]);
    assert_eq!(varint_of(i128::MAX), max);
    let mut min = vec![128 + 16u8, 0x80];
    min.extend_from_slice(&[0; 15]);
    assert_eq!(varint_of(i128::MIN), min);
}

#[test]
fn integers_are_read_back_with_the_position_after_them() {
    for v in [0i128, 1, -1, 255, 256, -65536, i128::MAX, i128::MIN, 1 << 64, -(1 << 100)] {
        let mut buf = vec![0xaa, 0xbb];
        write_varint(&mut buf, v);
        let end = buf.len();
        buf.push(0xcc);
        assert_eq!(read_varint(&buf, 2), Some((v, end)));
    }
}

#[test]
fn integers_outside_128_bits_or_with_padding_are_not_read() {
    assert_eq!(read_varint(&[], 0), None);
    assert_eq!(read_varint(&[128], 0), None);
    assert_eq!(read_varint(&[1], 0), None);
    assert_eq!(read_varint(&[2, 1], 0), None);
    assert_eq!(read_varint(&[1, 0], 0), None);
    assert_eq!(read_varint(&[2, 0, 1], 0), None);
    let mut too_big = vec![16u8, 0x80];
    too_big.extend_from_slice(&[0; 15]);
    assert_eq!(read_varint(&too_big, 0), None);
    let mut too_small = vec![128 + 16u8, 0x80];
    too_small.extend_from_slice(&[0; 14]);
    too_small.push(1);
    assert_eq!(read_varint(&too_small, 0), None);
    let mut seventeen = vec![17u8, 1];
    seventeen.extend_from_slice(&[0; 16]);
    assert_eq!(read_varint(&seventeen, 0), None);
}

#[test]
fn terms_carry_their_tag() {
    let mut out = Vec::new();
    write_int(&mut out, 5);
    assert_eq!(out, vec![3, 1, 5]);
    let mut out = Vec::new();
    write_binary(&mut out, b"abc");
    assert_eq!(out, vec![5, 1, 3, b'a', b'b', b'c']);
    let mut out = Vec::new();
    write_binary(&mut out, &[]);
    assert_eq!(out, vec![5, 0]);
    let mut out = Vec::new();
    write_list(&mut out, &[b"a".to_vec(), vec![], b"bc".to_vec()]);
    assert_eq!(out, vec![6, 1, 3, 5, 1, 1, b'a', 5, 0, 5, 1, 2, b'b', b'c']);
    let mut out = Vec::new();
    write_record_header(&mut out, 3);
    assert_eq!(out, vec![7, 1, 3]);
}

#[test]
fn a_long_byte_string_has_a_long_length() {
    let bytes = vec![7u8; 300];
    let mut out = Vec::new();
    write_binary(&mut out, &bytes);
    assert_eq!(&out[..4], &[5, 2, 1, 44]);
    assert_eq!(out.len(), 304);
    assert_eq!(read_binary(&out, 0), Some((bytes, 304)));
}

#[test]
fn terms_are_read_back() {
    assert_eq!(read_int(&[3, 1, 5, 9], 0), Some((5, 3)));
    assert_eq!(read_int(&[5, 1, 5], 0), None);
    assert_eq!(read_binary(&[5, 1, 2, 8, 9, 7], 0), Some((vec![8, 9], 5)));
    assert_eq!(read_binary(&[5, 1, 3, 8, 9], 0), None);
    assert_eq!(read_binary(&[5, 129, 1, 8], 0), None);
    assert_eq!(read_binary(&[3, 1, 0], 0), None);
    assert_eq!(
        read_list(&[6, 1, 2, 5, 1, 1, 4, 5, 0, 1], 0),
        Some((vec![vec![4], vec![]], 9))
    );
    assert_eq!(read_list(&[6, 0], 0), Some((vec![], 2)));
    assert_eq!(read_list(&[6, 1, 2, 5, 1, 1, 4], 0), None);
    assert_eq!(read_list(&[6, 1, 200, 5, 0], 0), None);
    assert_eq!(read_record_header(&[7, 1, 3], 0), Some((3, 3)));
    assert_eq!(read_record_header(&[7, 2, 1, 0], 0), None);
    assert_eq!(read_record_header(&[6, 1, 3], 0), None);
}
