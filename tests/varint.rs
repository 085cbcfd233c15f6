use ipqs_db_reader::error::Error;
use ipqs_db_reader::utility::{four_byte_int, parse_string};
use ipqs_db_reader::variable_length_int::uvarint64;

fn encode(mut v: u64) -> Vec<u8> {
    let mut out = Vec::new();
    while v >= 0x80 {
        out.push((v % 0x80) as u8 | 0x80);
        v /= 0x80;
    }
    out.push(v as u8);
    out
}

#[test]
fn it_works() {
    let bytes: [u8; 3] = [0x93, 0x02, 0x00];
    let answer = uvarint64(&bytes).unwrap();
    assert_eq!(answer, 275);
}

#[test]
fn long_read() {
    // Reading should stop after the first non-continuation byte
    let bytes: [u8; 3] = [0x93, 0x02, 0x01];
    let answer = uvarint64(&bytes).unwrap();
    assert_eq!(answer, 275);
}

#[test]
fn too_long() {
    let l = [11; 0xff];
    let x = uvarint64(&l);
    assert!(x.is_err());
}

#[test]
fn varint_unterminated_is_malformed() {
    assert_eq!(uvarint64(&[0x80, 0x80, 0x80]), Err(Error::MalformedVarint));
    assert_eq!(uvarint64(&[]), Err(Error::MalformedVarint));
}

#[test]
fn varint_tenth_byte_overflow() {
    let mut bytes = vec![0xff; 9];
    bytes.push(0x01);
    assert_eq!(uvarint64(&bytes), Ok(u64::MAX));
    let mut bytes = vec![0xff; 9];
    bytes.push(0x02);
    assert_eq!(uvarint64(&bytes), Err(Error::MalformedVarint));
}

#[test]
fn varint_round_trip_samples() {
    let mut v: u64 = 1;
    for _ in 0..63 {
        for x in [v - 1, v, v + 1, v * 3 / 2] {
            if x < 1 << 63 {
                assert_eq!(uvarint64(&encode(x)), Ok(x));
            }
        }
        v *= 2;
    }
    assert_eq!(uvarint64(&encode((1 << 63) - 1)), Ok((1 << 63) - 1));
}

#[test]
fn four_byte_int_is_little_endian() {
    assert_eq!(four_byte_int(&[0x78, 0x56, 0x34, 0x12]), 0x1234_5678);
    assert_eq!(four_byte_int(&[0xff, 0xff, 0xff, 0xff]), 0xffff_ffff);
    assert_eq!(four_byte_int(&32.51f32.to_le_bytes()), 32.51f32.to_bits() as u64);
}

#[test]
fn four_byte_int_reads_back_written_values() {
    for v in [0u32, 1, 255, 256, 65535, 0x0102_0304, 0xdead_beef, u32::MAX] {
        assert_eq!(four_byte_int(&v.to_le_bytes()), v as u64);
    }
}

#[test]
fn parse_string_reads_length_prefix() {
    assert_eq!(parse_string(&[3, b'a', b'b', b'c', b'x']), Some("abc"));
    assert_eq!(parse_string(&[0]), Some(""));
    assert_eq!(parse_string(&[4, b'a', b'b']), None);
    assert_eq!(parse_string(&[2, 0xc3, 0x28]), None);
    assert_eq!(parse_string(&[]), None);
}
