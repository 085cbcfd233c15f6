use ipqs_db_reader::error::Error;
use ipqs_db_reader::memory_reader;
use ipqs_db_reader::{Address, FileReader, MemoryReader, Record, Strictness};

/// The columns of the test databases, in declaration order.
const COLUMNS: [(&str, u8); 11] = [
    ("Country", 0x08),
    ("City", 0x08),
    ("Region", 0x08),
    ("ISP", 0x08),
    ("Organization", 0x08),
    ("ASN", 0x20),
    ("Timezone", 0x08),
    ("Latitude", 0x40),
    ("Longitude", 0x40),
    ("ZeroFraudScore", 0x10),
    ("OneFraudScore", 0x10),
];

/// Room for the two flag bytes, the common byte, nine four-byte columns and
/// two one-byte columns.
const RECORD_BYTES: usize = 41;
const TREE_START: usize = 11 + 24 * 11;

#[derive(Clone)]
struct Rec {
    flags: (u8, u8),
    common: u8,
    strings: [&'static str; 6],
    asn: u32,
    latitude: f32,
    longitude: f32,
    fraud: [u8; 2],
}

#[derive(Clone, Copy)]
enum Child {
    Hole,
    Leaf(usize),
    Node(usize),
}

fn sample(i: usize) -> Rec {
    Rec {
        flags: (i as u8 * 37, i as u8 * 11),
        common: i as u8 * 53,
        strings: ["US", "Monroe", "Louisiana", "Level 3 Communications", "Level 3", "America/Chicago"],
        asn: 3356 + i as u32,
        latitude: 32.51 + i as f32,
        longitude: -92.12,
        fraud: [75, i as u8],
    }
}

/// A database file with the given tree nodes (node 0 is the root) and records.
fn build_raw(is_v6: bool, blacklist: bool, nodes: &[[Child; 2]], records: &[Rec]) -> Vec<u8> {
    let tree_size = 5 + 8 * nodes.len();
    let tree_end = TREE_START + tree_size;
    let pool_start = tree_end + RECORD_BYTES * records.len();
    let mut out = Vec::new();
    let flags = (if is_v6 { 0x02 } else { 0x01 }) | (if blacklist { 0x04 } else { 0 }) | 0x80;
    out.extend_from_slice(&[flags, 0x01, 0x93, 0x02, 0x00, RECORD_BYTES as u8, 0, 0, 0, 0, 0]);
    for (name, kind) in COLUMNS {
        let mut d = name.as_bytes().to_vec();
        d.resize(23, 0);
        d.push(kind);
        out.extend(d);
    }
    assert_eq!(out.len(), TREE_START);
    out.push(0x04);
    out.extend_from_slice(&(tree_size as u32).to_le_bytes());
    for node in nodes {
        for child in node {
            let v = match *child {
                Child::Hole => 0,
                Child::Leaf(r) => tree_end + RECORD_BYTES * r,
                Child::Node(n) => TREE_START + 5 + 8 * n,
            };
            out.extend_from_slice(&(v as u32).to_le_bytes());
        }
    }
    let mut pool = Vec::new();
    for rec in records {
        out.extend_from_slice(&[rec.flags.0, rec.flags.1, rec.common]);
        let mut pointers = Vec::new();
        for s in rec.strings {
            pointers.push((pool_start + pool.len()) as u32);
            pool.push(s.len() as u8);
            pool.extend_from_slice(s.as_bytes());
        }
        for p in &pointers[..5] {
            out.extend_from_slice(&p.to_le_bytes());
        }
        out.extend_from_slice(&rec.asn.to_le_bytes());
        out.extend_from_slice(&pointers[5].to_le_bytes());
        out.extend_from_slice(&rec.latitude.to_le_bytes());
        out.extend_from_slice(&rec.longitude.to_le_bytes());
        out.extend_from_slice(&rec.fraud);
    }
    out.extend(pool);
    let total = out.len() as u32;
    out[7..11].copy_from_slice(&total.to_le_bytes());
    out
}

/// A database whose tree maps each prefix `(value, length, record)`.
fn build(is_v6: bool, blacklist: bool, prefixes: &[(u128, u32, usize)], records: &[Rec]) -> Vec<u8> {
    let width = if is_v6 { 128 } else { 32 };
    let mut nodes = vec![[Child::Hole; 2]];
    for &(value, length, record) in prefixes {
        let mut current = 0;
        for depth in 0..length {
            let bit = ((value >> (width - 1 - depth)) & 1) as usize;
            if depth == length - 1 {
                assert!(matches!(nodes[current][bit], Child::Hole), "prefixes overlap");
                nodes[current][bit] = Child::Leaf(record);
            } else {
                current = match nodes[current][bit] {
                    Child::Node(n) => n,
                    Child::Leaf(_) => panic!("prefixes overlap"),
                    Child::Hole => {
                        nodes.push([Child::Hole; 2]);
                        let n = nodes.len() - 1;
                        nodes[current][bit] = Child::Node(n);
                        n
                    }
                };
            }
        }
    }
    build_raw(is_v6, blacklist, &nodes, records)
}

fn reader_of(data: &[u8]) -> impl Fn(u64, usize) -> Option<Vec<u8>> + '_ {
    move |offset: u64, n: usize| {
        let start = offset as usize;
        let end = start.checked_add(n)?;
        data.get(start..end).map(|s| s.to_vec())
    }
}

fn v4(a: u8, b: u8, c: u8, d: u8) -> Address {
    Address::V4(u32::from_be_bytes([a, b, c, d]))
}

fn compare_records(memory_record: &memory_reader::Record<'_>, file_record: &Record) {
    assert_eq!(file_record.connection_type(), memory_record.connection_type());
    assert_eq!(file_record.abuse_velocity(), memory_record.abuse_velocity());
    assert_eq!(file_record.country(), memory_record.country());
    assert_eq!(file_record.city(), memory_record.city());
    assert_eq!(file_record.region(), memory_record.region());
    assert_eq!(file_record.isp(), memory_record.isp());
    assert_eq!(file_record.organization(), memory_record.organization());
    assert_eq!(file_record.asn(), memory_record.asn());
    assert_eq!(file_record.timezone(), memory_record.timezone());
    assert_eq!(file_record.latitude_bits(), memory_record.latitude_bits());
    assert_eq!(file_record.longitude_bits(), memory_record.longitude_bits());
    for s in [Strictness::Zero, Strictness::One, Strictness::Two, Strictness::Three] {
        assert_eq!(file_record.fraud_score(s), memory_record.fraud_score(s));
    }
    assert_eq!(file_record.is_proxy(), memory_record.is_proxy());
    assert_eq!(file_record.is_vpn(), memory_record.is_vpn());
    assert_eq!(file_record.is_tor(), memory_record.is_tor());
    assert_eq!(file_record.is_crawler(), memory_record.is_crawler());
    assert_eq!(file_record.is_bot(), memory_record.is_bot());
    assert_eq!(file_record.recent_abuse(), memory_record.recent_abuse());
    assert_eq!(file_record.is_blacklisted(), memory_record.is_blacklisted());
    assert_eq!(file_record.is_private(), memory_record.is_private());
    assert_eq!(file_record.is_mobile(), memory_record.is_mobile());
    assert_eq!(file_record.has_open_ports(), memory_record.has_open_ports());
    assert_eq!(file_record.is_hosting_provider(), memory_record.is_hosting_provider());
    assert_eq!(file_record.active_vpn(), memory_record.active_vpn());
    assert_eq!(file_record.active_tor(), memory_record.active_tor());
    assert_eq!(file_record.public_access_point(), memory_record.public_access_point());
}

/// Both readers on `data`: the same outcome for `ip`, and that outcome.
fn fetch_both(data: &[u8], ip: &Address) -> Result<Record, Error> {
    let memory = MemoryReader::from_bytes(data.to_vec()).unwrap();
    let read = reader_of(data);
    let file = FileReader::from_source(&read).unwrap();
    let memory_record = memory.fetch(ip);
    let file_record = file.fetch(&read, ip);
    match (memory_record, file_record) {
        (Err(e), Err(f)) => {
            assert_eq!(e, f);
            Err(e)
        }
        (Ok(m), Ok(f)) => {
            compare_records(&m, &f);
            assert_eq!(m.to_file_record().country(), f.country());
            Ok(f)
        }
        _ => unreachable!("records should have the same status"),
    }
}

fn monroe() -> Rec {
    Rec {
        flags: (0x01 | 0x02, 0x20),
        common: 0x30,
        strings: ["US", "Monroe", "Louisiana", "Level 3 Communications", "Level 3 Communications", "America/Chicago"],
        asn: 3356,
        latitude: 32.51,
        longitude: -92.12,
        fraud: [75, 75],
    }
}

#[test]
fn synthetic_specific_details() {
    let data = build(false, false, &[(0x0808_0000, 16, 0), (0xC000_0000, 2, 1)], &[monroe(), sample(1)]);
    let record = fetch_both(&data, &v4(8, 8, 0, 0)).unwrap();
    assert_eq!(record.is_proxy(), Some(true));
    assert_eq!(record.is_vpn(), Some(true));
    assert_eq!(record.is_tor(), Some(false));
    assert_eq!(record.is_crawler(), Some(false));
    assert_eq!(record.is_bot(), Some(false));
    assert_eq!(record.recent_abuse(), Some(false));
    assert_eq!(record.is_blacklisted(), Some(false));
    assert_eq!(record.is_private(), Some(false));
    assert_eq!(record.is_mobile(), Some(false));
    assert_eq!(record.has_open_ports(), Some(false));
    assert_eq!(record.is_hosting_provider(), Some(false));
    assert_eq!(record.active_vpn(), Some(false));
    assert_eq!(record.active_tor(), Some(false));
    assert_eq!(record.public_access_point(), Some(true));
    assert_eq!(record.connection_type(), "Corporate");
    assert_eq!(record.abuse_velocity(), "none");
    assert_eq!(record.country(), Some("US"));
    assert_eq!(record.city(), Some("Monroe"));
    assert_eq!(record.region(), Some("Louisiana"));
    assert_eq!(record.isp(), Some("Level 3 Communications"));
    assert_eq!(record.organization(), Some("Level 3 Communications"));
    assert_eq!(record.asn(), Some(3356));
    assert_eq!(record.timezone(), Some("America/Chicago"));
    assert_eq!(record.latitude_bits().map(f32::from_bits), Some(32.51));
    assert_eq!(record.longitude_bits().map(f32::from_bits), Some(-92.12));
    assert_eq!(record.fraud_score(Strictness::Zero), Some(75));
    assert_eq!(record.fraud_score(Strictness::One), Some(75));
    assert_eq!(record.fraud_score(Strictness::Two), None);
    assert_eq!(record.fraud_score(Strictness::Three), None);
}

#[test]
fn synthetic_ipv6_fetch() {
    let prefix = 0x2001_4860u128 << 96;
    let data = build(true, false, &[(prefix, 32, 0)], &[sample(2)]);
    let ip = Address::V6(0x2001_4860_4860_0000_0000_0000_0000_8844);
    let record = fetch_both(&data, &ip).unwrap();
    assert_eq!(record.asn(), Some(3358));
    assert_eq!(record.fraud_score(Strictness::One), Some(2));
}

#[test]
fn family_gate_both_ways() {
    let data = build(false, false, &[(0, 1, 0)], &[sample(0)]);
    assert_eq!(fetch_both(&data, &Address::V6(1)).err(), Some(Error::WrongFamily));
    let data = build(true, false, &[(0, 1, 0)], &[sample(0)]);
    assert_eq!(fetch_both(&data, &v4(1, 2, 3, 4)).err(), Some(Error::WrongFamily));
    let memory = MemoryReader::from_bytes(data.clone()).unwrap();
    assert!(memory.is_ipv6());
    assert!(!memory.is_blacklist());
}

#[test]
fn hole_falls_back_to_enclosing_prefix() {
    // 0/1 holds record 0, 11/2 holds record 1; 10/2 is a hole
    let data = build(false, false, &[(0, 1, 0), (0xC000_0000, 2, 1)], &[sample(0), sample(1)]);
    assert_eq!(fetch_both(&data, &v4(0x80, 0, 0, 1)).unwrap().asn(), Some(3356));
    assert_eq!(fetch_both(&data, &v4(0xC0, 0, 0, 1)).unwrap().asn(), Some(3357));
    assert_eq!(fetch_both(&data, &v4(0x7f, 0xff, 0xff, 0xff)).unwrap().asn(), Some(3356));
}

#[test]
fn hole_in_blacklist_is_not_found() {
    let data = build(false, true, &[(0, 1, 0), (0xC000_0000, 2, 1)], &[sample(0), sample(1)]);
    assert_eq!(fetch_both(&data, &v4(0x80, 0, 0, 1)).err(), Some(Error::NotFound));
    assert_eq!(fetch_both(&data, &v4(0xC0, 0, 0, 1)).unwrap().asn(), Some(3357));
    let read = reader_of(&data);
    assert!(FileReader::from_source(&read).unwrap().is_blacklist());
}

#[test]
fn hole_with_no_one_before_is_not_found() {
    let data = build(false, false, &[(0x8000_0000, 1, 0)], &[sample(0)]);
    assert_eq!(fetch_both(&data, &v4(0, 0, 0, 0)).err(), Some(Error::NotFound));
    assert_eq!(fetch_both(&data, &v4(0x80, 0, 0, 0)).unwrap().asn(), Some(3356));
}

#[test]
fn addresses_under_one_prefix_share_the_record() {
    let data = build(false, false, &[(0x0a01_0000, 16, 1), (0x0b00_0000, 8, 0)], &[sample(0), sample(1)]);
    for last in 0..=255u8 {
        let a = fetch_both(&data, &v4(10, 1, 2, last)).unwrap();
        assert_eq!(a.asn(), Some(3357));
        assert_eq!(a.fraud_score(Strictness::One), Some(1));
    }
    assert_eq!(fetch_both(&data, &v4(11, 7, 0, 0)).unwrap().asn(), Some(3356));
}

#[test]
fn walk_runs_out_of_address_bits() {
    // the root is its own child on both sides
    let data = build_raw(false, false, &[[Child::Node(0), Child::Node(0)]], &[sample(0)]);
    assert_eq!(fetch_both(&data, &v4(1, 2, 3, 4)).err(), Some(Error::AddressExhausted));
}

#[test]
fn leaf_past_the_end_is_truncated() {
    let data = build_raw(false, false, &[[Child::Leaf(5), Child::Hole]], &[sample(0)]);
    assert_eq!(fetch_both(&data, &v4(1, 2, 3, 4)).err(), Some(Error::TruncatedLeaf));
}

#[test]
fn string_past_the_end_is_bad() {
    let mut data = build(false, false, &[(0, 1, 0)], &[sample(0)]);
    // the country pointer of the only record
    let record = TREE_START + 5 + 8 + 3;
    data[record..record + 4].copy_from_slice(&0xffff_fff0u32.to_le_bytes());
    assert_eq!(fetch_both(&data, &v4(1, 2, 3, 4)).err(), Some(Error::BadString));
}

#[test]
fn random_addresses_agree() {
    let data = build(
        false,
        false,
        &[(0x0808_0000, 16, 0), (0x4000_0000, 2, 1), (0xC000_0000, 3, 2), (0x2000_0000, 4, 3)],
        &[monroe(), sample(1), sample(2), sample(3)],
    );
    let memory = MemoryReader::from_bytes(data.clone()).unwrap();
    let read = reader_of(&data);
    let file = FileReader::from_source(&read).unwrap();
    let mut state: u64 = 0x2545_f491_4f6c_dd1d;
    let mut found = 0;
    for _ in 0..1000 {
        state = state.wrapping_mul(6364136223846793005).wrapping_add(1442695040888963407);
        let ip = Address::V4((state >> 32) as u32);
        match (memory.fetch(&ip), file.fetch(&read, &ip)) {
            (Err(e), Err(f)) => assert_eq!(e, f),
            (Ok(m), Ok(f)) => {
                found += 1;
                compare_records(&m, &f)
            }
            _ => unreachable!("records should have the same status"),
        }
    }
    assert!(found > 0);
}

#[test]
fn synthetic_columns() {
    let data = build(false, false, &[(0, 1, 0)], &[sample(0)]);
    let read = reader_of(&data);
    let file = FileReader::from_source(&read).unwrap();
    assert_eq!(file.columns().len(), 11);
    assert_eq!(file.columns()[5].name, "ASN");
    assert!(!file.is_ipv6());
}

#[test]
fn open_errors() {
    let data = build(false, false, &[(0, 1, 0)], &[sample(0)]);
    assert_eq!(MemoryReader::from_bytes(data[..10].to_vec()).err(), Some(Error::TruncatedFile));
    assert_eq!(MemoryReader::from_bytes(data[..TREE_START + 3].to_vec()).err(), Some(Error::TruncatedFile));
    // the tree ends past the end of the file: only the resident reader can tell
    let short = data[..TREE_START + 5 + 4].to_vec();
    assert_eq!(MemoryReader::from_bytes(short.clone()).err(), Some(Error::TruncatedFile));
    let read = reader_of(&short);
    assert!(FileReader::from_source(&read).is_ok());
    let mut bad = data.clone();
    bad[1] = 2;
    assert_eq!(MemoryReader::from_bytes(bad.clone()).err(), Some(Error::BadVersion));
    let read = reader_of(&bad);
    assert_eq!(FileReader::from_source(&read).err(), Some(Error::BadVersion));
    let mut bad = data.clone();
    bad[TREE_START] = 0;
    assert_eq!(MemoryReader::from_bytes(bad).err(), Some(Error::BadTreeFlag));
    let mut bad = data.clone();
    bad[TREE_START + 1..TREE_START + 5].copy_from_slice(&[0, 0, 0, 0]);
    assert_eq!(MemoryReader::from_bytes(bad).err(), Some(Error::EmptyTree));
    let mut bad = data.clone();
    bad[5] = 4;
    assert_eq!(MemoryReader::from_bytes(bad).err(), Some(Error::BadRecordSize));
    let mut bad = data;
    bad[11] = 0xff;
    assert_eq!(MemoryReader::from_bytes(bad).err(), Some(Error::BadColumnName));
}
