use ipqs_db_reader::error::Error;
use ipqs_db_reader::parse::{next_node, ColumnsBlock, FileHeader, NodeResult, TreeHeader};

fn create_node(left: u32, right: u32) -> Vec<u8> {
    [left.to_le_bytes(), right.to_le_bytes()].concat()
}

/// A file header with the given flag byte, version, tree start and record size.
fn header(flags: u8, version: u8, tree_start: [u8; 3], record_bytes: [u8; 2]) -> Vec<u8> {
    let mut h = vec![flags, version];
    h.extend_from_slice(&tree_start);
    h.extend_from_slice(&record_bytes);
    h.extend_from_slice(&[0, 0, 0, 0]);
    h
}

fn descriptor(name: &[u8], flags: u8) -> Vec<u8> {
    let mut d = name.to_vec();
    d.resize(23, 0);
    d.push(flags);
    d
}

#[test]
fn test_next_node() {
    let node = create_node(10, 20);
    assert!(matches!(next_node(false, &node, 10, 100), NodeResult::NextNode(10)));
    assert!(matches!(next_node(true, &node, 10, 100), NodeResult::NextNode(20)));

    let node = create_node(0, 200);
    assert!(matches!(next_node(false, &node, 10, 100), NodeResult::Missing));
    assert!(matches!(next_node(true, &node, 10, 100), NodeResult::Record(200)));
}

#[test]
fn next_node_bounds() {
    let node = create_node(9, 100);
    assert_eq!(next_node(false, &node, 10, 100), NodeResult::Missing);
    assert_eq!(next_node(true, &node, 10, 100), NodeResult::Record(100));
    let node = create_node(99, 0x0102_0304);
    assert_eq!(next_node(false, &node, 10, 100), NodeResult::NextNode(99));
    assert_eq!(next_node(true, &node, 10, 100), NodeResult::Record(0x0102_0304));
}

#[test]
fn file_header_fields() {
    // 0x93 0x02 is 275 = 11 + 11 * 24; record size 40
    let h = header(0x80 | 0x04 | 0x01, 1, [0x93, 0x02, 0x00], [40, 0]);
    let fh = FileHeader::parse(&h).unwrap();
    assert!(fh.binary_data);
    assert!(!fh.is_v6);
    assert!(fh.is_blacklist);
    assert_eq!(fh.tree_start, 275);
    assert_eq!(fh.columns_bytes_length, 264);
    assert_eq!(fh.record_bytes_length, 40);
}

#[test]
fn file_header_errors() {
    let ok = [0x93, 0x02, 0x00];
    assert_eq!(FileHeader::parse(&header(0x03, 1, ok, [40, 0])).err(), Some(Error::BadMagic));
    assert_eq!(FileHeader::parse(&header(0x80, 1, ok, [40, 0])).err(), Some(Error::BadMagic));
    assert_eq!(FileHeader::parse(&header(0x02, 2, ok, [40, 0])).err(), Some(Error::BadVersion));
    assert_eq!(FileHeader::parse(&header(0x02, 1, [11, 0, 0], [40, 0])).err(), Some(Error::NoColumns));
    assert_eq!(
        FileHeader::parse(&header(0x02, 1, [11 + 23, 0, 0], [40, 0])).err(),
        Some(Error::BadColumnBlockLength)
    );
    assert_eq!(FileHeader::parse(&header(0x02, 1, [5, 0, 0], [40, 0])).err(), Some(Error::BadHeaderSize));
    assert_eq!(FileHeader::parse(&header(0x02, 1, [35, 0, 0], [0, 0])).err(), Some(Error::BadRecordSize));
    assert_eq!(
        FileHeader::parse(&header(0x02, 1, [0x80, 0x80, 0x80], [40, 0])).err(),
        Some(Error::MalformedVarint)
    );
    assert_eq!(
        FileHeader::parse(&header(0x02, 1, [35, 0, 0], [0x80, 0x80])).err(),
        Some(Error::MalformedVarint)
    );
    assert_eq!(FileHeader::parse(&[0x02, 1, 35]).err(), Some(Error::TruncatedFile));
}

#[test]
fn columns_block_names() {
    let fh = FileHeader::parse(&header(0x02, 1, [11 + 48, 0, 0], [9, 0])).unwrap();
    let mut block = descriptor(b"Country", 0x08);
    block.extend(descriptor(b"ZeroFraudScore", 0x10));
    let columns = ColumnsBlock::parse(&fh, &block).unwrap().columns;
    assert_eq!(columns.len(), 2);
    assert_eq!(columns[0].name, "Country");
    assert_eq!(columns[0].record_type.data, 0x08);
    assert_eq!(columns[1].name, "ZeroFraudScore");
    assert_eq!(columns[1].record_type.data, 0x10);
}

#[test]
fn columns_block_errors() {
    let fh = FileHeader::parse(&header(0x02, 1, [11 + 24, 0, 0], [9, 0])).unwrap();
    let block = descriptor(&[0xff, 0xfe], 0x08);
    assert_eq!(ColumnsBlock::parse(&fh, &block).err(), Some(Error::BadColumnName));
    assert_eq!(ColumnsBlock::parse(&fh, &block[..20]).err(), Some(Error::TruncatedFile));
}

#[test]
fn tree_header_checks() {
    let fh = FileHeader::parse(&header(0x02, 1, [11 + 24, 0, 0], [9, 0])).unwrap();
    let th = TreeHeader::parse(&fh, &[0x04, 16, 0, 0, 0]).unwrap();
    assert_eq!(th.tree_end, 35 + 16);
    assert_eq!(TreeHeader::parse(&fh, &[0x04, 0, 0, 0, 0]).err(), Some(Error::EmptyTree));
    assert_eq!(TreeHeader::parse(&fh, &[0x08, 16, 0, 0, 0]).err(), Some(Error::BadTreeFlag));
    assert_eq!(TreeHeader::parse(&fh, &[0x04, 16]).err(), Some(Error::TruncatedFile));
}
