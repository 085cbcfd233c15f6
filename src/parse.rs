//! The fixed structures at the front of the file: the file header, the column
//! descriptors and the tree header; and the reading of one tree node.
use vstd::prelude::*;
use crate::binary_option::{self, BinaryOption, has_bits};
use crate::column::Column;
use crate::error::Error;
use crate::utility::{self, le_u32_at, utf8_str, utf8_text};
use crate::variable_length_int::{self, varint_value, varint_from, pow128};

verus! {

/// The only format version this reader accepts.
pub const RUST_IPQS_READER_VERSION: u8 = 0x01;

pub const IPV4_MAP: u8 = 0x01;
pub const IPV6_MAP: u8 = 0x02;
pub const BLACKLIST_FILE: u8 = 0x04;
pub const BINARY_DATA: u8 = 0x80;

/// Length of the fixed file header.
pub const FILE_HEADER_LENGTH: usize = 11;
/// Length of one column descriptor.
pub const COLUMN_DESCRIPTOR_LENGTH: usize = 24;
/// Length of the tree header.
pub const TREE_HEADER_LENGTH: usize = 5;

/// The first failed check of the file header `h`, if any, in the order in
/// which they are made.
pub open spec fn header_error(h: Seq<u8>) -> Option<Error> {
    if h.len() < 11 {
        Some(Error::TruncatedFile)
    } else if has_bits(h[0], IPV6_MAP) == has_bits(h[0], IPV4_MAP) {
        Some(Error::BadMagic)
    } else if h[1] != RUST_IPQS_READER_VERSION {
        Some(Error::BadVersion)
    } else if varint_value(h.subrange(2, 5)) is None {
        Some(Error::MalformedVarint)
    } else if varint_value(h.subrange(2, 5))->Some_0 < 11 {
        Some(Error::BadHeaderSize)
    } else if varint_value(h.subrange(2, 5))->Some_0 == 11 {
        Some(Error::NoColumns)
    } else if (varint_value(h.subrange(2, 5))->Some_0 - 11) % 24 != 0 {
        Some(Error::BadColumnBlockLength)
    } else if varint_value(h.subrange(5, 7)) is None {
        Some(Error::MalformedVarint)
    } else if varint_value(h.subrange(5, 7))->Some_0 == 0 {
        Some(Error::BadRecordSize)
    } else {
        None
    }
}

/// What the file header says of the file.
#[derive(Clone, Copy, Debug)]
pub struct FileHeader {
    pub binary_data: bool,
    pub is_v6: bool,
    pub is_blacklist: bool,
    /// Offset of the tree header: the length of the file header and the
    /// column descriptors together.
    pub tree_start: u64,
    pub columns_bytes_length: usize,
    pub record_bytes_length: usize,
}

impl FileHeader {
    /// The invariants that every parsed header meets.
    pub open spec fn wf(&self) -> bool {
        &&& 11 < self.tree_start < 0x20_0000
        &&& self.columns_bytes_length == self.tree_start - 11
        &&& self.columns_bytes_length % 24 == 0
        &&& 0 < self.record_bytes_length < 0x4000
    }

    /// Whether this header is the one that the bytes `h` encode.
    pub open spec fn decoded_from(&self, h: Seq<u8>) -> bool {
        &&& header_error(h) is None
        &&& self.binary_data == has_bits(h[0], BINARY_DATA)
        &&& self.is_v6 == has_bits(h[0], IPV6_MAP)
        &&& self.is_blacklist == has_bits(h[0], BLACKLIST_FILE)
        &&& self.tree_start == varint_value(h.subrange(2, 5))->Some_0
        &&& self.record_bytes_length == varint_value(h.subrange(5, 7))->Some_0
    }

    /// Parses and checks the eleven bytes of the file header.
    pub fn parse(header: &[u8]) -> (r: Result<FileHeader, Error>)
        ensures
            r is Ok <==> header_error(header@) is None,
            r matches Err(e) ==> header_error(header@) == Some(e),
            r matches Ok(fh) ==> fh.decoded_from(header@) && fh.wf(),
    {
        if header.len() < FILE_HEADER_LENGTH {
            return Err(Error::TruncatedFile);
        }
        let binary_option = BinaryOption { data: header[0] };
        let binary_data = binary_option.has(BINARY_DATA);
        let is_v6 = binary_option.has(IPV6_MAP);
        // exactly one address family
        if is_v6 == binary_option.has(IPV4_MAP) {
            return Err(Error::BadMagic);
        }
        let is_blacklist = binary_option.has(BLACKLIST_FILE);
        if header[1] != RUST_IPQS_READER_VERSION {
            return Err(Error::BadVersion);
        }
        let tree_start = variable_length_int::uvarint64(&header[2..5])?;
        proof {
            lemma_short_varint(header@.subrange(2, 5), 0);
            assert(pow128(3) == 0x20_0000) by {
                reveal_with_fuel(pow128, 4);
            }
        }
        if tree_start < 11 {
            return Err(Error::BadHeaderSize);
        }
        let columns_bytes_length = (tree_start - 11) as usize;
        if columns_bytes_length == 0 {
            return Err(Error::NoColumns);
        }
        if columns_bytes_length % COLUMN_DESCRIPTOR_LENGTH != 0 {
            return Err(Error::BadColumnBlockLength);
        }
        let record_bytes = variable_length_int::uvarint64(&header[5..7])?;
        proof {
            lemma_short_varint(header@.subrange(5, 7), 0);
            assert(pow128(2) == 0x4000) by {
                reveal_with_fuel(pow128, 3);
            }
        }
        if record_bytes == 0 {
            return Err(Error::BadRecordSize);
        }
        Ok(
            FileHeader {
                binary_data,
                is_v6,
                is_blacklist,
                tree_start,
                columns_bytes_length,
                record_bytes_length: record_bytes as usize,
            },
        )
    }
}

/// A varint read from a short window is below the largest value that the
/// window's bytes can carry.
proof fn lemma_short_varint(b: Seq<u8>, i: int)
    requires
        0 <= i <= b.len() <= 9,
    ensures
        varint_from(b, i) matches Some(v) ==> 0 <= v < pow128((b.len() - i) as nat),
    decreases b.len() - i,
{
    if i < b.len() {
        lemma_short_varint(b, i + 1);
        let n = (b.len() - i) as nat;
        assert(pow128(n) == 128 * pow128((n - 1) as nat));
        if let Some(v) = varint_from(b, i + 1) {
            assert((b[i] - 0x80) + 0x80 * v < pow128(n) || b[i] < 0x80) by (nonlinear_arith)
                requires
                    v < pow128((n - 1) as nat),
                    b[i] < 0x80 || 0 <= b[i] - 0x80 < 0x80,
                    pow128(n) == 128 * pow128((n - 1) as nat),
            ;
        }
        if b[i] < 0x80 {
            lemma_pow_ge_128(n);
        }
    }
}

proof fn lemma_pow_ge_128(n: nat)
    requires
        n >= 1,
    ensures
        pow128(n) >= 128,
    decreases n,
{
    if n > 1 {
        lemma_pow_ge_128((n - 1) as nat);
    } else {
        reveal_with_fuel(pow128, 2);
    }
}

/// The name in descriptor `k` of the block: its first 23 bytes, less the NUL
/// bytes at their end.
pub open spec fn descriptor_name(block: Seq<u8>, k: int) -> Seq<u8> {
    trim_nuls(block.subrange(24 * k, 24 * k + 23))
}

/// The type flags in descriptor `k` of the block: its last byte.
pub open spec fn descriptor_flags(block: Seq<u8>, k: int) -> u8 {
    block[24 * k + 23]
}

/// `s` without the NUL bytes at its end.
pub open spec fn trim_nuls(s: Seq<u8>) -> Seq<u8>
    decreases s.len(),
{
    if s.len() > 0 && s.last() == 0 {
        trim_nuls(s.drop_last())
    } else {
        s
    }
}

/// The columns that the descriptor block declares, in order.
pub struct ColumnsBlock {
    pub columns: Vec<Column>,
}

impl ColumnsBlock {
    /// Whether `columns` are the ones that the first `n` descriptors of
    /// `block` declare.
    pub open spec fn declared_by(columns: Seq<Column>, block: Seq<u8>, n: int) -> bool {
        &&& columns.len() == n
        &&& forall|k: int|
            0 <= k < n ==> utf8_text(#[trigger] descriptor_name(block, k)) == Some(columns[k]@.0)
                && columns[k]@.1 == descriptor_flags(block, k)
    }

    /// Reads the column descriptors that the header announces.
    pub fn parse(file_header: &FileHeader, column_bytes: &[u8]) -> (r: Result<ColumnsBlock, Error>)
        requires
            file_header.wf(),
        ensures
            ({
                let n = (file_header.columns_bytes_length / 24) as int;
                &&& column_bytes@.len() < file_header.columns_bytes_length ==> r == Err::<
                    ColumnsBlock,
                    Error,
                >(Error::TruncatedFile)
                &&& column_bytes@.len() >= file_header.columns_bytes_length ==> {
                    &&& r is Ok <==> forall|k: int|
                        0 <= k < n ==> utf8_text(#[trigger] descriptor_name(column_bytes@, k)) is Some
                    &&& r matches Err(e) ==> e == Error::BadColumnName
                    &&& r matches Ok(cb) ==> Self::declared_by(cb.columns@, column_bytes@, n)
                }
            }),
    {
        if column_bytes.len() < file_header.columns_bytes_length {
            return Err(Error::TruncatedFile);
        }
        let number_of_columns = file_header.columns_bytes_length / COLUMN_DESCRIPTOR_LENGTH;
        let mut columns: Vec<Column> = Vec::new();
        let mut column: usize = 0;
        while column < number_of_columns
            invariant
                number_of_columns == file_header.columns_bytes_length / 24,
                file_header.columns_bytes_length <= column_bytes@.len(),
                column <= number_of_columns,
                Self::declared_by(columns@, column_bytes@, column as int),
                forall|k: int|
                    0 <= k < column ==> utf8_text(#[trigger] descriptor_name(column_bytes@, k)) is Some,
            decreases number_of_columns - column,
        {
            let b = column * COLUMN_DESCRIPTOR_LENGTH;
            let e = b + COLUMN_DESCRIPTOR_LENGTH - 1;
            let mut end = e;
            while end > b && column_bytes[end - 1] == 0
                invariant
                    b <= end <= e,
                    e < column_bytes@.len(),
                    trim_nuls(column_bytes@.subrange(b as int, end as int)) == descriptor_name(
                        column_bytes@,
                        column as int,
                    ),
                decreases end,
            {
                assert(column_bytes@.subrange(b as int, end as int).drop_last() =~= column_bytes@.subrange(
                    b as int,
                    end - 1,
                ));
                end = end - 1;
            }
            let name = match utf8_str(&column_bytes[b..end]) {
                Some(name) => name,
                None => {
                    assert(column_bytes@.subrange(b as int, end as int) == descriptor_name(
                        column_bytes@,
                        column as int,
                    ));
                    return Err(Error::BadColumnName);
                },
            };
            assert(column_bytes@.subrange(b as int, end as int) == descriptor_name(
                column_bytes@,
                column as int,
            ));
            columns.push(
                Column { name: name.to_owned(), record_type: BinaryOption { data: column_bytes[e] } },
            );
            column = column + 1;
        }
        Ok(ColumnsBlock { columns })
    }
}

/// Where the tree ends.
#[derive(Clone, Copy, Debug)]
pub struct TreeHeader {
    pub tree_end: u64,
}

impl TreeHeader {
    /// Checks the five bytes of the tree header and finds where the tree ends.
    pub fn parse(file_header: &FileHeader, tree_header: &[u8]) -> (r: Result<TreeHeader, Error>)
        requires
            file_header.wf(),
        ensures
            tree_header@.len() < 5 ==> r == Err::<TreeHeader, Error>(Error::TruncatedFile),
            tree_header@.len() >= 5 ==> {
                &&& !has_bits(tree_header@[0], binary_option::TREE_DATA) ==> r == Err::<
                    TreeHeader,
                    Error,
                >(Error::BadTreeFlag)
                &&& has_bits(tree_header@[0], binary_option::TREE_DATA) && le_u32_at(
                    tree_header@,
                    1,
                ) == 0 ==> r == Err::<TreeHeader, Error>(Error::EmptyTree)
                &&& has_bits(tree_header@[0], binary_option::TREE_DATA) && le_u32_at(
                    tree_header@,
                    1,
                ) != 0 ==> (r matches Ok(th) && th.tree_end == file_header.tree_start
                    + le_u32_at(tree_header@, 1))
            },
    {
        if tree_header.len() < TREE_HEADER_LENGTH {
            return Err(Error::TruncatedFile);
        }
        let tree_type = BinaryOption { data: tree_header[0] };
        if !tree_type.has(binary_option::TREE_DATA) {
            return Err(Error::BadTreeFlag);
        }
        let total_tree = utility::four_byte_int(&tree_header[1..5]);
        if total_tree == 0 {
            return Err(Error::EmptyTree);
        }
        Ok(TreeHeader { tree_end: file_header.tree_start + total_tree })
    }
}

/// Where a child pointer of a node leads.
#[derive(Clone, Copy, Debug, PartialEq, Eq, Structural)]
pub enum NodeResult {
    /// No child on that side: a hole.
    Missing,
    /// Another tree node, at this offset.
    NextNode(u64),
    /// A leaf record, at this offset.
    Record(u64),
}

/// How a child pointer `v` is read against the bounds of the tree.
pub open spec fn classify(v: int, tree_start: int, tree_end: int) -> NodeResult {
    if v < tree_start {
        NodeResult::Missing
    } else if v >= tree_end {
        NodeResult::Record(v as u64)
    } else {
        NodeResult::NextNode(v as u64)
    }
}

/// The child pointer of an eight-byte node on the side that `bit` picks.
pub open spec fn child_of(node: Seq<u8>, bit: bool) -> int {
    le_u32_at(node, if bit { 4 } else { 0 })
}

/// Follows the child of `node` that `bit` picks: the 0-child in bytes 0 to 3,
/// the 1-child in bytes 4 to 7.
pub fn next_node(bit: bool, node: &[u8], tree_start: u64, tree_end: u64) -> (r: NodeResult)
    requires
        node@.len() == 8,
    ensures
        r == classify(child_of(node@, bit), tree_start as int, tree_end as int),
{
    let value = if bit {
        utility::four_byte_int(&node[4..8])
    } else {
        utility::four_byte_int(&node[0..4])
    };
    if value < tree_start {
        NodeResult::Missing
    } else if value >= tree_end {
        NodeResult::Record(value)
    } else {
        NodeResult::NextNode(value)
    }
}

} // verus!
