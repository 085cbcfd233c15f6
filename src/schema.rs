//! What a reader knows of its file once the front structures are parsed, and
//! what a lookup over a file returns, stated over the file's bytes.
use vstd::prelude::*;
use crate::address::Address;
use crate::binary_option::{self, has_bits};
use crate::column::Column;
use crate::error::Error;
use crate::layout::{Columns, named_offset};
use crate::parse::{self, header_error, descriptor_name, descriptor_flags, ColumnsBlock, FileHeader, TreeHeader};
use crate::tree::lookup_leaf;
use crate::utility::{le_u32_at, pool_string, utf8_text};
use crate::variable_length_int::varint_value;

verus! {

/// A leaf record as values: what every accessor of a record returns.
pub struct RecordView {
    /// The two flag bytes, where the file has them.
    pub flag_bytes: Option<(u8, u8)>,
    /// The byte that holds connection type and abuse velocity.
    pub common: u8,
    pub country: Option<Seq<char>>,
    pub city: Option<Seq<char>>,
    pub region: Option<Seq<char>>,
    pub isp: Option<Seq<char>>,
    pub organization: Option<Seq<char>>,
    pub timezone: Option<Seq<char>>,
    pub asn: Option<u64>,
    /// The IEEE-754 bits of the latitude.
    pub latitude: Option<u32>,
    /// The IEEE-754 bits of the longitude.
    pub longitude: Option<u32>,
    /// The fraud score at each strictness, 0 to 3.
    pub fraud_score: Seq<Option<u32>>,
}

/// The flags of the first flag byte that `mask` selects.
pub open spec fn first_flag(v: RecordView, mask: u8) -> Option<bool> {
    match v.flag_bytes {
        Some((a, _)) => Some(has_bits(a, mask)),
        None => None,
    }
}

/// The flags of the second flag byte that `mask` selects.
pub open spec fn second_flag(v: RecordView, mask: u8) -> Option<bool> {
    match v.flag_bytes {
        Some((_, b)) => Some(has_bits(b, mask)),
        None => None,
    }
}

/// The four-byte integer at offset `o` of the record `raw`.
pub open spec fn int_at(raw: Seq<u8>, o: Option<usize>) -> Option<u64> {
    match o {
        Some(v) => Some(le_u32_at(raw, v as int) as u64),
        None => None,
    }
}

/// The four bytes at offset `o` of the record `raw`, as the bits of a float.
pub open spec fn bits_at(raw: Seq<u8>, o: Option<usize>) -> Option<u32> {
    match o {
        Some(v) => Some(le_u32_at(raw, v as int) as u32),
        None => None,
    }
}

/// The byte at offset `o` of the record `raw`.
pub open spec fn small_at(raw: Seq<u8>, o: Option<usize>) -> Option<u32> {
    match o {
        Some(v) => Some(raw[v as int] as u32),
        None => None,
    }
}

/// The pooled string of file `f` that offset `o` of the record `raw` points to.
pub open spec fn string_at(f: Seq<u8>, raw: Seq<u8>, o: Option<usize>) -> Option<Seq<char>> {
    match o {
        Some(v) => pool_string(f, le_u32_at(raw, v as int)),
        None => None,
    }
}

/// Whether the string column at `o`, if there is one, points to a readable
/// string.
pub open spec fn string_ok(f: Seq<u8>, raw: Seq<u8>, o: Option<usize>) -> bool {
    o is None || string_at(f, raw, o) is Some
}

/// Where the tree of file `f` starts, as its header says.
pub open spec fn declared_tree_start(f: Seq<u8>) -> int {
    varint_value(f.subrange(2, 5))->Some_0
}

/// The column descriptor block of file `f`.
pub open spec fn column_block(f: Seq<u8>) -> Seq<u8> {
    f.subrange(11, declared_tree_start(f))
}

/// The columns that file `f` declares: name and type flags of each.
pub open spec fn declared_columns(f: Seq<u8>) -> Seq<(Seq<char>, u8)> {
    Seq::new(
        ((declared_tree_start(f) - 11) / 24) as nat,
        |k: int|
            (
                utf8_text(descriptor_name(column_block(f), k))->Some_0,
                descriptor_flags(column_block(f), k),
            ),
    )
}

/// Whether the named column `name`, read as `n` bytes, lies within a record
/// of `record_bytes`.
pub open spec fn named_fits(columns: Seq<(Seq<char>, u8)>, binary_data: bool, name: Seq<char>, n: int, record_bytes: int) -> bool {
    named_offset(columns, binary_data, name) matches Some(o) ==> o + n <= record_bytes
}

/// Whether every named column lies within a record of `record_bytes`, after
/// the flag bytes and the common byte.
pub open spec fn layout_fits(columns: Seq<(Seq<char>, u8)>, binary_data: bool, record_bytes: int) -> bool {
    &&& (if binary_data { 3int } else { 1int }) <= record_bytes
    &&& named_fits(columns, binary_data, "ASN"@, 4, record_bytes)
    &&& named_fits(columns, binary_data, "Latitude"@, 4, record_bytes)
    &&& named_fits(columns, binary_data, "Longitude"@, 4, record_bytes)
    &&& named_fits(columns, binary_data, "ZeroFraudScore"@, 1, record_bytes)
    &&& named_fits(columns, binary_data, "OneFraudScore"@, 1, record_bytes)
    &&& named_fits(columns, binary_data, "TwoFraudScore"@, 1, record_bytes)
    &&& named_fits(columns, binary_data, "ThreeFraudScore"@, 1, record_bytes)
    &&& named_fits(columns, binary_data, "Country"@, 4, record_bytes)
    &&& named_fits(columns, binary_data, "City"@, 4, record_bytes)
    &&& named_fits(columns, binary_data, "Region"@, 4, record_bytes)
    &&& named_fits(columns, binary_data, "ISP"@, 4, record_bytes)
    &&& named_fits(columns, binary_data, "Organization"@, 4, record_bytes)
    &&& named_fits(columns, binary_data, "Timezone"@, 4, record_bytes)
}

/// The first check that the front of file `f` fails, if any: the file
/// header, the column descriptors, the tree header, and whether records have
/// room for their named columns. Where `resident`, the tree must also end
/// within the file.
pub open spec fn open_error(f: Seq<u8>, resident: bool) -> Option<Error> {
    if f.len() < 11 {
        Some(Error::TruncatedFile)
    } else if header_error(f.subrange(0, 11)) is Some {
        header_error(f.subrange(0, 11))
    } else if f.len() < declared_tree_start(f) {
        Some(Error::TruncatedFile)
    } else if !(forall|k: int|
        0 <= k < (declared_tree_start(f) - 11) / 24 ==> utf8_text(
            #[trigger] descriptor_name(column_block(f), k),
        ) is Some) {
        Some(Error::BadColumnName)
    } else if f.len() < declared_tree_start(f) + 5 {
        Some(Error::TruncatedFile)
    } else if !has_bits(f[declared_tree_start(f)], binary_option::TREE_DATA) {
        Some(Error::BadTreeFlag)
    } else if le_u32_at(f, declared_tree_start(f) + 1) == 0 {
        Some(Error::EmptyTree)
    } else if !layout_fits(
        declared_columns(f),
        has_bits(f[0], parse::BINARY_DATA),
        varint_value(f.subrange(5, 7))->Some_0,
    ) {
        Some(Error::BadRecordSize)
    } else if resident && declared_tree_start(f) + le_u32_at(f, declared_tree_start(f) + 1)
        > f.len() {
        Some(Error::TruncatedFile)
    } else {
        None
    }
}

/// Whether file `f` begins with the header `header` and goes on with the
/// column descriptors `column_bytes` and then the tree header, which
/// `tree_header` holds where the file is long enough to have one.
pub open spec fn front_matches(f: Seq<u8>, header: FileHeader, column_bytes: Seq<u8>, tree_header: Option<Seq<u8>>) -> bool {
    &&& f.len() >= header.tree_start
    &&& header.decoded_from(f.subrange(0, 11))
    &&& f.subrange(11, header.tree_start as int) == column_bytes
    &&& match tree_header {
        Some(t) => f.len() >= header.tree_start + 5 && f.subrange(
            header.tree_start as int,
            header.tree_start + 5,
        ) == t,
        None => f.len() < header.tree_start + 5,
    }
}

/// The bytes of an optional slice.
pub open spec fn opt_bytes(s: Option<&[u8]>) -> Option<Seq<u8>> {
    match s {
        Some(v) => Some(v@),
        None => None,
    }
}

/// What a reader holds of its file: the header bits, the bounds of the tree
/// and the layout of a record.
#[derive(Clone, Copy, Debug)]
pub struct Schema {
    pub binary_data: bool,
    pub is_v6: bool,
    pub is_blacklist: bool,
    pub tree_start: u64,
    pub tree_end: u64,
    pub record_bytes: usize,
    pub columns: Columns,
}

impl Schema {
    pub open spec fn wf(&self) -> bool {
        &&& 11 < self.tree_start < 0x20_0000
        &&& self.tree_start < self.tree_end < self.tree_start + 0x1_0000_0000
        &&& 0 < self.record_bytes < 0x4000
        &&& self.columns.fits(self.binary_data, self.record_bytes as int)
    }

    /// Whether this schema is what the front of file `f` declares.
    pub open spec fn opened_from(&self, f: Seq<u8>) -> bool {
        &&& f.len() >= 11
        &&& self.binary_data == has_bits(f[0], parse::BINARY_DATA)
        &&& self.is_v6 == has_bits(f[0], parse::IPV6_MAP)
        &&& self.is_blacklist == has_bits(f[0], parse::BLACKLIST_FILE)
        &&& self.tree_start == declared_tree_start(f)
        &&& self.record_bytes == varint_value(f.subrange(5, 7))->Some_0
        &&& self.tree_end == self.tree_start + le_u32_at(f, self.tree_start + 1)
        &&& self.columns.laid_out(declared_columns(f), self.binary_data)
    }

    /// Reads the column descriptors and the tree header that follow a parsed
    /// file header, and lays out the records.
    pub fn assemble(header: &FileHeader, column_bytes: &[u8], tree_header: Option<&[u8]>) -> (r: Result<(Schema, Vec<Column>), Error>)
        requires
            header.wf(),
            column_bytes@.len() == header.columns_bytes_length,
            tree_header matches Some(t) ==> t@.len() == 5,
        ensures
            forall|f: Seq<u8>|
                #[trigger] front_matches(f, *header, column_bytes@, opt_bytes(tree_header)) ==> match r {
                    Ok((schema, columns)) => {
                        &&& open_error(f, false) is None
                        &&& schema.wf()
                        &&& schema.opened_from(f)
                        &&& columns@.map_values(|c: Column| c@) == declared_columns(f)
                    },
                    Err(e) => open_error(f, false) == Some(e),
                },
    {
        let block = ColumnsBlock::parse(header, column_bytes);
        let ghost n = (header.columns_bytes_length / 24) as int;
        let ghost ts = header.tree_start as int;
        assert forall|f: Seq<u8>| #[trigger] front_matches(f, *header, column_bytes@, opt_bytes(tree_header)) implies {
            &&& declared_tree_start(f) == ts
            &&& column_block(f) == column_bytes@
            &&& header_error(f.subrange(0, 11)) is None
            &&& has_bits(f[0], parse::BINARY_DATA) == header.binary_data
            &&& varint_value(f.subrange(5, 7))->Some_0 == header.record_bytes_length
            &&& (tree_header matches Some(t) ==> f[ts] == t@[0] && le_u32_at(f, ts + 1) == le_u32_at(t@, 1))
        } by {
            assert(f.subrange(0, 11).subrange(2, 5) =~= f.subrange(2, 5));
            assert(f.subrange(0, 11).subrange(5, 7) =~= f.subrange(5, 7));
            assert(f.subrange(0, 11)[0] == f[0]);
            if let Some(t) = tree_header {
                assert(t@[0] == f[ts]);
                assert(t@[1] == f[ts + 1]);
                assert(t@[2] == f[ts + 2]);
                assert(t@[3] == f[ts + 3]);
                assert(t@[4] == f[ts + 4]);
            }
        }
        let block = match block {
            Ok(block) => block,
            Err(e) => {
                return Err(e);
            },
        };
        let tree_header = match tree_header {
            Some(t) => t,
            None => {
                return Err(Error::TruncatedFile);
            },
        };
        let tree = TreeHeader::parse(header, tree_header);
        let tree = match tree {
            Ok(tree) => tree,
            Err(e) => {
                return Err(e);
            },
        };
        let columns = Columns::new(header, &block.columns);
        let ghost cols = block.columns@.map_values(|c: Column| c@);
        assert forall|f: Seq<u8>| #[trigger] front_matches(f, *header, column_bytes@, opt_bytes(Some(tree_header))) implies declared_columns(f) == cols by {
            assert(column_block(f) == column_bytes@);
            assert(declared_columns(f) =~= cols);
        }
        proof {
            assert(columns.fits(header.binary_data, header.record_bytes_length as int) == layout_fits(
                cols,
                header.binary_data,
                header.record_bytes_length as int,
            ));
        }
        if !columns.fits_record(header.binary_data, header.record_bytes_length) {
            return Err(Error::BadRecordSize);
        }
        let schema = Schema {
            binary_data: header.binary_data,
            is_v6: header.is_v6,
            is_blacklist: header.is_blacklist,
            tree_start: header.tree_start,
            tree_end: tree.tree_end,
            record_bytes: header.record_bytes_length,
            columns,
        };
        Ok((schema, block.columns))
    }

    /// Whether every string column of the record `raw` points to a readable
    /// string of `f`.
    pub open spec fn strings_ok(&self, f: Seq<u8>, raw: Seq<u8>) -> bool {
        &&& string_ok(f, raw, self.columns.country)
        &&& string_ok(f, raw, self.columns.city)
        &&& string_ok(f, raw, self.columns.region)
        &&& string_ok(f, raw, self.columns.isp)
        &&& string_ok(f, raw, self.columns.organization)
        &&& string_ok(f, raw, self.columns.timezone)
    }

    /// The values of the record `raw` of file `f`.
    pub open spec fn leaf_view(&self, f: Seq<u8>, raw: Seq<u8>) -> RecordView {
        let c = self.columns;
        RecordView {
            flag_bytes: if self.binary_data {
                Some((raw[0], raw[1]))
            } else {
                None
            },
            common: raw[if self.binary_data {
                2int
            } else {
                0int
            }],
            country: string_at(f, raw, c.country),
            city: string_at(f, raw, c.city),
            region: string_at(f, raw, c.region),
            isp: string_at(f, raw, c.isp),
            organization: string_at(f, raw, c.organization),
            timezone: string_at(f, raw, c.timezone),
            asn: int_at(raw, c.asn),
            latitude: bits_at(raw, c.latitude),
            longitude: bits_at(raw, c.longitude),
            fraud_score: Seq::new(4, |i: int| small_at(raw, c.fraud_score@[i])),
        }
    }

    /// The bytes of the record at `leaf` of file `f`.
    pub open spec fn raw_record(&self, f: Seq<u8>, leaf: int) -> Seq<u8> {
        f.subrange(leaf, leaf + self.record_bytes)
    }

    /// The record at offset `leaf` of file `f`, or why it cannot be read.
    pub open spec fn leaf_record(&self, f: Seq<u8>, leaf: int) -> Result<RecordView, Error> {
        if leaf + self.record_bytes > f.len() {
            Err(Error::TruncatedLeaf)
        } else if !self.strings_ok(f, self.raw_record(f, leaf)) {
            Err(Error::BadString)
        } else {
            Ok(self.leaf_view(f, self.raw_record(f, leaf)))
        }
    }

    /// What a lookup of `address` in file `f` returns.
    pub open spec fn lookup(&self, f: Seq<u8>, address: Address) -> Result<RecordView, Error> {
        if address.spec_is_ipv6() != self.is_v6 {
            Err(Error::WrongFamily)
        } else {
            match lookup_leaf(
                f,
                address,
                self.tree_start as int,
                self.tree_end as int,
                self.is_blacklist,
            ) {
                Ok(p) => self.leaf_record(f, p as int),
                Err(e) => Err(e),
            }
        }
    }
}

/// A lookup of an address of the other family than the file's fails with
/// `WrongFamily`, whatever the file holds.
pub proof fn family_gate(schema: Schema, f: Seq<u8>, address: Address)
    requires
        address.spec_is_ipv6() != schema.is_v6,
    ensures
        schema.lookup(f, address) == Err::<RecordView, Error>(Error::WrongFamily),
{
}

/// The layout of a record is fixed by the columns: two layouts of the same
/// columns are one.
pub proof fn layout_unique(a: Columns, b: Columns, columns: Seq<(Seq<char>, u8)>, binary_data: bool)
    requires
        a.laid_out(columns, binary_data),
        b.laid_out(columns, binary_data),
    ensures
        a == b,
{
    assert(a.fraud_score@ =~= b.fraud_score@);
    assert(a.fraud_score == b.fraud_score);
}

/// Two readers opened on the same file hold the same schema, and so give
/// the same result for every lookup.
pub proof fn same_file_same_lookups(a: Schema, b: Schema, f: Seq<u8>, address: Address)
    requires
        a.opened_from(f),
        b.opened_from(f),
    ensures
        a == b,
        a.lookup(f, address) == b.lookup(f, address),
{
    layout_unique(a.columns, b.columns, declared_columns(f), a.binary_data);
}

} // verus!
