//! The streaming reader: it keeps only the parsed front of the file and asks
//! its caller for every further byte, through a function that reads `n` bytes
//! at an offset.
use vstd::prelude::*;
use crate::address::Address;
use crate::column::Column;
use crate::error::Error;
use crate::parse::{FileHeader, FILE_HEADER_LENGTH, TREE_HEADER_LENGTH};
use crate::schema::{RecordView, Schema, declared_columns, front_matches, open_error, opt_bytes};
use crate::tree::{Step, Walk, MAX_WALK_STEPS, walk, lookup_leaf, node_bytes};
use crate::utility::{pool_string, utf8_str};

pub mod record;

pub use record::Record;

verus! {

/// Whether `read` hands out the bytes of file `f`: the `n` bytes at
/// `offset` where the file has them, and nothing where it ends first.
pub open spec fn reads_from<F: Fn(u64, usize) -> Option<Vec<u8>>>(read: F, f: Seq<u8>) -> bool {
    forall|offset: u64, n: usize, r: Option<Vec<u8>>|
        #[trigger] call_ensures(read, (offset, n), r) ==> match r {
            Some(v) => offset + n <= f.len() && v@ == f.subrange(offset as int, offset + n),
            None => offset + n > f.len(),
        }
}

/// Whether `read` may be called on any offset and length.
pub open spec fn reads_anywhere<F: Fn(u64, usize) -> Option<Vec<u8>>>(read: F) -> bool {
    forall|offset: u64, n: usize| call_requires(read, (offset, n))
}

/// Reads the string that starts at `start` of the pool: a length byte, then
/// that many bytes of UTF-8.
pub fn read_pool_string<F: Fn(u64, usize) -> Option<Vec<u8>>>(read: &F, start: u64) -> (r: Option<String>)
    requires
        reads_anywhere(*read),
        start < 0x1_0000_0000,
    ensures
        forall|f: Seq<u8>|
            #[trigger] reads_from(*read, f) ==> crate::file_reader::record::opt_text(r)
                == pool_string(f, start as int),
{
    let size = match read(start, 1) {
        Some(v) => v,
        None => {
            return None;
        },
    };
    if size.len() != 1 {
        return None;
    }
    let n = size[0] as usize;
    let content = match read(start + 1, n) {
        Some(v) => v,
        None => {
            return None;
        },
    };
    if content.len() != n {
        return None;
    }
    match utf8_str(content.as_slice()) {
        Some(s) => Some(s.to_owned()),
        None => None,
    }
}

/// A database read on demand.
pub struct FileReader {
    pub schema: Schema,
    pub columns: Vec<Column>,
}

impl FileReader {
    pub open spec fn wf(&self) -> bool {
        self.schema.wf()
    }

    /// Whether this reader holds what the front of file `f` declares.
    pub open spec fn opened_from(&self, f: Seq<u8>) -> bool {
        &&& self.schema.opened_from(f)
        &&& self.columns@.map_values(|c: Column| c@) == declared_columns(f)
    }

    /// Reads and checks the file header, the column descriptors and the tree
    /// header.
    pub fn from_source<F: Fn(u64, usize) -> Option<Vec<u8>>>(read: &F) -> (r: Result<FileReader, Error>)
        requires
            reads_anywhere(*read),
        ensures
            forall|f: Seq<u8>|
                #[trigger] reads_from(*read, f) ==> match r {
                    Ok(reader) => open_error(f, false) is None && reader.wf() && reader.opened_from(f),
                    Err(e) => open_error(f, false) == Some(e),
                },
    {
        let header = match read(0, FILE_HEADER_LENGTH) {
            Some(v) => v,
            None => {
                return Err(Error::TruncatedFile);
            },
        };
        let header_fields = FileHeader::parse(header.as_slice());
        assert forall|f: Seq<u8>| #[trigger] reads_from(*read, f) implies f.len() >= 11 && header@
            == f.subrange(0, 11) && f.subrange(0, 11).subrange(2, 5) == f.subrange(2, 5) by {
            assert(f.subrange(0, 11).subrange(2, 5) =~= f.subrange(2, 5));
        }
        let header_fields = header_fields?;
        let tree_start = header_fields.tree_start;
        let column_bytes = match read(FILE_HEADER_LENGTH as u64, header_fields.columns_bytes_length) {
            Some(v) => v,
            None => {
                return Err(Error::TruncatedFile);
            },
        };
        if column_bytes.len() != header_fields.columns_bytes_length {
            return Err(Error::TruncatedFile);
        }
        let tree_header = read(tree_start, TREE_HEADER_LENGTH);
        let tree_slice = match &tree_header {
            Some(v) => {
                if v.len() != TREE_HEADER_LENGTH {
                    return Err(Error::TruncatedFile);
                }
                Some(v.as_slice())
            },
            None => None,
        };
        assert forall|f: Seq<u8>| #[trigger] reads_from(*read, f) implies front_matches(
            f,
            header_fields,
            column_bytes@,
            opt_bytes(tree_slice),
        ) by {}
        let (schema, columns) = Schema::assemble(&header_fields, column_bytes.as_slice(), tree_slice)?;
        Ok(FileReader { schema, columns })
    }

    /// Looks up the record that covers `ip`, reading nodes, the leaf and its
    /// strings through `read`.
    pub fn fetch<F: Fn(u64, usize) -> Option<Vec<u8>>>(&self, read: &F, ip: &Address) -> (r: Result<Record, Error>)
        requires
            self.wf(),
            reads_anywhere(*read),
        ensures
            forall|f: Seq<u8>|
                #[trigger] reads_from(*read, f) ==> match r {
                    Ok(rec) => self.schema.lookup(f, *ip) == Ok::<RecordView, Error>(rec@),
                    Err(e) => self.schema.lookup(f, *ip) == Err::<RecordView, Error>(e),
                },
    {
        if ip.is_ipv6() != self.schema.is_v6 {
            return Err(Error::WrongFamily);
        }
        let tree_start = self.schema.tree_start;
        let tree_end = self.schema.tree_end;
        let is_blacklist = self.schema.is_blacklist;
        let mut walker = Walk::start(ip, tree_start);
        let mut steps: usize = 0;
        while steps < MAX_WALK_STEPS
            invariant
                self.wf(),
                reads_anywhere(*read),
                walker.wf(),
                steps <= MAX_WALK_STEPS,
                ip.spec_is_ipv6() == self.schema.is_v6,
                tree_start == self.schema.tree_start,
                tree_end == self.schema.tree_end,
                is_blacklist == self.schema.is_blacklist,
                forall|f: Seq<u8>|
                    #[trigger] reads_from(*read, f) ==> lookup_leaf(
                        f,
                        *ip,
                        tree_start as int,
                        tree_end as int,
                        is_blacklist,
                    ) == walk(
                        f,
                        walker@,
                        tree_start as int,
                        tree_end as int,
                        is_blacklist,
                        (MAX_WALK_STEPS - steps) as nat,
                    ),
            decreases MAX_WALK_STEPS - steps,
        {
            if walker.exhausted() {
                return Err(Error::AddressExhausted);
            }
            let node = match read(walker.node, 8) {
                Some(v) => v,
                None => {
                    return Err(Error::TruncatedFile);
                },
            };
            if node.len() != 8 {
                return Err(Error::TruncatedFile);
            }
            let ghost before = walker@;
            let step = walker.step(node.as_slice(), tree_start, tree_end, is_blacklist);
            assert forall|f: Seq<u8>| #[trigger] reads_from(*read, f) implies node@ == node_bytes(
                f,
                before.node,
            ) by {}
            match step {
                Step::Leaf(p) => {
                    return self.read_record(read, p);
                },
                Step::Stop(e) => {
                    return Err(e);
                },
                Step::Descend => {},
            }
            steps = steps + 1;
        }
        Err(Error::TreeTooDeep)
    }

    /// Reads and decodes the leaf record at `offset`.
    fn read_record<F: Fn(u64, usize) -> Option<Vec<u8>>>(&self, read: &F, offset: u64) -> (r: Result<Record, Error>)
        requires
            self.wf(),
            reads_anywhere(*read),
        ensures
            forall|f: Seq<u8>|
                #[trigger] reads_from(*read, f) ==> match r {
                    Ok(rec) => self.schema.leaf_record(f, offset as int) == Ok::<RecordView, Error>(rec@),
                    Err(e) => self.schema.leaf_record(f, offset as int) == Err::<RecordView, Error>(e),
                },
    {
        let raw = match read(offset, self.schema.record_bytes) {
            Some(v) => v,
            None => {
                return Err(Error::TruncatedLeaf);
            },
        };
        if raw.len() != self.schema.record_bytes {
            return Err(Error::TruncatedLeaf);
        }
        Record::parse(raw.as_slice(), &self.schema, read)
    }

    /// Whether the file maps IPv6 addresses.
    pub fn is_ipv6(&self) -> (r: bool)
        ensures
            r == self.schema.is_v6,
    {
        self.schema.is_v6
    }

    /// Whether the file is a blacklist.
    pub fn is_blacklist(&self) -> (r: bool)
        ensures
            r == self.schema.is_blacklist,
    {
        self.schema.is_blacklist
    }

    /// The columns that the file declares, in order.
    pub fn columns(&self) -> (r: &Vec<Column>)
        ensures
            r == &self.columns,
    {
        &self.columns
    }
}

/// On the same file, the streaming reader and the resident reader give the
/// same result for every address: `fetch` of each returns exactly this
/// lookup, the one over a function that reads the file, the other over the
/// bytes it holds.
pub proof fn streaming_matches_resident(streaming: &FileReader, resident: &crate::memory_reader::MemoryReader, address: Address)
    requires
        resident.wf(),
        streaming.opened_from(resident.data@),
    ensures
        streaming.schema.lookup(resident.data@, address) == resident.schema.lookup(
            resident.data@,
            address,
        ),
{
    crate::schema::same_file_same_lookups(streaming.schema, resident.schema, resident.data@, address);
}

} // verus!
