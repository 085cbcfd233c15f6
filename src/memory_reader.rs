//! The resident reader: the whole file in memory, records read in place.
use vstd::prelude::*;
use crate::address::Address;
use crate::error::Error;
use crate::parse::{FileHeader, FILE_HEADER_LENGTH, TREE_HEADER_LENGTH};
use crate::schema::{RecordView, Schema, front_matches, open_error, opt_bytes, string_ok};
use crate::tree::{Step, Walk, MAX_WALK_STEPS, walk, lookup_leaf, node_bytes};
use crate::utility::{self, le_u32_at, pool_string};
use crate::file_reader::record::opt_str;

pub mod record;

pub use record::Record;

verus! {

/// A database held whole in memory.
pub struct MemoryReader {
    pub data: Vec<u8>,
    pub schema: Schema,
}

impl MemoryReader {
    pub open spec fn wf(&self) -> bool {
        &&& self.schema.wf()
        &&& self.schema.tree_end <= self.data@.len()
        &&& self.schema.opened_from(self.data@)
        &&& self.data@.len() <= usize::MAX
    }

    /// Checks the front of the file `data` and keeps it for lookups.
    pub fn from_bytes(data: Vec<u8>) -> (r: Result<MemoryReader, Error>)
        ensures
            r is Ok <==> open_error(data@, true) is None,
            r matches Err(e) ==> open_error(data@, true) == Some(e),
            r matches Ok(m) ==> m.wf() && m.data@ == data@,
    {
        if data.len() < FILE_HEADER_LENGTH {
            return Err(Error::TruncatedFile);
        }
        let header = FileHeader::parse(&data[0..FILE_HEADER_LENGTH])?;
        proof {
            assert(data@.subrange(0, 11).subrange(2, 5) =~= data@.subrange(2, 5));
        }
        let tree_start = header.tree_start as usize;
        if data.len() < tree_start {
            return Err(Error::TruncatedFile);
        }
        let column_bytes = &data[FILE_HEADER_LENGTH..tree_start];
        let tree_header = if data.len() - tree_start < TREE_HEADER_LENGTH {
            None
        } else {
            Some(&data[tree_start..tree_start + TREE_HEADER_LENGTH])
        };
        proof {
            assert(front_matches(data@, header, column_bytes@, opt_bytes(tree_header)));
        }
        let (schema, _columns) = Schema::assemble(&header, column_bytes, tree_header)?;
        if schema.tree_end > data.len() as u64 {
            return Err(Error::TruncatedFile);
        }
        Ok(MemoryReader { data, schema })
    }

    /// The string that the four bytes at `offset` point to.
    pub(crate) fn get_ranged_string_value(&self, offset: usize) -> (r: Option<&str>)
        requires
            self.wf(),
            offset + 4 <= self.data@.len(),
        ensures
            opt_str(r) == pool_string(self.data@, le_u32_at(self.data@, offset as int)),
    {
        let start = utility::four_byte_int(&self.data[offset..offset + 4]);
        if start >= self.data.len() as u64 {
            return None;
        }
        let tail = &self.data[start as usize..self.data.len()];
        let r = utility::parse_string(tail);
        proof {
            let s = start as int;
            if s < self.data@.len() && s + 1 + self.data@[s] <= self.data@.len() {
                assert(tail@.subrange(1, 1 + tail@[0]) =~= self.data@.subrange(s + 1, s + 1 + self.data@[s]));
            }
        }
        r
    }

    /// The byte at `offset`, as an integer.
    pub(crate) fn get_small_int_value(&self, offset: usize) -> (r: u32)
        requires
            self.wf(),
            offset < self.data@.len(),
        ensures
            r == self.data@[offset as int],
    {
        self.data[offset] as u32
    }

    /// The four bytes at `offset`, as a little-endian integer.
    pub(crate) fn get_int_value(&self, offset: usize) -> (r: u64)
        requires
            self.wf(),
            offset + 4 <= self.data@.len(),
        ensures
            r == le_u32_at(self.data@, offset as int),
    {
        utility::four_byte_int(&self.data[offset..offset + 4])
    }

    /// Whether the string column at `column` of the record at `offset`, if
    /// there is one, points to a readable string.
    fn string_readable(&self, offset: usize, column: Option<usize>) -> (r: bool)
        requires
            self.wf(),
            offset + self.schema.record_bytes <= self.data@.len(),
            column matches Some(o) ==> o + 4 <= self.schema.record_bytes,
        ensures
            r == string_ok(
                self.data@,
                self.schema.raw_record(self.data@, offset as int),
                column,
            ),
    {
        match column {
            Some(o) => self.get_ranged_string_value(offset + o).is_some(),
            None => true,
        }
    }

    /// The record at `offset`, once it is known to lie within the file and to
    /// point to readable strings.
    fn record_at(&self, offset: u64) -> (r: Result<Record<'_>, Error>)
        requires
            self.wf(),
        ensures
            match r {
                Ok(rec) => {
                    &&& rec.wf()
                    &&& rec.memory == self
                    &&& self.schema.leaf_record(self.data@, offset as int) == Ok::<RecordView, Error>(rec@)
                },
                Err(e) => self.schema.leaf_record(self.data@, offset as int) == Err::<RecordView, Error>(e),
            },
    {
        let len = self.data.len();
        if offset > len as u64 || (len - offset as usize) < self.schema.record_bytes {
            return Err(Error::TruncatedLeaf);
        }
        let offset = offset as usize;
        let c = self.schema.columns;
        if !self.string_readable(offset, c.country) || !self.string_readable(offset, c.city)
            || !self.string_readable(offset, c.region) || !self.string_readable(offset, c.isp)
            || !self.string_readable(offset, c.organization) || !self.string_readable(
            offset,
            c.timezone,
        ) {
            return Err(Error::BadString);
        }
        Ok(Record::parse(self, offset))
    }

    /// Looks up the record that covers `ip`.
    pub fn fetch(&self, ip: &Address) -> (r: Result<Record<'_>, Error>)
        requires
            self.wf(),
        ensures
            match r {
                Ok(rec) => {
                    &&& rec.wf()
                    &&& rec.memory == self
                    &&& self.schema.lookup(self.data@, *ip) == Ok::<RecordView, Error>(rec@)
                },
                Err(e) => self.schema.lookup(self.data@, *ip) == Err::<RecordView, Error>(e),
            },
    {
        if ip.is_ipv6() != self.schema.is_v6 {
            return Err(Error::WrongFamily);
        }
        let tree_start = self.schema.tree_start;
        let tree_end = self.schema.tree_end;
        let is_blacklist = self.schema.is_blacklist;
        let mut walker = Walk::start(ip, tree_start);
        let mut steps: usize = 0;
        while steps < MAX_WALK_STEPS
            invariant
                self.wf(),
                walker.wf(),
                ip.spec_is_ipv6() == self.schema.is_v6,
                tree_start == self.schema.tree_start,
                tree_end == self.schema.tree_end,
                is_blacklist == self.schema.is_blacklist,
                steps <= MAX_WALK_STEPS,
                lookup_leaf(self.data@, *ip, tree_start as int, tree_end as int, is_blacklist)
                    == walk(
                    self.data@,
                    walker@,
                    tree_start as int,
                    tree_end as int,
                    is_blacklist,
                    (MAX_WALK_STEPS - steps) as nat,
                ),
            decreases MAX_WALK_STEPS - steps,
        {
            if walker.exhausted() {
                return Err(Error::AddressExhausted);
            }
            if walker.node + 8 > self.data.len() as u64 {
                return Err(Error::TruncatedFile);
            }
            let start = walker.node as usize;
            let node = &self.data[start..start + 8];
            assert(node@ == node_bytes(self.data@, walker@.node));
            match walker.step(node, tree_start, tree_end, is_blacklist) {
                Step::Leaf(p) => {
                    return self.record_at(p);
                },
                Step::Stop(e) => {
                    return Err(e);
                },
                Step::Descend => {},
            }
            steps = steps + 1;
        }
        Err(Error::TreeTooDeep)
    }

    /// Whether the file maps IPv6 addresses.
    pub fn is_ipv6(&self) -> (r: bool)
        ensures
            r == self.schema.is_v6,
    {
        self.schema.is_v6
    }

    /// Whether the file is a blacklist.
    pub fn is_blacklist(&self) -> (r: bool)
        ensures
            r == self.schema.is_blacklist,
    {
        self.schema.is_blacklist
    }
}

} // verus!
