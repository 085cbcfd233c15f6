//! The kinds of failure that opening a database or looking up an address can meet.
use vstd::prelude::*;

verus! {

/// What went wrong, by kind.
#[derive(Clone, Copy, Debug, PartialEq, Eq, Structural)]
pub enum Error {
    /// The file could not be opened or read.
    IoOpenFailed,
    /// The file ends before a structure that it announces.
    TruncatedFile,
    /// The flag byte names neither address family, or both.
    BadMagic,
    /// The format version is not the one this reader knows.
    BadVersion,
    /// The tree starts before the end of the fixed header.
    BadHeaderSize,
    /// The column descriptor block is empty.
    NoColumns,
    /// The column descriptor block is not a whole number of descriptors.
    BadColumnBlockLength,
    /// Records have no bytes, or too few for their columns.
    BadRecordSize,
    /// A varint overflows or does not terminate.
    MalformedVarint,
    /// A column name is not UTF-8.
    BadColumnName,
    /// The tree header lacks its tree-data bit.
    BadTreeFlag,
    /// The tree block has no bytes.
    EmptyTree,
    /// The address is of the other family than the file.
    WrongFamily,
    /// The walk ran past the last bit of the address.
    AddressExhausted,
    /// The walk took more steps than any tree can need.
    TreeTooDeep,
    /// No record covers the address.
    NotFound,
    /// A leaf record extends past the end of the file.
    TruncatedLeaf,
    /// A pooled string lies outside the file or is not UTF-8.
    BadString,
}

} // verus!
