//! Flag bytes and the masks that name their bits.
use vstd::prelude::*;

verus! {

/// Bits 3 to 5 of the common byte: the connection type.
pub const CONNECTION_MASK: u8 = 0x38;
/// Bits 6 and 7 of the common byte: the abuse velocity.
pub const ABUSE_VELOCITY_MASK: u8 = 0xC0;

/// Column type bits, and the tree-data bit of the tree header.
pub const TREE_DATA: u8 = 0x04;
pub const STRING_DATA: u8 = 0x08;
pub const SMALL_INT_DATA: u8 = 0x10;
pub const INT_DATA: u8 = 0x20;
pub const FLOAT_DATA: u8 = 0x40;

/// First flag byte of a leaf.
pub const IS_PROXY: u8 = 0x01;
pub const IS_VPN: u8 = 0x02;
pub const IS_TOR: u8 = 0x04;
pub const IS_CRAWLER: u8 = 0x08;
pub const IS_BOT: u8 = 0x10;
pub const RECENT_ABUSE: u8 = 0x20;
pub const IS_BLACKLISTED: u8 = 0x40;
pub const IS_PRIVATE: u8 = 0x80;

/// Second flag byte of a leaf.
pub const IS_MOBILE: u8 = 0x01;
pub const HAS_OPEN_PORTS: u8 = 0x02;
pub const IS_HOSTING_PROVIDER: u8 = 0x04;
pub const ACTIVE_VPN: u8 = 0x08;
pub const ACTIVE_TOR: u8 = 0x10;
pub const PUBLIC_ACCESS_POINT: u8 = 0x20;

/// Values of the connection-type and abuse-velocity bits of the common byte.
pub const CONNECTION_TYPE_ONE: u8 = 0x08;
pub const CONNECTION_TYPE_TWO: u8 = 0x10;
pub const CONNECTION_TYPE_THREE: u8 = 0x20;
pub const ABUSE_VELOCITY_ONE: u8 = 0x40;
pub const ABUSE_VELOCITY_TWO: u8 = 0x80;
pub const THREE_UNION_TWO: u8 = 0x30;
pub const THREE_UNION_ONE: u8 = 0x28;
pub const ABUSE_BOTH: u8 = 0xC0;

/// Whether any bit of `mask` is set in `byte`.
pub open spec fn has_bits(byte: u8, mask: u8) -> bool {
    byte & mask != 0
}

/// A byte read as a set of flags.
#[derive(Clone, Copy, Debug, Default)]
pub struct BinaryOption {
    pub data: u8,
}

impl BinaryOption {
    /// Whether any bit of `flag` is set.
    pub fn has(&self, flag: u8) -> (r: bool)
        ensures
            r == has_bits(self.data, flag),
    {
        self.data & flag != 0
    }
}

} // verus!
