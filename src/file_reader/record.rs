//! Records as owned values, and the decoding of the common byte.
use vstd::prelude::*;
use crate::binary_option as flag;
use crate::error::Error;
use crate::file_reader::{read_pool_string, reads_anywhere, reads_from};
use crate::schema::{RecordView, Schema, first_flag, second_flag, string_at, string_ok, int_at, bits_at, small_at};
use crate::utility::four_byte_int;
use crate::layout::within;

verus! {

/// Which of the four precomputed fraud scores to read: higher levels are
/// stricter.
#[derive(Clone, Copy, Debug, PartialEq, Eq, Structural)]
pub enum Strictness {
    Zero,
    One,
    Two,
    Three,
}

impl Strictness {
    /// The level as a number, 0 to 3.
    pub open spec fn level(&self) -> int {
        match self {
            Strictness::Zero => 0,
            Strictness::One => 1,
            Strictness::Two => 2,
            Strictness::Three => 3,
        }
    }

    /// The level as an index, 0 to 3.
    pub fn index(&self) -> (r: usize)
        ensures
            r == self.level(),
    {
        match self {
            Strictness::Zero => 0,
            Strictness::One => 1,
            Strictness::Two => 2,
            Strictness::Three => 3,
        }
    }
}

/// The connection type that the bits 3 to 5 of `byte` name.
pub open spec fn connection_name(byte: u8) -> Seq<char> {
    let v = byte & flag::CONNECTION_MASK;
    if v == flag::CONNECTION_TYPE_THREE {
        "Residential"@
    } else if v == flag::CONNECTION_TYPE_TWO {
        "Mobile"@
    } else if v == flag::THREE_UNION_TWO {
        "Corporate"@
    } else if v == flag::CONNECTION_TYPE_ONE {
        "Data Center"@
    } else if v == flag::THREE_UNION_ONE {
        "Education"@
    } else {
        "Unknown"@
    }
}

/// The abuse velocity that the bits 6 and 7 of `byte` name.
pub open spec fn abuse_name(byte: u8) -> Seq<char> {
    let v = byte & flag::ABUSE_VELOCITY_MASK;
    if v == flag::ABUSE_VELOCITY_TWO {
        "low"@
    } else if v == flag::ABUSE_VELOCITY_ONE {
        "medium"@
    } else if v == flag::ABUSE_BOTH {
        "high"@
    } else {
        "none"@
    }
}

/// The connection type of a common byte: Residential, Mobile, Corporate,
/// Data Center, Education or Unknown.
pub fn connection_type(byte: u8) -> (r: &'static str)
    ensures
        r@ == connection_name(byte),
{
    let v = byte & flag::CONNECTION_MASK;
    if v == flag::CONNECTION_TYPE_THREE {
        "Residential"
    } else if v == flag::CONNECTION_TYPE_TWO {
        "Mobile"
    } else if v == flag::THREE_UNION_TWO {
        "Corporate"
    } else if v == flag::CONNECTION_TYPE_ONE {
        "Data Center"
    } else if v == flag::THREE_UNION_ONE {
        "Education"
    } else {
        "Unknown"
    }
}

/// How often the address is seen in abuse: high, medium, low or none.
pub fn abuse_velocity(byte: u8) -> (r: &'static str)
    ensures
        r@ == abuse_name(byte),
{
    let v = byte & flag::ABUSE_VELOCITY_MASK;
    if v == flag::ABUSE_VELOCITY_TWO {
        "low"
    } else if v == flag::ABUSE_VELOCITY_ONE {
        "medium"
    } else if v == flag::ABUSE_BOTH {
        "high"
    } else {
        "none"
    }
}

/// The characters of an optional string.
pub open spec fn opt_text(s: Option<String>) -> Option<Seq<char>> {
    match s {
        Some(v) => Some(v@),
        None => None,
    }
}

/// The characters of an optional string slice.
pub open spec fn opt_str(s: Option<&str>) -> Option<Seq<char>> {
    match s {
        Some(v) => Some(v@),
        None => None,
    }
}

/// A leaf record that owns its values.
#[derive(Clone, Debug)]
pub struct Record {
    pub flag_bytes: Option<(u8, u8)>,
    pub common_byte: u8,
    pub country: Option<String>,
    pub city: Option<String>,
    pub region: Option<String>,
    pub isp: Option<String>,
    pub organization: Option<String>,
    pub timezone: Option<String>,
    pub asn: Option<u64>,
    pub latitude: Option<u32>,
    pub longitude: Option<u32>,
    pub fraud_score: [Option<u32>; 4],
}

impl View for Record {
    type V = RecordView;

    open spec fn view(&self) -> RecordView {
        RecordView {
            flag_bytes: self.flag_bytes,
            common: self.common_byte,
            country: opt_text(self.country),
            city: opt_text(self.city),
            region: opt_text(self.region),
            isp: opt_text(self.isp),
            organization: opt_text(self.organization),
            timezone: opt_text(self.timezone),
            asn: self.asn,
            latitude: self.latitude,
            longitude: self.longitude,
            fraud_score: self.fraud_score@,
        }
    }
}

/// A borrowed view of an optional owned string.
fn as_opt_str(s: &Option<String>) -> (r: Option<&str>)
    ensures
        opt_str(r) == opt_text(*s),
{
    match s {
        Some(v) => Some(v.as_str()),
        None => None,
    }
}

/// The string that the four bytes at offset `column` of the record `raw`
/// point to, read through `read`.
fn string_field<F: Fn(u64, usize) -> Option<Vec<u8>>>(raw: &[u8], column: Option<usize>, read: &F) -> (r: Result<Option<String>, Error>)
    requires
        reads_anywhere(*read),
        raw@.len() < 0x4000,
        column matches Some(o) ==> o + 4 <= raw@.len(),
    ensures
        forall|f: Seq<u8>|
            #[trigger] reads_from(*read, f) ==> match r {
                Ok(s) => string_ok(f, raw@, column) && opt_text(s) == string_at(f, raw@, column),
                Err(e) => e == Error::BadString && !string_ok(f, raw@, column),
            },
{
    match column {
        Some(o) => {
            let start = four_byte_int(&raw[o..o + 4]);
            match read_pool_string(read, start) {
                Some(s) => Ok(Some(s)),
                None => Err(Error::BadString),
            }
        },
        None => Ok(None),
    }
}

/// The four bytes at offset `column` of the record `raw`, as an integer.
fn int_field(raw: &[u8], column: Option<usize>) -> (r: Option<u64>)
    requires
        raw@.len() < 0x4000,
        column matches Some(o) ==> o + 4 <= raw@.len(),
    ensures
        r == int_at(raw@, column),
{
    match column {
        Some(o) => Some(four_byte_int(&raw[o..o + 4])),
        None => None,
    }
}

/// The four bytes at offset `column` of the record `raw`, as float bits.
fn bits_field(raw: &[u8], column: Option<usize>) -> (r: Option<u32>)
    requires
        raw@.len() < 0x4000,
        column matches Some(o) ==> o + 4 <= raw@.len(),
    ensures
        r == bits_at(raw@, column),
{
    match column {
        Some(o) => Some(four_byte_int(&raw[o..o + 4]) as u32),
        None => None,
    }
}

/// The byte at offset `column` of the record `raw`.
fn small_field(raw: &[u8], column: Option<usize>) -> (r: Option<u32>)
    requires
        column matches Some(o) ==> o < raw@.len(),
    ensures
        r == small_at(raw@, column),
{
    match column {
        Some(o) => Some(raw[o] as u32),
        None => None,
    }
}

impl Record {
    /// Decodes the leaf record `raw`, reading its strings through `read`.
    pub fn parse<F: Fn(u64, usize) -> Option<Vec<u8>>>(raw: &[u8], schema: &Schema, read: &F) -> (r: Result<Record, Error>)
        requires
            schema.wf(),
            raw@.len() == schema.record_bytes,
            reads_anywhere(*read),
        ensures
            forall|f: Seq<u8>|
                #[trigger] reads_from(*read, f) ==> match r {
                    Ok(rec) => schema.strings_ok(f, raw@) && rec@ == schema.leaf_view(f, raw@),
                    Err(e) => e == Error::BadString && !schema.strings_ok(f, raw@),
                },
    {
        let c = schema.columns;
        let flag_bytes = if schema.binary_data {
            Some((raw[0], raw[1]))
        } else {
            None
        };
        let common_byte = if schema.binary_data {
            raw[2]
        } else {
            raw[0]
        };
        let country = string_field(raw, c.country, read)?;
        let city = string_field(raw, c.city, read)?;
        let region = string_field(raw, c.region, read)?;
        let isp = string_field(raw, c.isp, read)?;
        let organization = string_field(raw, c.organization, read)?;
        let timezone = string_field(raw, c.timezone, read)?;
        proof {
            assert(c.fits(schema.binary_data, schema.record_bytes as int));
            assert(within(c.fraud_score@[0], 1, schema.record_bytes as int));
            assert(within(c.fraud_score@[1], 1, schema.record_bytes as int));
            assert(within(c.fraud_score@[2], 1, schema.record_bytes as int));
            assert(within(c.fraud_score@[3], 1, schema.record_bytes as int));
        }
        let record = Record {
            flag_bytes,
            common_byte,
            country,
            city,
            region,
            isp,
            organization,
            timezone,
            asn: int_field(raw, c.asn),
            latitude: bits_field(raw, c.latitude),
            longitude: bits_field(raw, c.longitude),
            fraud_score: [
                small_field(raw, c.fraud_score[0]),
                small_field(raw, c.fraud_score[1]),
                small_field(raw, c.fraud_score[2]),
                small_field(raw, c.fraud_score[3]),
            ],
        };
        assert(record@.fraud_score =~= Seq::new(4, |i: int| small_at(raw@, c.fraud_score@[i])));
        Ok(record)
    }

    fn first_byte_flag(&self, mask: u8) -> (r: Option<bool>)
        ensures
            r == first_flag(self@, mask),
    {
        match self.flag_bytes {
            Some((a, _)) => Some(a & mask != 0),
            None => None,
        }
    }

    fn second_byte_flag(&self, mask: u8) -> (r: Option<bool>)
        ensures
            r == second_flag(self@, mask),
    {
        match self.flag_bytes {
            Some((_, b)) => Some(b & mask != 0),
            None => None,
        }
    }

    pub fn is_proxy(&self) -> (r: Option<bool>)
        ensures
            r == first_flag(self@, flag::IS_PROXY),
    {
        self.first_byte_flag(flag::IS_PROXY)
    }

    pub fn is_vpn(&self) -> (r: Option<bool>)
        ensures
            r == first_flag(self@, flag::IS_VPN),
    {
        self.first_byte_flag(flag::IS_VPN)
    }

    pub fn is_tor(&self) -> (r: Option<bool>)
        ensures
            r == first_flag(self@, flag::IS_TOR),
    {
        self.first_byte_flag(flag::IS_TOR)
    }

    pub fn is_crawler(&self) -> (r: Option<bool>)
        ensures
            r == first_flag(self@, flag::IS_CRAWLER),
    {
        self.first_byte_flag(flag::IS_CRAWLER)
    }

    pub fn is_bot(&self) -> (r: Option<bool>)
        ensures
            r == first_flag(self@, flag::IS_BOT),
    {
        self.first_byte_flag(flag::IS_BOT)
    }

    pub fn recent_abuse(&self) -> (r: Option<bool>)
        ensures
            r == first_flag(self@, flag::RECENT_ABUSE),
    {
        self.first_byte_flag(flag::RECENT_ABUSE)
    }

    pub fn is_blacklisted(&self) -> (r: Option<bool>)
        ensures
            r == first_flag(self@, flag::IS_BLACKLISTED),
    {
        self.first_byte_flag(flag::IS_BLACKLISTED)
    }

    pub fn is_private(&self) -> (r: Option<bool>)
        ensures
            r == first_flag(self@, flag::IS_PRIVATE),
    {
        self.first_byte_flag(flag::IS_PRIVATE)
    }

    pub fn is_mobile(&self) -> (r: Option<bool>)
        ensures
            r == second_flag(self@, flag::IS_MOBILE),
    {
        self.second_byte_flag(flag::IS_MOBILE)
    }

    pub fn has_open_ports(&self) -> (r: Option<bool>)
        ensures
            r == second_flag(self@, flag::HAS_OPEN_PORTS),
    {
        self.second_byte_flag(flag::HAS_OPEN_PORTS)
    }

    pub fn is_hosting_provider(&self) -> (r: Option<bool>)
        ensures
            r == second_flag(self@, flag::IS_HOSTING_PROVIDER),
    {
        self.second_byte_flag(flag::IS_HOSTING_PROVIDER)
    }

    pub fn active_vpn(&self) -> (r: Option<bool>)
        ensures
            r == second_flag(self@, flag::ACTIVE_VPN),
    {
        self.second_byte_flag(flag::ACTIVE_VPN)
    }

    pub fn active_tor(&self) -> (r: Option<bool>)
        ensures
            r == second_flag(self@, flag::ACTIVE_TOR),
    {
        self.second_byte_flag(flag::ACTIVE_TOR)
    }

    pub fn public_access_point(&self) -> (r: Option<bool>)
        ensures
            r == second_flag(self@, flag::PUBLIC_ACCESS_POINT),
    {
        self.second_byte_flag(flag::PUBLIC_ACCESS_POINT)
    }

    pub fn connection_type(&self) -> (r: &'static str)
        ensures
            r@ == connection_name(self@.common),
    {
        connection_type(self.common_byte)
    }

    pub fn abuse_velocity(&self) -> (r: &'static str)
        ensures
            r@ == abuse_name(self@.common),
    {
        abuse_velocity(self.common_byte)
    }

    pub fn country(&self) -> (r: Option<&str>)
        ensures
            opt_str(r) == self@.country,
    {
        as_opt_str(&self.country)
    }

    pub fn city(&self) -> (r: Option<&str>)
        ensures
            opt_str(r) == self@.city,
    {
        as_opt_str(&self.city)
    }

    pub fn region(&self) -> (r: Option<&str>)
        ensures
            opt_str(r) == self@.region,
    {
        as_opt_str(&self.region)
    }

    pub fn isp(&self) -> (r: Option<&str>)
        ensures
            opt_str(r) == self@.isp,
    {
        as_opt_str(&self.isp)
    }

    pub fn organization(&self) -> (r: Option<&str>)
        ensures
            opt_str(r) == self@.organization,
    {
        as_opt_str(&self.organization)
    }

    pub fn timezone(&self) -> (r: Option<&str>)
        ensures
            opt_str(r) == self@.timezone,
    {
        as_opt_str(&self.timezone)
    }

    pub fn asn(&self) -> (r: Option<u64>)
        ensures
            r == self@.asn,
    {
        self.asn
    }

    /// The IEEE-754 bits of the latitude.
    pub fn latitude_bits(&self) -> (r: Option<u32>)
        ensures
            r == self@.latitude,
    {
        self.latitude
    }

    /// The IEEE-754 bits of the longitude.
    pub fn longitude_bits(&self) -> (r: Option<u32>)
        ensures
            r == self@.longitude,
    {
        self.longitude
    }

    pub fn fraud_score(&self, strictness: Strictness) -> (r: Option<u32>)
        ensures
            r == self@.fraud_score[strictness.level()],
    {
        self.fraud_score[strictness.index()]
    }
}

} // verus!
