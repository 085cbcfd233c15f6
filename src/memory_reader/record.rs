//! Records of the resident reader: a handle on a leaf that reads its values
//! in place.
use vstd::prelude::*;
use crate::binary_option as flag;
use crate::file_reader::record::{
    self as owned, Strictness, abuse_name, connection_name, opt_str, opt_text,
};
use crate::memory_reader::MemoryReader;
use crate::schema::{RecordView, first_flag, second_flag};

verus! {

/// The leaf record at `offset` of the reader's file.
#[derive(Clone, Copy)]
pub struct Record<'a> {
    pub memory: &'a MemoryReader,
    pub offset: usize,
}

impl<'a> View for Record<'a> {
    type V = RecordView;

    open spec fn view(&self) -> RecordView {
        self.memory.schema.leaf_view(self.memory.data@, self.raw())
    }
}

impl<'a> Record<'a> {
    /// The bytes of the record.
    pub open spec fn raw(&self) -> Seq<u8> {
        self.memory.schema.raw_record(self.memory.data@, self.offset as int)
    }

    /// A record that a lookup returned: it lies within the file and its
    /// strings are readable.
    pub open spec fn wf(&self) -> bool {
        &&& self.memory.wf()
        &&& self.offset + self.memory.schema.record_bytes <= self.memory.data@.len()
        &&& self.memory.schema.strings_ok(self.memory.data@, self.raw())
    }

    /// Wraps the record at `offset`.
    pub fn parse(memory: &'a MemoryReader, offset: usize) -> (r: Record<'a>)
        ensures
            r.memory == memory,
            r.offset == offset,
    {
        Record { memory, offset }
    }

    fn common_byte(&self) -> (r: u8)
        requires
            self.wf(),
        ensures
            r == self@.common,
    {
        let offset = self.offset + if self.memory.schema.binary_data {
            2
        } else {
            0
        };
        self.memory.data[offset]
    }

    fn first_byte(&self) -> (r: Option<u8>)
        requires
            self.wf(),
        ensures
            r == (match self@.flag_bytes {
                Some((a, _)) => Some(a),
                None => None::<u8>,
            }),
    {
        if self.memory.schema.binary_data {
            Some(self.memory.data[self.offset])
        } else {
            None
        }
    }

    fn second_byte(&self) -> (r: Option<u8>)
        requires
            self.wf(),
        ensures
            r == (match self@.flag_bytes {
                Some((_, b)) => Some(b),
                None => None::<u8>,
            }),
    {
        if self.memory.schema.binary_data {
            Some(self.memory.data[self.offset + 1])
        } else {
            None
        }
    }

    fn first_byte_flag(&self, mask: u8) -> (r: Option<bool>)
        requires
            self.wf(),
        ensures
            r == first_flag(self@, mask),
    {
        match self.first_byte() {
            Some(data) => Some(flag::BinaryOption { data }.has(mask)),
            None => None,
        }
    }

    fn second_byte_flag(&self, mask: u8) -> (r: Option<bool>)
        requires
            self.wf(),
        ensures
            r == second_flag(self@, mask),
    {
        match self.second_byte() {
            Some(data) => Some(flag::BinaryOption { data }.has(mask)),
            None => None,
        }
    }

    fn string_column(&self, column: Option<usize>) -> (r: Option<&'a str>)
        requires
            self.wf(),
            column matches Some(o) ==> o + 4 <= self.memory.schema.record_bytes,
            crate::schema::string_ok(self.memory.data@, self.raw(), column),
        ensures
            opt_str(r) == crate::schema::string_at(self.memory.data@, self.raw(), column),
    {
        match column {
            Some(column_offset) => {
                let r = self.memory.get_ranged_string_value(self.offset + column_offset);
                r
            },
            None => None,
        }
    }

    fn int_column(&self, column: Option<usize>) -> (r: Option<u64>)
        requires
            self.wf(),
            column matches Some(o) ==> o + 4 <= self.memory.schema.record_bytes,
        ensures
            r == crate::schema::int_at(self.raw(), column),
    {
        match column {
            Some(column_offset) => Some(self.memory.get_int_value(self.offset + column_offset)),
            None => None,
        }
    }

    fn float_column(&self, column: Option<usize>) -> (r: Option<u32>)
        requires
            self.wf(),
            column matches Some(o) ==> o + 4 <= self.memory.schema.record_bytes,
        ensures
            r == crate::schema::bits_at(self.raw(), column),
    {
        match column {
            Some(column_offset) => Some(
                self.memory.get_int_value(self.offset + column_offset) as u32,
            ),
            None => None,
        }
    }

    pub fn is_proxy(&self) -> (r: Option<bool>)
        requires
            self.wf(),
        ensures
            r == first_flag(self@, flag::IS_PROXY),
    {
        self.first_byte_flag(flag::IS_PROXY)
    }

    pub fn is_vpn(&self) -> (r: Option<bool>)
        requires
            self.wf(),
        ensures
            r == first_flag(self@, flag::IS_VPN),
    {
        self.first_byte_flag(flag::IS_VPN)
    }

    pub fn is_tor(&self) -> (r: Option<bool>)
        requires
            self.wf(),
        ensures
            r == first_flag(self@, flag::IS_TOR),
    {
        self.first_byte_flag(flag::IS_TOR)
    }

    pub fn is_crawler(&self) -> (r: Option<bool>)
        requires
            self.wf(),
        ensures
            r == first_flag(self@, flag::IS_CRAWLER),
    {
        self.first_byte_flag(flag::IS_CRAWLER)
    }

    pub fn is_bot(&self) -> (r: Option<bool>)
        requires
            self.wf(),
        ensures
            r == first_flag(self@, flag::IS_BOT),
    {
        self.first_byte_flag(flag::IS_BOT)
    }

    pub fn recent_abuse(&self) -> (r: Option<bool>)
        requires
            self.wf(),
        ensures
            r == first_flag(self@, flag::RECENT_ABUSE),
    {
        self.first_byte_flag(flag::RECENT_ABUSE)
    }

    pub fn is_blacklisted(&self) -> (r: Option<bool>)
        requires
            self.wf(),
        ensures
            r == first_flag(self@, flag::IS_BLACKLISTED),
    {
        self.first_byte_flag(flag::IS_BLACKLISTED)
    }

    pub fn is_private(&self) -> (r: Option<bool>)
        requires
            self.wf(),
        ensures
            r == first_flag(self@, flag::IS_PRIVATE),
    {
        self.first_byte_flag(flag::IS_PRIVATE)
    }

    pub fn is_mobile(&self) -> (r: Option<bool>)
        requires
            self.wf(),
        ensures
            r == second_flag(self@, flag::IS_MOBILE),
    {
        self.second_byte_flag(flag::IS_MOBILE)
    }

    pub fn has_open_ports(&self) -> (r: Option<bool>)
        requires
            self.wf(),
        ensures
            r == second_flag(self@, flag::HAS_OPEN_PORTS),
    {
        self.second_byte_flag(flag::HAS_OPEN_PORTS)
    }

    pub fn is_hosting_provider(&self) -> (r: Option<bool>)
        requires
            self.wf(),
        ensures
            r == second_flag(self@, flag::IS_HOSTING_PROVIDER),
    {
        self.second_byte_flag(flag::IS_HOSTING_PROVIDER)
    }

    pub fn active_vpn(&self) -> (r: Option<bool>)
        requires
            self.wf(),
        ensures
            r == second_flag(self@, flag::ACTIVE_VPN),
    {
        self.second_byte_flag(flag::ACTIVE_VPN)
    }

    pub fn active_tor(&self) -> (r: Option<bool>)
        requires
            self.wf(),
        ensures
            r == second_flag(self@, flag::ACTIVE_TOR),
    {
        self.second_byte_flag(flag::ACTIVE_TOR)
    }

    pub fn public_access_point(&self) -> (r: Option<bool>)
        requires
            self.wf(),
        ensures
            r == second_flag(self@, flag::PUBLIC_ACCESS_POINT),
    {
        self.second_byte_flag(flag::PUBLIC_ACCESS_POINT)
    }

    pub fn connection_type(&self) -> (r: &'static str)
        requires
            self.wf(),
        ensures
            r@ == connection_name(self@.common),
    {
        owned::connection_type(self.common_byte())
    }

    pub fn abuse_velocity(&self) -> (r: &'static str)
        requires
            self.wf(),
        ensures
            r@ == abuse_name(self@.common),
    {
        owned::abuse_velocity(self.common_byte())
    }

    pub fn country(&self) -> (r: Option<&'a str>)
        requires
            self.wf(),
        ensures
            opt_str(r) == self@.country,
    {
        self.string_column(self.memory.schema.columns.country)
    }

    pub fn city(&self) -> (r: Option<&'a str>)
        requires
            self.wf(),
        ensures
            opt_str(r) == self@.city,
    {
        self.string_column(self.memory.schema.columns.city)
    }

    pub fn region(&self) -> (r: Option<&'a str>)
        requires
            self.wf(),
        ensures
            opt_str(r) == self@.region,
    {
        self.string_column(self.memory.schema.columns.region)
    }

    pub fn isp(&self) -> (r: Option<&'a str>)
        requires
            self.wf(),
        ensures
            opt_str(r) == self@.isp,
    {
        self.string_column(self.memory.schema.columns.isp)
    }

    pub fn organization(&self) -> (r: Option<&'a str>)
        requires
            self.wf(),
        ensures
            opt_str(r) == self@.organization,
    {
        self.string_column(self.memory.schema.columns.organization)
    }

    pub fn timezone(&self) -> (r: Option<&'a str>)
        requires
            self.wf(),
        ensures
            opt_str(r) == self@.timezone,
    {
        self.string_column(self.memory.schema.columns.timezone)
    }

    pub fn asn(&self) -> (r: Option<u64>)
        requires
            self.wf(),
        ensures
            r == self@.asn,
    {
        self.int_column(self.memory.schema.columns.asn)
    }

    /// The IEEE-754 bits of the latitude.
    pub fn latitude_bits(&self) -> (r: Option<u32>)
        requires
            self.wf(),
        ensures
            r == self@.latitude,
    {
        self.float_column(self.memory.schema.columns.latitude)
    }

    /// The IEEE-754 bits of the longitude.
    pub fn longitude_bits(&self) -> (r: Option<u32>)
        requires
            self.wf(),
        ensures
            r == self@.longitude,
    {
        self.float_column(self.memory.schema.columns.longitude)
    }

    pub fn fraud_score(&self, strictness: Strictness) -> (r: Option<u32>)
        requires
            self.wf(),
        ensures
            r == self@.fraud_score[strictness.level()],
    {
        let column = self.memory.schema.columns.fraud_score[strictness.index()];
        match column {
            Some(column_offset) => Some(
                self.memory.get_small_int_value(self.offset + column_offset),
            ),
            None => None,
        }
    }

    /// The same record as owned values.
    pub fn to_file_record(&self) -> (r: owned::Record)
        requires
            self.wf(),
        ensures
            r@ == self@,
    {
        let flag_bytes = match (self.first_byte(), self.second_byte()) {
            (Some(a), Some(b)) => Some((a, b)),
            _ => None,
        };
        let r = owned::Record {
            flag_bytes,
            common_byte: self.common_byte(),
            country: to_owned(self.country()),
            city: to_owned(self.city()),
            region: to_owned(self.region()),
            isp: to_owned(self.isp()),
            organization: to_owned(self.organization()),
            timezone: to_owned(self.timezone()),
            asn: self.asn(),
            latitude: self.latitude_bits(),
            longitude: self.longitude_bits(),
            fraud_score: [
                self.fraud_score(Strictness::Zero),
                self.fraud_score(Strictness::One),
                self.fraud_score(Strictness::Two),
                self.fraud_score(Strictness::Three),
            ],
        };
        assert(r@.fraud_score =~= self@.fraud_score);
        r
    }
}

/// An owned copy of an optional string slice.
fn to_owned(s: Option<&str>) -> (r: Option<String>)
    ensures
        opt_text(r) == opt_str(s),
{
    match s {
        Some(v) => Some(v.to_owned()),
        None => None,
    }
}

} // verus!
