//! Where each named column sits within a leaf record.
use vstd::prelude::*;
use crate::binary_option::{self, has_bits};
use crate::column::Column;
use crate::parse::FileHeader;

verus! {

/// The width in bytes of a column of the given type flags: four for strings,
/// ints and floats, one for small ints.
pub open spec fn column_width(flags: u8) -> int {
    if has_bits(flags, binary_option::STRING_DATA) || has_bits(flags, binary_option::INT_DATA)
        || has_bits(flags, binary_option::FLOAT_DATA) {
        4
    } else {
        1
    }
}

/// Offset of the first column: after the two flag bytes, if the file has
/// them, and the common byte.
pub open spec fn first_offset(binary_data: bool) -> int {
    if binary_data {
        3
    } else {
        1
    }
}

/// Offset of column `i` within a record.
pub open spec fn offset_of(columns: Seq<(Seq<char>, u8)>, binary_data: bool, i: int) -> int
    decreases i,
{
    if i <= 0 {
        first_offset(binary_data)
    } else {
        offset_of(columns, binary_data, i - 1) + column_width(columns[i - 1].1)
    }
}

/// The last of the first `n` columns whose name is `name`.
pub open spec fn last_named(columns: Seq<(Seq<char>, u8)>, name: Seq<char>, n: int) -> Option<int>
    decreases n,
{
    if n <= 0 {
        None
    } else if columns[n - 1].0 == name {
        Some(n - 1)
    } else {
        last_named(columns, name, n - 1)
    }
}

/// Offset of the column named `name`; where several share the name, the
/// last one counts.
pub open spec fn named_offset(columns: Seq<(Seq<char>, u8)>, binary_data: bool, name: Seq<char>) -> Option<int> {
    match last_named(columns, name, columns.len() as int) {
        Some(k) => Some(offset_of(columns, binary_data, k)),
        None => None,
    }
}

/// An offset as an integer.
pub open spec fn offset_int(o: Option<usize>) -> Option<int> {
    match o {
        Some(v) => Some(v as int),
        None => None,
    }
}

/// Whether `n` bytes from offset `o` lie within a record of `record_bytes`.
pub open spec fn within(o: Option<usize>, n: int, record_bytes: int) -> bool {
    o matches Some(v) ==> v + n <= record_bytes
}

/// Whether `n` bytes from offset `o` lie within a record of `record_bytes`.
fn within_record(o: Option<usize>, n: usize, record_bytes: usize) -> (r: bool)
    ensures
        r == within(o, n as int, record_bytes as int),
{
    match o {
        Some(v) => v <= record_bytes && n <= record_bytes - v,
        None => true,
    }
}

/// The width in bytes of a column.
pub fn column_size(column: &Column) -> (r: usize)
    ensures
        r == column_width(column@.1),
{
    if column.record_type.has(binary_option::STRING_DATA) || column.record_type.has(
        binary_option::INT_DATA,
    ) || column.record_type.has(binary_option::FLOAT_DATA) {
        4
    } else {
        1
    }
}

/// Whether two strings hold the same characters.
pub fn same_text(a: &str, b: &str) -> (r: bool)
    ensures
        r == (a@ == b@),
{
    let x = a.as_bytes();
    let y = b.as_bytes();
    proof {
        vstd::utf8::encode_utf8_decode_utf8(a@);
        vstd::utf8::encode_utf8_decode_utf8(b@);
    }
    if x.len() != y.len() {
        return false;
    }
    let mut i: usize = 0;
    while i < x.len()
        invariant
            x@.len() == y@.len(),
            i <= x@.len(),
            x@.subrange(0, i as int) == y@.subrange(0, i as int),
            a@ == b@ ==> x@ == y@,
        decreases x@.len() - i,
    {
        if x[i] != y[i] {
            return false;
        }
        assert(x@.subrange(0, i + 1) =~= x@.subrange(0, i as int).push(x@[i as int]));
        assert(y@.subrange(0, i + 1) =~= y@.subrange(0, i as int).push(y@[i as int]));
        i = i + 1;
    }
    assert(x@ =~= x@.subrange(0, i as int));
    assert(y@ =~= y@.subrange(0, i as int));
    true
}

/// The offsets within a leaf record of the columns that the reader knows by
/// name.
#[derive(Clone, Copy, Debug)]
pub struct Columns {
    pub asn: Option<usize>,
    pub latitude: Option<usize>,
    pub longitude: Option<usize>,
    pub fraud_score: [Option<usize>; 4],
    pub country: Option<usize>,
    pub city: Option<usize>,
    pub region: Option<usize>,
    pub isp: Option<usize>,
    pub organization: Option<usize>,
    pub timezone: Option<usize>,
}

impl Columns {
    /// Whether these are the offsets that `columns` give.
    pub open spec fn laid_out(&self, columns: Seq<(Seq<char>, u8)>, binary_data: bool) -> bool {
        &&& offset_int(self.asn) == named_offset(columns, binary_data, "ASN"@)
        &&& offset_int(self.latitude) == named_offset(columns, binary_data, "Latitude"@)
        &&& offset_int(self.longitude) == named_offset(columns, binary_data, "Longitude"@)
        &&& offset_int(self.fraud_score@[0]) == named_offset(columns, binary_data, "ZeroFraudScore"@)
        &&& offset_int(self.fraud_score@[1]) == named_offset(columns, binary_data, "OneFraudScore"@)
        &&& offset_int(self.fraud_score@[2]) == named_offset(columns, binary_data, "TwoFraudScore"@)
        &&& offset_int(self.fraud_score@[3]) == named_offset(columns, binary_data, "ThreeFraudScore"@)
        &&& offset_int(self.country) == named_offset(columns, binary_data, "Country"@)
        &&& offset_int(self.city) == named_offset(columns, binary_data, "City"@)
        &&& offset_int(self.region) == named_offset(columns, binary_data, "Region"@)
        &&& offset_int(self.isp) == named_offset(columns, binary_data, "ISP"@)
        &&& offset_int(self.organization) == named_offset(columns, binary_data, "Organization"@)
        &&& offset_int(self.timezone) == named_offset(columns, binary_data, "Timezone"@)
    }

    /// Whether every named column lies within a record of `record_bytes`,
    /// after the flag bytes and the common byte.
    pub open spec fn fits(&self, binary_data: bool, record_bytes: int) -> bool {
        &&& first_offset(binary_data) <= record_bytes
        &&& within(self.asn, 4, record_bytes)
        &&& within(self.latitude, 4, record_bytes)
        &&& within(self.longitude, 4, record_bytes)
        &&& forall|i: int| 0 <= i < 4 ==> within(#[trigger] self.fraud_score@[i], 1, record_bytes)
        &&& within(self.country, 4, record_bytes)
        &&& within(self.city, 4, record_bytes)
        &&& within(self.region, 4, record_bytes)
        &&& within(self.isp, 4, record_bytes)
        &&& within(self.organization, 4, record_bytes)
        &&& within(self.timezone, 4, record_bytes)
    }

    /// Whether every named column lies within a record of `record_bytes`.
    pub fn fits_record(&self, binary_data: bool, record_bytes: usize) -> (r: bool)
        ensures
            r == self.fits(binary_data, record_bytes as int),
    {
        let first: usize = if binary_data {
            3
        } else {
            1
        };
        first <= record_bytes && within_record(self.asn, 4, record_bytes) && within_record(
            self.latitude,
            4,
            record_bytes,
        ) && within_record(self.longitude, 4, record_bytes) && within_record(
            self.fraud_score[0],
            1,
            record_bytes,
        ) && within_record(self.fraud_score[1], 1, record_bytes) && within_record(
            self.fraud_score[2],
            1,
            record_bytes,
        ) && within_record(self.fraud_score[3], 1, record_bytes) && within_record(
            self.country,
            4,
            record_bytes,
        ) && within_record(self.city, 4, record_bytes) && within_record(
            self.region,
            4,
            record_bytes,
        ) && within_record(self.isp, 4, record_bytes) && within_record(
            self.organization,
            4,
            record_bytes,
        ) && within_record(self.timezone, 4, record_bytes)
    }

    /// Lays out the columns in declaration order.
    pub fn new(file_header: &FileHeader, columns: &Vec<Column>) -> (r: Columns)
        requires
            columns@.len() < 0x10_0000,
        ensures
            r.laid_out(columns@.map_values(|c: Column| c@), file_header.binary_data),
    {
        let ghost cols = columns@.map_values(|c: Column| c@);
        let mut column_offset: usize = if file_header.binary_data {
            3
        } else {
            1
        };
        let mut asn = None;
        let mut latitude = None;
        let mut longitude = None;
        let mut fraud_score: [Option<usize>; 4] = [None, None, None, None];
        let mut country = None;
        let mut city = None;
        let mut region = None;
        let mut isp = None;
        let mut organization = None;
        let mut timezone = None;
        let mut i: usize = 0;
        while i < columns.len()
            invariant
                cols == columns@.map_values(|c: Column| c@),
                columns@.len() < 0x10_0000,
                i <= columns@.len(),
                column_offset == offset_of(cols, file_header.binary_data, i as int),
                column_offset <= 3 + 4 * i,
                (Columns {
                    asn,
                    latitude,
                    longitude,
                    fraud_score,
                    country,
                    city,
                    region,
                    isp,
                    organization,
                    timezone,
                }).laid_out(cols.subrange(0, i as int), file_header.binary_data),
            decreases columns@.len() - i,
        {
            proof {
                lemma_names_distinct();
            }
            let column = &columns[i];
            let name = column.name.as_str();
            if same_text(name, "ASN") {
                asn = Some(column_offset);
            } else if same_text(name, "Latitude") {
                latitude = Some(column_offset);
            } else if same_text(name, "Longitude") {
                longitude = Some(column_offset);
            } else if same_text(name, "ZeroFraudScore") {
                fraud_score[0] = Some(column_offset);
            } else if same_text(name, "OneFraudScore") {
                fraud_score[1] = Some(column_offset);
            } else if same_text(name, "TwoFraudScore") {
                fraud_score[2] = Some(column_offset);
            } else if same_text(name, "ThreeFraudScore") {
                fraud_score[3] = Some(column_offset);
            } else if same_text(name, "Country") {
                country = Some(column_offset);
            } else if same_text(name, "City") {
                city = Some(column_offset);
            } else if same_text(name, "Region") {
                region = Some(column_offset);
            } else if same_text(name, "ISP") {
                isp = Some(column_offset);
            } else if same_text(name, "Organization") {
                organization = Some(column_offset);
            } else if same_text(name, "Timezone") {
                timezone = Some(column_offset);
            }
            proof {
                lemma_layout_extend(cols, file_header.binary_data, i as int);
                assert(cols[i as int].0 == column.name@);
            }
            column_offset = column_offset + column_size(column);
            i = i + 1;
        }
        assert(cols.subrange(0, i as int) =~= cols);
        Columns {
            asn,
            latitude,
            longitude,
            fraud_score,
            country,
            city,
            region,
            isp,
            organization,
            timezone,
        }
    }
}

/// The names that the reader knows are pairwise different.
proof fn lemma_names_distinct()
    ensures
        "ASN"@.len() == 3,
        "Latitude"@.len() == 8,
        "Longitude"@.len() == 9,
        "ZeroFraudScore"@.len() == 14,
        "OneFraudScore"@.len() == 13,
        "TwoFraudScore"@.len() == 13,
        "ThreeFraudScore"@.len() == 15,
        "Country"@.len() == 7,
        "City"@.len() == 4,
        "Region"@.len() == 6,
        "ISP"@.len() == 3,
        "Organization"@.len() == 12,
        "Timezone"@.len() == 8,
        "ASN"@ != "ISP"@,
        "Latitude"@ != "Timezone"@,
        "OneFraudScore"@ != "TwoFraudScore"@,
{
    reveal_strlit("ASN");
    reveal_strlit("Latitude");
    reveal_strlit("Longitude");
    reveal_strlit("ZeroFraudScore");
    reveal_strlit("OneFraudScore");
    reveal_strlit("TwoFraudScore");
    reveal_strlit("ThreeFraudScore");
    reveal_strlit("Country");
    reveal_strlit("City");
    reveal_strlit("Region");
    reveal_strlit("ISP");
    reveal_strlit("Organization");
    reveal_strlit("Timezone");
    assert("ASN"@[0] != "ISP"@[0]);
    assert("Latitude"@[0] != "Timezone"@[0]);
    assert("OneFraudScore"@[0] != "TwoFraudScore"@[0]);
}

/// Taking one more column in: the last column of a name is the new one if it
/// bears that name, and the one before otherwise; earlier offsets stay.
proof fn lemma_layout_extend(columns: Seq<(Seq<char>, u8)>, binary_data: bool, i: int)
    requires
        0 <= i < columns.len(),
    ensures
        forall|name: Seq<char>|
            #[trigger] named_offset(columns.subrange(0, i + 1), binary_data, name) == if columns[i].0
                == name {
                Some(offset_of(columns, binary_data, i))
            } else {
                named_offset(columns.subrange(0, i), binary_data, name)
            },
{
    let a = columns.subrange(0, i);
    let b = columns.subrange(0, i + 1);
    lemma_offset_prefix(columns, b, binary_data, i);
    assert forall|name: Seq<char>| #[trigger]
        named_offset(b, binary_data, name) == if columns[i].0 == name {
            Some(offset_of(columns, binary_data, i))
        } else {
            named_offset(a, binary_data, name)
        } by {
        lemma_last_named_prefix(a, b, name, i);
        if let Some(k) = last_named(a, name, i) {
            lemma_last_named_bound(a, name, i);
            lemma_offset_prefix(a, b, binary_data, k);
            lemma_offset_prefix(columns, b, binary_data, k);
        }
    }
}

proof fn lemma_last_named_bound(columns: Seq<(Seq<char>, u8)>, name: Seq<char>, n: int)
    ensures
        last_named(columns, name, n) matches Some(k) ==> 0 <= k < n,
    decreases n,
{
    if n > 0 && columns[n - 1].0 != name {
        lemma_last_named_bound(columns, name, n - 1);
    }
}

/// `last_named` over the first `n` columns looks at nothing past them.
proof fn lemma_last_named_prefix(a: Seq<(Seq<char>, u8)>, b: Seq<(Seq<char>, u8)>, name: Seq<char>, n: int)
    requires
        0 <= n <= a.len(),
        n < b.len(),
        forall|j: int| 0 <= j < n ==> a[j] == b[j],
    ensures
        last_named(a, name, n) == last_named(b, name, n),
    decreases n,
{
    if n > 0 {
        lemma_last_named_prefix(a, b, name, n - 1);
    }
}

/// `offset_of` column `i` looks only at the columns before it.
proof fn lemma_offset_prefix(a: Seq<(Seq<char>, u8)>, b: Seq<(Seq<char>, u8)>, binary_data: bool, i: int)
    requires
        0 <= i,
        i <= a.len(),
        i <= b.len(),
        forall|j: int| 0 <= j < i ==> a[j] == b[j],
    ensures
        offset_of(a, binary_data, i) == offset_of(b, binary_data, i),
    decreases i,
{
    if i > 0 {
        lemma_offset_prefix(a, b, binary_data, i - 1);
    }
}

} // verus!
