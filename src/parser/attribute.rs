//! Attribute values, decoded according to the ADS type of their property.

use vstd::prelude::*;
use chrono::TimeZone;
use crate::bytes::{fits, read_bytes, read_i64, read_u16, read_u32, u16_at, u32_at, u64_at};
use crate::error::ParseError;
use crate::guid::GUID;
use crate::parser::wstr::{nt_units, read_wstring_nt};
use crate::security_descriptor::sddl::{sd_at, sd_ok, SDDL};
use crate::sid::{sid_at, sid_ok_at, SID};
use crate::text::utf16_lossy;

verus! {

/// What chrono gives as the UNIX time of a UTC calendar date and time, or
/// `None` where the date or time does not exist.
pub uninterp spec fn utc_seconds(
    year: u16,
    month: u16,
    day: u16,
    hour: u16,
    minute: u16,
    second: u16,
) -> Option<i64>;

/// Relies on chrono's `Utc.with_ymd_and_hms(..).single()` and
/// `DateTime::timestamp`: the UNIX time of a UTC date and time, `None` for a
/// month outside 1..=12, a day above 31, an hour above 23, a minute or second
/// above 59, or any other date or time that does not exist.
#[verifier::external_body]
fn utc_timestamp(year: u16, month: u16, day: u16, hour: u16, minute: u16, second: u16) -> (r:
    Option<i64>)
    ensures
        r == utc_seconds(year, month, day, hour, minute, second),
        month == 0 || month > 12 ==> r is None,
        day > 31 || hour >= 24 || minute >= 60 || second >= 60 ==> r is None,
{
    chrono::Utc.with_ymd_and_hms(
        year as i32,
        month as u32,
        day as u32,
        hour as u32,
        minute as u32,
        second as u32,
    ).single().map(|dt| dt.timestamp())
}

/// One value of an attribute.
#[derive(Debug, Clone)]
pub enum AttributeValue {
    String(String),
    OctetString(Vec<u8>),
    Boolean(bool),
    Integer(u32),
    LargeInteger(i64),
    UTCTime(i64),
    NTSecurityDescriptor(Vec<u8>),
}

/// A decoded attribute: the count stored in the file and its values.
#[derive(Debug, Clone)]
pub struct Attribute {
    pub num_values: u32,
    pub values: Vec<AttributeValue>,
}

/// A Windows SYSTEMTIME.
#[derive(Debug, Clone, Copy, PartialEq, Eq, Structural)]
pub struct SystemTime {
    pub year: u16,
    pub month: u16,
    pub day_of_week: u16,
    pub day: u16,
    pub hour: u16,
    pub minute: u16,
    pub second: u16,
    pub milliseconds: u16,
}

impl SystemTime {
    /// The UNIX time of this UTC date and time; `None` where it does not exist.
    pub fn to_unix_timestamp(&self) -> (r: Option<i64>)
        ensures
            r == utc_seconds(self.year, self.month, self.day, self.hour, self.minute, self.second),
    {
        utc_timestamp(self.year, self.month, self.day, self.hour, self.minute, self.second)
    }
}

/// 1970-01-01 as a FILETIME: 100-nanosecond intervals since 1601-01-01.
pub const FILETIME_UNIX_EPOCH: i64 = 116444736000000000;

/// The UNIX seconds of a FILETIME, rounded toward zero; zero stays zero.
pub open spec fn filetime_to_unix(t: i64) -> int {
    if t == 0 {
        0
    } else {
        let d = t - 116444736000000000int;
        if d >= 0 {
            d / 10000000
        } else {
            -((-d) / 10000000)
        }
    }
}

impl AttributeValue {
    pub fn as_string(&self) -> (r: Option<&String>)
        ensures
            match self {
                AttributeValue::String(s) => r == Some(s),
                _ => r is None,
            },
    {
        match self {
            AttributeValue::String(s) => Some(s),
            _ => None,
        }
    }

    pub fn as_str(&self) -> (r: Option<&str>)
        ensures
            match self {
                AttributeValue::String(s) => r is Some && (r->0)@ == s@,
                _ => r is None,
            },
    {
        match self {
            AttributeValue::String(s) => Some(s.as_str()),
            _ => None,
        }
    }

    pub fn as_integer(&self) -> (r: Option<u32>)
        ensures
            match self {
                AttributeValue::Integer(i) => r == Some(*i),
                _ => r is None,
            },
    {
        match self {
            AttributeValue::Integer(i) => Some(*i),
            _ => None,
        }
    }

    pub fn as_large_integer(&self) -> (r: Option<i64>)
        ensures
            match self {
                AttributeValue::LargeInteger(i) => r == Some(*i),
                _ => r is None,
            },
    {
        match self {
            AttributeValue::LargeInteger(i) => Some(*i),
            _ => None,
        }
    }

    pub fn as_boolean(&self) -> (r: Option<bool>)
        ensures
            match self {
                AttributeValue::Boolean(b) => r == Some(*b),
                _ => r is None,
            },
    {
        match self {
            AttributeValue::Boolean(b) => Some(*b),
            _ => None,
        }
    }

    pub fn as_octet_string(&self) -> (r: Option<&Vec<u8>>)
        ensures
            match self {
                AttributeValue::OctetString(o) => r == Some(o),
                _ => r is None,
            },
    {
        match self {
            AttributeValue::OctetString(o) => Some(o),
            _ => None,
        }
    }

    /// The security descriptor held by an `NTSecurityDescriptor` value, when it decodes.
    pub fn as_nt_security_descriptor(&self) -> (r: Option<SDDL>)
        ensures
            match self {
                AttributeValue::NTSecurityDescriptor(o) => match r {
                    Some(d) => sd_ok(o@) && sd_at(o@, d),
                    None => !sd_ok(o@),
                },
                _ => r is None,
            },
    {
        match self {
            AttributeValue::NTSecurityDescriptor(o) => match SDDL::from_bytes(o.as_slice()) {
                Ok(d) => Some(d),
                Err(_) => None,
            },
            _ => None,
        }
    }

    /// The SID held by an octet-string value, when it decodes.
    pub fn as_sid(&self) -> (r: Option<SID>)
        ensures
            match self {
                AttributeValue::OctetString(o) => match r {
                    Some(x) => sid_ok_at(o@, 0) && x.wf() && sid_at(o@, 0, x),
                    None => !sid_ok_at(o@, 0),
                },
                _ => r is None,
            },
    {
        match self {
            AttributeValue::OctetString(o) => SID::from_bytes(o.as_slice()),
            _ => None,
        }
    }

    /// The GUID held by an octet-string value of at least 16 bytes.
    pub fn as_guid(&self) -> (r: Option<GUID>)
        ensures
            match self {
                AttributeValue::OctetString(o) => match r {
                    Some(g) => o@.len() >= 16 && crate::guid::guid_at(o@, 0, g),
                    None => o@.len() < 16,
                },
                _ => r is None,
            },
    {
        match self {
            AttributeValue::OctetString(o) => GUID::from_bytes(o.as_slice()),
            _ => None,
        }
    }

    /// UNIX seconds of a FILETIME large integer or of a UTC time.
    pub fn as_unix_timestamp(&self) -> (r: Option<i64>)
        ensures
            match self {
                AttributeValue::LargeInteger(t) => r is Some && (r->0) as int == filetime_to_unix(*t),
                AttributeValue::UTCTime(t) => r == Some(*t),
                _ => r is None,
            },
    {
        match self {
            AttributeValue::LargeInteger(t) => {
                if *t == 0 {
                    return Some(0);
                }
                let d: i128 = (*t as i128) - (FILETIME_UNIX_EPOCH as i128);
                if d >= 0 {
                    Some((d / 10000000) as i64)
                } else {
                    let m: i128 = -d;
                    Some(-((m / 10000000) as i64))
                }
            },
            AttributeValue::UTCTime(t) => Some(*t),
            _ => None,
        }
    }
}

// ---- layout of the attribute at position p ----

/// Whether the ADS type holds strings reached through per-value offsets.
pub open spec fn string_like(ads: u32) -> bool {
    ads == 1 || ads == 2 || ads == 3 || ads == 4 || ads == 5 || ads == 12
}

/// Whether the decoder handles the ADS type.
pub open spec fn known_ads(ads: u32) -> bool {
    string_like(ads) || ads == 6 || ads == 7 || ads == 8 || ads == 9 || ads == 10 || ads == 25
}

/// Where the `i`-th octet string of the attribute at `p` with `n` values starts.
pub open spec fn octet_pos(s: Seq<u8>, p: int, n: int, i: nat) -> int
    decreases i,
{
    if i == 0 {
        p + 4 + 4 * n
    } else {
        octet_pos(s, p, n, (i - 1) as nat) + u32_at(s, p + 4 + 4 * (i - 1)) as int
    }
}

/// The fields of the SYSTEMTIME at `q`.
pub open spec fn utc_at(s: Seq<u8>, q: int) -> Option<i64> {
    utc_seconds(
        u16_at(s, q),
        u16_at(s, q + 2),
        u16_at(s, q + 6),
        u16_at(s, q + 8),
        u16_at(s, q + 10),
        u16_at(s, q + 12),
    )
}

/// Whether the `i`-th value of the attribute at `p` decodes.
pub open spec fn value_ok(s: Seq<u8>, p: int, ads: u32, i: int) -> bool {
    let n = u32_at(s, p) as int;
    if string_like(ads) {
        nt_units(s, p + u32_at(s, p + 4 + 4 * i) as int) is Some
    } else if ads == 8 {
        fits(s, octet_pos(s, p, n, i as nat), u32_at(s, p + 4 + 4 * i) as int)
    } else if ads == 9 {
        utc_at(s, p + 4 + 16 * i) is Some
    } else {
        true
    }
}

/// Whether `v` is the `i`-th value of the attribute at `p`.
pub open spec fn value_at(s: Seq<u8>, p: int, ads: u32, i: int, v: AttributeValue) -> bool {
    let n = u32_at(s, p) as int;
    if string_like(ads) {
        match v {
            AttributeValue::String(x) => x@ == utf16_lossy(
                nt_units(s, p + u32_at(s, p + 4 + 4 * i) as int)->0,
            ),
            _ => false,
        }
    } else if ads == 8 {
        match v {
            AttributeValue::OctetString(b) => b@ == s.subrange(
                octet_pos(s, p, n, i as nat),
                octet_pos(s, p, n, i as nat) + u32_at(s, p + 4 + 4 * i) as int,
            ),
            _ => false,
        }
    } else if ads == 7 {
        v == AttributeValue::Integer(u32_at(s, p + 4 + 4 * i))
    } else if ads == 10 {
        v == AttributeValue::LargeInteger(u64_at(s, p + 4 + 8 * i) as i64)
    } else if ads == 9 {
        v == AttributeValue::UTCTime(utc_at(s, p + 4 + 16 * i)->0)
    } else if ads == 6 {
        v == AttributeValue::Boolean(u32_at(s, p + 4) != 0)
    } else {
        match v {
            AttributeValue::NTSecurityDescriptor(b) => b@ == s.subrange(
                p + 8,
                p + 8 + u32_at(s, p + 4) as int,
            ),
            _ => false,
        }
    }
}

/// The bytes of the fixed-size table that follows the value count.
pub open spec fn table_bytes(ads: u32, n: int) -> int {
    if string_like(ads) || ads == 8 || ads == 7 {
        4 * n
    } else if ads == 10 {
        8 * n
    } else if ads == 9 {
        16 * n
    } else {
        4
    }
}

/// The number of values that the attribute at `p` holds once decoded.
pub open spec fn value_count(s: Seq<u8>, p: int, ads: u32) -> int {
    if ads == 6 || ads == 25 {
        1
    } else {
        u32_at(s, p) as int
    }
}

/// Whether the attribute of a handled ADS type at `p` decodes.
pub open spec fn attr_ok_at(s: Seq<u8>, p: int, ads: u32) -> bool {
    &&& known_ads(ads)
    &&& fits(s, p, 4)
    &&& fits(s, p + 4, table_bytes(ads, u32_at(s, p) as int))
    &&& (ads == 6 ==> u32_at(s, p) == 1)
    &&& (ads == 25 ==> fits(s, p + 8, u32_at(s, p + 4) as int))
    &&& forall|i: int| 0 <= i < value_count(s, p, ads) ==> #[trigger] value_ok(s, p, ads, i)
}

/// Whether `a` is the attribute decoded at `p`.
pub open spec fn attr_at(s: Seq<u8>, p: int, ads: u32, a: Attribute) -> bool {
    &&& a.num_values == u32_at(s, p)
    &&& a.values@.len() == value_count(s, p, ads)
    &&& forall|i: int| 0 <= i < a.values@.len() ==> #[trigger] value_at(s, p, ads, i, a.values@[i])
}

impl Attribute {
    /// Decodes the attribute at `pos` as values of ADS type `ads_type`.
    pub fn parse(data: &[u8], pos: usize, ads_type: u32) -> (r: Result<Attribute, ParseError>)
        ensures
            match r {
                Ok(a) => attr_ok_at(data@, pos as int, ads_type) && attr_at(
                    data@,
                    pos as int,
                    ads_type,
                    a,
                ),
                Err(e) => if known_ads(ads_type) {
                    e == ParseError::MalformedInput && !attr_ok_at(data@, pos as int, ads_type)
                } else {
                    e == ParseError::UnsupportedAdsType
                },
            },
    {
        let is_string = ads_type == 1 || ads_type == 2 || ads_type == 3 || ads_type == 4 || ads_type
            == 5 || ads_type == 12;
        if !(is_string || ads_type == 6 || ads_type == 7 || ads_type == 8 || ads_type == 9
            || ads_type == 10 || ads_type == 25) {
            return Err(ParseError::UnsupportedAdsType);
        }
        let num_values = match read_u32(data, pos) {
            Some(n) => n,
            None => return Err(ParseError::MalformedInput),
        };
        let values = if is_string {
            Self::parse_string_values(data, pos, num_values, ads_type)?
        } else if ads_type == 8 {
            Self::parse_octet_string_values(data, pos, num_values)?
        } else if ads_type == 6 {
            if num_values != 1 || data.len() - pos < 8 {
                return Err(ParseError::MalformedInput);
            }
            let b = read_u32(data, pos + 4).unwrap();
            let v = vec![AttributeValue::Boolean(b != 0)];
            proof {
                assert(value_at(data@, pos as int, ads_type, 0, v@[0]));
            }
            v
        } else if ads_type == 7 {
            Self::parse_integer_values(data, pos, num_values)?
        } else if ads_type == 10 {
            Self::parse_large_integer_values(data, pos, num_values)?
        } else if ads_type == 9 {
            Self::parse_utc_time_values(data, pos, num_values)?
        } else {
            Self::parse_nt_security_descriptor(data, pos)?
        };
        Ok(Attribute { num_values, values })
    }

    fn parse_string_values(data: &[u8], pos: usize, n: u32, ads_type: u32) -> (r: Result<
        Vec<AttributeValue>,
        ParseError,
    >)
        requires
            string_like(ads_type),
            fits(data@, pos as int, 4),
            n == u32_at(data@, pos as int),
        ensures
            match r {
                Ok(v) => attr_ok_at(data@, pos as int, ads_type) && v@.len() == n && forall|i: int|
                    0 <= i < n ==> #[trigger] value_at(data@, pos as int, ads_type, i, v@[i]),
                Err(e) => e == ParseError::MalformedInput && !attr_ok_at(
                    data@,
                    pos as int,
                    ads_type,
                ),
            },
    {
        if (data.len() - pos - 4) / 4 < n as usize {
            return Err(ParseError::MalformedInput);
        }
        let mut out: Vec<AttributeValue> = Vec::new();
        let mut i: u32 = 0;
        while i < n
            invariant
                fits(data@, pos as int + 4, 4 * n),
                data@.len() <= usize::MAX,
                string_like(ads_type),
                n == u32_at(data@, pos as int),
                i <= n,
                out@.len() == i,
                forall|j: int| 0 <= j < i ==> #[trigger] value_ok(data@, pos as int, ads_type, j),
                forall|j: int|
                    0 <= j < i ==> #[trigger] value_at(data@, pos as int, ads_type, j, out@[j]),
            decreases n - i,
        {
            let off = read_u32(data, pos + 4 + 4 * (i as usize)).unwrap();
            if off as usize > data.len() - pos {
                proof {
                    assert(!value_ok(data@, pos as int, ads_type, i as int));
                }
                return Err(ParseError::MalformedInput);
            }
            match read_wstring_nt(data, pos + off as usize) {
                Some((x, _)) => {
                    out.push(AttributeValue::String(x));
                },
                None => {
                    proof {
                        assert(!value_ok(data@, pos as int, ads_type, i as int));
                    }
                    return Err(ParseError::MalformedInput);
                },
            }
            i = i + 1;
        }
        Ok(out)
    }

    fn parse_octet_string_values(data: &[u8], pos: usize, n: u32) -> (r: Result<
        Vec<AttributeValue>,
        ParseError,
    >)
        requires
            fits(data@, pos as int, 4),
            n == u32_at(data@, pos as int),
        ensures
            match r {
                Ok(v) => attr_ok_at(data@, pos as int, 8) && v@.len() == n && forall|i: int|
                    0 <= i < n ==> #[trigger] value_at(data@, pos as int, 8, i, v@[i]),
                Err(e) => e == ParseError::MalformedInput && !attr_ok_at(data@, pos as int, 8),
            },
    {
        if (data.len() - pos - 4) / 4 < n as usize {
            return Err(ParseError::MalformedInput);
        }
        let mut out: Vec<AttributeValue> = Vec::new();
        let mut q: usize = pos + 4 + 4 * (n as usize);
        let mut i: u32 = 0;
        while i < n
            invariant
                fits(data@, pos as int + 4, 4 * n),
                data@.len() <= usize::MAX,
                n == u32_at(data@, pos as int),
                i <= n,
                q == octet_pos(data@, pos as int, n as int, i as nat),
                q <= data@.len(),
                out@.len() == i,
                forall|j: int| 0 <= j < i ==> #[trigger] value_ok(data@, pos as int, 8, j),
                forall|j: int| 0 <= j < i ==> #[trigger] value_at(data@, pos as int, 8, j, out@[j]),
            decreases n - i,
        {
            let len = read_u32(data, pos + 4 + 4 * (i as usize)).unwrap();
            match read_bytes(data, q, len as usize) {
                Some(b) => {
                    out.push(AttributeValue::OctetString(b));
                },
                None => {
                    proof {
                        assert(!value_ok(data@, pos as int, 8, i as int));
                    }
                    return Err(ParseError::MalformedInput);
                },
            }
            q = q + len as usize;
            i = i + 1;
        }
        Ok(out)
    }

    fn parse_integer_values(data: &[u8], pos: usize, n: u32) -> (r: Result<
        Vec<AttributeValue>,
        ParseError,
    >)
        requires
            fits(data@, pos as int, 4),
            n == u32_at(data@, pos as int),
        ensures
            match r {
                Ok(v) => attr_ok_at(data@, pos as int, 7) && v@.len() == n && forall|i: int|
                    0 <= i < n ==> #[trigger] value_at(data@, pos as int, 7, i, v@[i]),
                Err(e) => e == ParseError::MalformedInput && !attr_ok_at(data@, pos as int, 7),
            },
    {
        if (data.len() - pos - 4) / 4 < n as usize {
            return Err(ParseError::MalformedInput);
        }
        let mut out: Vec<AttributeValue> = Vec::new();
        let mut i: u32 = 0;
        while i < n
            invariant
                fits(data@, pos as int + 4, 4 * n),
                data@.len() <= usize::MAX,
                n == u32_at(data@, pos as int),
                i <= n,
                out@.len() == i,
                forall|j: int| 0 <= j < i ==> #[trigger] value_at(data@, pos as int, 7, j, out@[j]),
            decreases n - i,
        {
            let v = read_u32(data, pos + 4 + 4 * (i as usize)).unwrap();
            out.push(AttributeValue::Integer(v));
            i = i + 1;
        }
        Ok(out)
    }

    fn parse_large_integer_values(data: &[u8], pos: usize, n: u32) -> (r: Result<
        Vec<AttributeValue>,
        ParseError,
    >)
        requires
            fits(data@, pos as int, 4),
            n == u32_at(data@, pos as int),
        ensures
            match r {
                Ok(v) => attr_ok_at(data@, pos as int, 10) && v@.len() == n && forall|i: int|
                    0 <= i < n ==> #[trigger] value_at(data@, pos as int, 10, i, v@[i]),
                Err(e) => e == ParseError::MalformedInput && !attr_ok_at(data@, pos as int, 10),
            },
    {
        if (data.len() - pos - 4) / 8 < n as usize {
            return Err(ParseError::MalformedInput);
        }
        let mut out: Vec<AttributeValue> = Vec::new();
        let mut i: u32 = 0;
        while i < n
            invariant
                fits(data@, pos as int + 4, 8 * n),
                data@.len() <= usize::MAX,
                n == u32_at(data@, pos as int),
                i <= n,
                out@.len() == i,
                forall|j: int|
                    0 <= j < i ==> #[trigger] value_at(data@, pos as int, 10, j, out@[j]),
            decreases n - i,
        {
            let v = read_i64(data, pos + 4 + 8 * (i as usize)).unwrap();
            out.push(AttributeValue::LargeInteger(v));
            i = i + 1;
        }
        Ok(out)
    }

    fn parse_utc_time_values(data: &[u8], pos: usize, n: u32) -> (r: Result<
        Vec<AttributeValue>,
        ParseError,
    >)
        requires
            fits(data@, pos as int, 4),
            n == u32_at(data@, pos as int),
        ensures
            match r {
                Ok(v) => attr_ok_at(data@, pos as int, 9) && v@.len() == n && forall|i: int|
                    0 <= i < n ==> #[trigger] value_at(data@, pos as int, 9, i, v@[i]),
                Err(e) => e == ParseError::MalformedInput && !attr_ok_at(data@, pos as int, 9),
            },
    {
        if (data.len() - pos - 4) / 16 < n as usize {
            return Err(ParseError::MalformedInput);
        }
        let mut out: Vec<AttributeValue> = Vec::new();
        let mut i: u32 = 0;
        while i < n
            invariant
                fits(data@, pos as int + 4, 16 * n),
                data@.len() <= usize::MAX,
                n == u32_at(data@, pos as int),
                i <= n,
                out@.len() == i,
                forall|j: int| 0 <= j < i ==> #[trigger] value_ok(data@, pos as int, 9, j),
                forall|j: int| 0 <= j < i ==> #[trigger] value_at(data@, pos as int, 9, j, out@[j]),
            decreases n - i,
        {
            let q = pos + 4 + 16 * (i as usize);
            let time = SystemTime {
                year: read_u16(data, q).unwrap(),
                month: read_u16(data, q + 2).unwrap(),
                day_of_week: read_u16(data, q + 4).unwrap(),
                day: read_u16(data, q + 6).unwrap(),
                hour: read_u16(data, q + 8).unwrap(),
                minute: read_u16(data, q + 10).unwrap(),
                second: read_u16(data, q + 12).unwrap(),
                milliseconds: read_u16(data, q + 14).unwrap(),
            };
            match time.to_unix_timestamp() {
                Some(t) => {
                    out.push(AttributeValue::UTCTime(t));
                },
                None => {
                    proof {
                        assert(!value_ok(data@, pos as int, 9, i as int));
                    }
                    return Err(ParseError::MalformedInput);
                },
            }
            i = i + 1;
        }
        Ok(out)
    }

    fn parse_nt_security_descriptor(data: &[u8], pos: usize) -> (r: Result<
        Vec<AttributeValue>,
        ParseError,
    >)
        requires
            fits(data@, pos as int, 4),
        ensures
            match r {
                Ok(v) => attr_ok_at(data@, pos as int, 25) && v@.len() == 1 && value_at(
                    data@,
                    pos as int,
                    25,
                    0,
                    v@[0],
                ),
                Err(e) => e == ParseError::MalformedInput && !attr_ok_at(data@, pos as int, 25),
            },
    {
        let total = data.len();
        if total - pos < 8 {
            return Err(ParseError::MalformedInput);
        }
        let len = read_u32(data, pos + 4).unwrap();
        match read_bytes(data, pos + 8, len as usize) {
            Some(b) => Ok(vec![AttributeValue::NTSecurityDescriptor(b)]),
            None => Err(ParseError::MalformedInput),
        }
    }
}

} // verus!
