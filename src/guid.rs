//! GUIDs in Microsoft's mixed-endian layout.

use vstd::prelude::*;
use crate::bytes::{fits, read_u16, read_u32, u16_at, u32_at};
use crate::text::{hex_fixed, push_hex, push_str, string_from_chars};

verus! {

/// A GUID: `data1`, `data2` and `data3` little-endian on disk; `data4` holds
/// the last eight bytes as stored, read as one big-endian number.
#[derive(Debug, Clone, Copy, PartialEq, Eq, Structural, Hash)]
pub struct GUID {
    pub data1: u32,
    pub data2: u16,
    pub data3: u16,
    pub data4: u64,
}

/// The big-endian `u32` at `p`.
pub open spec fn be_u32_at(s: Seq<u8>, p: int) -> u32 {
    (s[p] as int * 0x100_0000 + s[p + 1] as int * 0x1_0000 + s[p + 2] as int * 0x100 + s[p
        + 3] as int) as u32
}

/// Whether `g` is the GUID held by the 16 bytes at `p`.
pub open spec fn guid_at(s: Seq<u8>, p: int, g: GUID) -> bool {
    &&& g.data1 == u32_at(s, p)
    &&& g.data2 == u16_at(s, p + 4)
    &&& g.data3 == u16_at(s, p + 6)
    &&& g.data4 == be_u32_at(s, p + 8) as int * 0x1_0000_0000 + be_u32_at(s, p + 12) as int
}

/// The canonical upper-case form `XXXXXXXX-XXXX-XXXX-XXXX-XXXXXXXXXXXX`.
pub open spec fn guid_string(g: GUID) -> Seq<char> {
    hex_fixed(g.data1 as nat, 8) + seq!['-'] + hex_fixed(g.data2 as nat, 4) + seq!['-']
        + hex_fixed(g.data3 as nat, 4) + seq!['-'] + hex_fixed(g.data4 as nat / 0x1_0000_0000_0000, 4)
        + seq!['-'] + hex_fixed(g.data4 as nat, 12)
}

fn read_be_u32(data: &[u8], pos: usize) -> (r: u32)
    requires
        fits(data@, pos as int, 4),
    ensures
        r == be_u32_at(data@, pos as int),
{
    (data[pos] as u32) * 0x100_0000 + (data[pos + 1] as u32) * 0x1_0000 + (data[pos + 2] as u32)
        * 0x100 + (data[pos + 3] as u32)
}

/// Reads the GUID at `pos`.
pub fn read_guid_at(data: &[u8], pos: usize) -> (r: Option<GUID>)
    ensures
        match r {
            Some(g) => fits(data@, pos as int, 16) && guid_at(data@, pos as int, g),
            None => !fits(data@, pos as int, 16),
        },
{
    if !(pos <= data.len() && data.len() - pos >= 16) {
        return None;
    }
    let data1 = read_u32(data, pos).unwrap();
    let data2 = read_u16(data, pos + 4).unwrap();
    let data3 = read_u16(data, pos + 6).unwrap();
    let data4 = (read_be_u32(data, pos + 8) as u64) * 0x1_0000_0000 + (read_be_u32(
        data,
        pos + 12,
    ) as u64);
    Some(GUID { data1, data2, data3, data4 })
}

impl GUID {
    /// The GUID held by the first 16 bytes of `input`; `None` when it is shorter.
    pub fn from_bytes(input: &[u8]) -> (r: Option<GUID>)
        ensures
            match r {
                Some(g) => input@.len() >= 16 && guid_at(input@, 0, g),
                None => input@.len() < 16,
            },
    {
        read_guid_at(input, 0)
    }

    /// The GUID held by the first 16 bytes of `input`, with the bytes after it.
    pub fn from_next_bytes(input: &[u8]) -> (r: Option<(&[u8], GUID)>)
        ensures
            match r {
                Some((rest, g)) => input@.len() >= 16 && guid_at(input@, 0, g) && rest@
                    == input@.subrange(16, input@.len() as int),
                None => input@.len() < 16,
            },
    {
        match read_guid_at(input, 0) {
            Some(g) => {
                let (_, rest) = input.split_at(16);
                Some((rest, g))
            },
            None => None,
        }
    }

    /// Whether every byte is zero.
    pub open spec fn spec_is_zero(&self) -> bool {
        self.data1 == 0 && self.data2 == 0 && self.data3 == 0 && self.data4 == 0
    }

    pub fn is_zero(&self) -> (r: bool)
        ensures
            r == self.spec_is_zero(),
    {
        self.data1 == 0 && self.data2 == 0 && self.data3 == 0 && self.data4 == 0
    }

    pub fn to_string(&self) -> (r: String)
        ensures
            r@ == guid_string(*self),
    {
        let mut out: Vec<char> = Vec::new();
        push_hex(&mut out, self.data1 as u64, 8);
        push_str(&mut out, "-");
        push_hex(&mut out, self.data2 as u64, 4);
        push_str(&mut out, "-");
        push_hex(&mut out, self.data3 as u64, 4);
        push_str(&mut out, "-");
        push_hex(&mut out, self.data4 / 0x1_0000_0000_0000, 4);
        push_str(&mut out, "-");
        push_hex(&mut out, self.data4, 12);
        proof {
            reveal_strlit("-");
            assert(out@ =~= guid_string(*self));
        }
        string_from_chars(&out)
    }
}

} // verus!

verus! {

/// Whether `t` is the canonical text of the GUID at the start of `o`.
pub open spec fn guid_text_of(o: Seq<u8>, t: Seq<char>) -> bool {
    o.len() >= 16 && exists|g: GUID| guid_at(o, 0, g) && guid_string(g) == t
}

} // verus!
