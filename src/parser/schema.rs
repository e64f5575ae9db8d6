//! The snapshot header and the schema tables: properties, classes and rights.

use vstd::prelude::*;
use crate::bytes::{fits, read_bytes, read_i32, read_u32, read_u64, u32_at, u64_at};
use crate::guid::{guid_at, read_guid_at, GUID};
use crate::parser::wstr::{
    fixed_wstr, pstr, pstr_end, pstr_ok, read_wstring_fixed, read_wstring_prefixed,
};
use crate::text::{chars_of, string_from_chars};

verus! {

/// The position of the first object, right after the header.
pub const HEADER_SIZE: usize = 0x43e;

/// The magic bytes `win-ad-sig`.
pub open spec fn magic() -> Seq<u8> {
    seq![0x77u8, 0x69, 0x6e, 0x2d, 0x61, 0x64, 0x2d, 0x73, 0x69, 0x67]
}

/// The snapshot header.
#[derive(Debug, Clone)]
pub struct Header {
    pub win_ad_sig: String,
    pub marker: i32,
    pub filetime: u64,
    pub optional_description: String,
    pub server: String,
    pub num_objects: u32,
    pub num_attributes: u32,
    pub fileoffset_low: u32,
    pub fileoffset_high: u32,
    pub fileoffset_end: u32,
    pub unk0x43a: i32,
}

/// Whether the bytes start with a header.
pub open spec fn header_ok(s: Seq<u8>) -> bool {
    s.len() >= 0x43e && s.subrange(0, 10) == magic()
}

/// Whether `h` is the header at the start of the bytes.
pub open spec fn header_at(s: Seq<u8>, h: Header) -> bool {
    &&& h.win_ad_sig@ == seq!['w', 'i', 'n', '-', 'a', 'd', '-', 's', 'i', 'g']
    &&& h.marker == u32_at(s, 0x0a) as i32
    &&& h.filetime == u64_at(s, 0x0e)
    &&& h.optional_description@ == fixed_wstr(s, 0x16, 260)
    &&& h.server@ == fixed_wstr(s, 0x21e, 260)
    &&& h.num_objects == u32_at(s, 0x426)
    &&& h.num_attributes == u32_at(s, 0x42a)
    &&& h.fileoffset_low == u32_at(s, 0x42e)
    &&& h.fileoffset_high == u32_at(s, 0x432)
    &&& h.fileoffset_end == u32_at(s, 0x436)
    &&& h.unk0x43a == u32_at(s, 0x43a) as i32
}

impl Header {
    /// Decodes the header; `None` on a short input or a wrong magic.
    pub fn parse(data: &[u8]) -> (r: Option<Header>)
        ensures
            match r {
                Some(h) => header_ok(data@) && header_at(data@, h),
                None => !header_ok(data@),
            },
    {
        if data.len() < HEADER_SIZE {
            return None;
        }
        let expected: [u8; 10] = [0x77, 0x69, 0x6e, 0x2d, 0x61, 0x64, 0x2d, 0x73, 0x69, 0x67];
        let mut i: usize = 0;
        while i < 10
            invariant
                data@.len() >= 0x43e,
                i <= 10,
                expected@ == magic(),
                forall|j: int| 0 <= j < i ==> data@[j] == magic()[j],
            decreases 10 - i,
        {
            if data[i] != expected[i] {
                proof {
                    assert(data@.subrange(0, 10)[i as int] != magic()[i as int]);
                }
                return None;
            }
            i = i + 1;
        }
        proof {
            assert(data@.subrange(0, 10) =~= magic());
            reveal_strlit("win-ad-sig");
        }
        let win_ad_sig = string_from_chars(&chars_of("win-ad-sig"));
        proof {
            assert(win_ad_sig@ =~= seq!['w', 'i', 'n', '-', 'a', 'd', '-', 's', 'i', 'g']);
        }
        Some(
            Header {
                win_ad_sig,
                marker: read_i32(data, 0x0a).unwrap(),
                filetime: read_u64(data, 0x0e).unwrap(),
                optional_description: read_wstring_fixed(data, 0x16, 260).unwrap(),
                server: read_wstring_fixed(data, 0x21e, 260).unwrap(),
                num_objects: read_u32(data, 0x426).unwrap(),
                num_attributes: read_u32(data, 0x42a).unwrap(),
                fileoffset_low: read_u32(data, 0x42e).unwrap(),
                fileoffset_high: read_u32(data, 0x432).unwrap(),
                fileoffset_end: read_u32(data, 0x436).unwrap(),
                unk0x43a: read_i32(data, 0x43a).unwrap(),
            },
        )
    }
}

/// A schema attribute of the property dictionary.
#[derive(Debug, Clone)]
pub struct Property {
    pub prop_name: String,
    pub unk1: i32,
    pub ads_type: u32,
    pub dn: String,
    pub schema_id_guid: GUID,
    pub attribute_security_guid: GUID,
}

/// The position of the distinguished name of the property record at `p`.
pub open spec fn property_dn_pos(s: Seq<u8>, p: int) -> int {
    pstr_end(s, p) + 8
}

/// The position after the property record at `p`.
pub open spec fn property_end(s: Seq<u8>, p: int) -> int {
    pstr_end(s, property_dn_pos(s, p)) + 36
}

/// Whether a property record can be read at `p`.
pub open spec fn property_ok(s: Seq<u8>, p: int) -> bool {
    &&& pstr_ok(s, p)
    &&& fits(s, pstr_end(s, p), 8)
    &&& pstr_ok(s, property_dn_pos(s, p))
    &&& fits(s, pstr_end(s, property_dn_pos(s, p)), 36)
}

/// Whether `x` is the property record at `p`.
pub open spec fn property_at(s: Seq<u8>, p: int, x: Property) -> bool {
    let q = pstr_end(s, p);
    let d = property_dn_pos(s, p);
    let g = pstr_end(s, d);
    &&& x.prop_name@ == pstr(s, p)
    &&& x.unk1 == u32_at(s, q) as i32
    &&& x.ads_type == u32_at(s, q + 4)
    &&& x.dn@ == pstr(s, d)
    &&& guid_at(s, g, x.schema_id_guid)
    &&& guid_at(s, g + 16, x.attribute_security_guid)
}

impl Property {
    /// Decodes the property record at `pos`; returns it with the position after it.
    pub fn parse(data: &[u8], pos: usize) -> (r: Option<(Property, usize)>)
        ensures
            match r {
                Some((x, end)) => property_ok(data@, pos as int) && property_at(
                    data@,
                    pos as int,
                    x,
                ) && end == property_end(data@, pos as int),
                None => !property_ok(data@, pos as int),
            },
    {
        let (prop_name, q) = match read_wstring_prefixed(data, pos) {
            Some(x) => x,
            None => return None,
        };
        if data.len() - q < 8 {
            return None;
        }
        let unk1 = read_i32(data, q).unwrap();
        let ads_type = read_u32(data, q + 4).unwrap();
        let (dn, g) = match read_wstring_prefixed(data, q + 8) {
            Some(x) => x,
            None => return None,
        };
        if data.len() - g < 36 {
            return None;
        }
        let schema_id_guid = read_guid_at(data, g).unwrap();
        let attribute_security_guid = read_guid_at(data, g + 16).unwrap();
        Some(
            (
                Property { prop_name, unk1, ads_type, dn, schema_id_guid, attribute_security_guid },
                g + 36,
            ),
        )
    }
}

/// An opaque block of a class record.
#[derive(Debug, Clone)]
pub struct Block {
    pub unk1: u32,
    pub unk2: u32,
    pub unk3: Vec<u8>,
}

impl Block {
    /// Decodes a block: two numbers, the second the length of the bytes that follow.
    pub fn parse(data: &[u8], pos: usize) -> (r: Option<(Block, usize)>)
        ensures
            match r {
                Some((b, end)) => fits(data@, pos as int, 8) && b.unk1 == u32_at(data@, pos as int)
                    && b.unk2 == u32_at(data@, pos + 4) && fits(data@, pos + 8, b.unk2 as int)
                    && b.unk3@ == data@.subrange(pos + 8, pos + 8 + b.unk2) && end == pos + 8
                    + b.unk2,
                None => !(fits(data@, pos as int, 8) && fits(
                    data@,
                    pos + 8,
                    u32_at(data@, pos + 4) as int,
                )),
            },
    {
        if !(pos <= data.len() && data.len() - pos >= 8) {
            return None;
        }
        let unk1 = read_u32(data, pos).unwrap();
        let unk2 = read_u32(data, pos + 4).unwrap();
        match read_bytes(data, pos + 8, unk2 as usize) {
            Some(unk3) => Some((Block { unk1, unk2, unk3 }, pos + 8 + unk2 as usize)),
            None => None,
        }
    }
}

/// A class of the schema.
#[derive(Debug, Clone)]
pub struct Class {
    pub class_name: String,
    pub dn: String,
    pub common_class_name: String,
    pub sub_class_of: String,
    pub schema_id_guid: GUID,
    pub unk2: Vec<u8>,
    pub blocks: Vec<Block>,
    pub unknown: Vec<u8>,
    pub system_poss_superiors: Vec<String>,
    pub auxiliary_classes: Vec<String>,
}

/// Whether the four names of the class record at `p` can be read.
pub open spec fn class_names_ok(s: Seq<u8>, p: int) -> bool {
    let p1 = pstr_end(s, p);
    let p2 = pstr_end(s, p1);
    let p3 = pstr_end(s, p2);
    pstr_ok(s, p) && pstr_ok(s, p1) && pstr_ok(s, p2) && pstr_ok(s, p3)
}

/// Whether the names and the GUID of `c` are those of the class record at `p`.
pub open spec fn class_head_at(s: Seq<u8>, p: int, c: Class) -> bool {
    let p1 = pstr_end(s, p);
    let p2 = pstr_end(s, p1);
    let p3 = pstr_end(s, p2);
    let g = pstr_end(s, p3);
    &&& c.class_name@ == pstr(s, p)
    &&& c.dn@ == pstr(s, p1)
    &&& c.common_class_name@ == pstr(s, p2)
    &&& c.sub_class_of@ == pstr(s, p3)
    &&& fits(s, g, 16)
    &&& guid_at(s, g, c.schema_id_guid)
    &&& fits(s, g + 16, 4)
    &&& c.unk2@ == s.subrange(g + 20, g + 20 + u32_at(s, g + 16))
}

/// The position after the first `n` length-prefixed strings from `q`.
pub open spec fn strs_end(s: Seq<u8>, q: int, n: nat) -> int
    decreases n,
{
    if n == 0 {
        q
    } else {
        pstr_end(s, strs_end(s, q, (n - 1) as nat))
    }
}

/// Whether the first `n` length-prefixed strings from `q` can be read.
pub open spec fn strs_ok(s: Seq<u8>, q: int, n: nat) -> bool
    decreases n,
{
    n == 0 || (strs_ok(s, q, (n - 1) as nat) && pstr_ok(s, strs_end(s, q, (n - 1) as nat)))
}

/// Whether a counted list of strings can be read at `p`.
pub open spec fn list_ok(s: Seq<u8>, p: int) -> bool {
    fits(s, p, 4) && strs_ok(s, p + 4, u32_at(s, p) as nat)
}

/// The position after the counted list of strings at `p`.
pub open spec fn list_end(s: Seq<u8>, p: int) -> int {
    strs_end(s, p + 4, u32_at(s, p) as nat)
}

/// The position after the first `n` blocks from `q`.
pub open spec fn blocks_end(s: Seq<u8>, q: int, n: nat) -> int
    decreases n,
{
    if n == 0 {
        q
    } else {
        let e = blocks_end(s, q, (n - 1) as nat);
        e + 8 + u32_at(s, e + 4)
    }
}

/// Whether the first `n` blocks from `q` can be read.
pub open spec fn blocks_ok(s: Seq<u8>, q: int, n: nat) -> bool
    decreases n,
{
    n == 0 || {
        let e = blocks_end(s, q, (n - 1) as nat);
        blocks_ok(s, q, (n - 1) as nat) && fits(s, e, 8) && fits(s, e + 8, u32_at(s, e + 4) as int)
    }
}

/// Where the block count of the class record at `p` stands.
pub open spec fn class_blocks_pos(s: Seq<u8>, p: int) -> int {
    let g = pstr_end(s, pstr_end(s, pstr_end(s, pstr_end(s, p))));
    g + 20 + u32_at(s, g + 16)
}

/// Where the unknown table stands, for a class tail at `b`.
pub open spec fn tail_unknown_pos(s: Seq<u8>, b: int) -> int {
    blocks_end(s, b + 4, u32_at(s, b) as nat)
}

/// Where the list of possible superiors stands, for a class tail at `b`.
pub open spec fn tail_lists_pos(s: Seq<u8>, b: int) -> int {
    let u = tail_unknown_pos(s, b);
    u + 4 + 16 * u32_at(s, u)
}

/// Whether the tail of a class record (blocks, unknown table and the two
/// string lists) can be read at `b`.
pub open spec fn class_tail_ok(s: Seq<u8>, b: int) -> bool {
    let u = tail_unknown_pos(s, b);
    let l = tail_lists_pos(s, b);
    &&& fits(s, b, 4)
    &&& blocks_ok(s, b + 4, u32_at(s, b) as nat)
    &&& fits(s, u, 4)
    &&& fits(s, u + 4, 16 * u32_at(s, u))
    &&& list_ok(s, l)
    &&& list_ok(s, list_end(s, l))
}

/// Whether `x` is the block at `e`.
pub open spec fn block_at(s: Seq<u8>, e: int, x: Block) -> bool {
    x.unk1 == u32_at(s, e) && x.unk2 == u32_at(s, e + 4) && x.unk3@ == s.subrange(
        e + 8,
        e + 8 + u32_at(s, e + 4),
    )
}

/// Whether `v` holds the texts of the counted list of strings at `p`.
pub open spec fn list_at(s: Seq<u8>, p: int, v: Seq<String>) -> bool {
    v.len() == u32_at(s, p) && forall|i: int|
        0 <= i < v.len() ==> (#[trigger] v[i])@ == pstr(s, strs_end(s, p + 4, i as nat))
}

/// Whether these are the blocks, unknown table and string lists of the class
/// tail at `b`.
pub open spec fn tail_parts_at(
    s: Seq<u8>,
    b: int,
    blocks: Seq<Block>,
    unknown: Seq<u8>,
    superiors: Seq<String>,
    auxiliaries: Seq<String>,
) -> bool {
    let u = tail_unknown_pos(s, b);
    let l = tail_lists_pos(s, b);
    &&& blocks.len() == u32_at(s, b)
    &&& forall|i: int|
        0 <= i < blocks.len() ==> block_at(s, blocks_end(s, b + 4, i as nat), #[trigger] blocks[i])
    &&& unknown == s.subrange(u + 4, u + 4 + 16 * u32_at(s, u))
    &&& list_at(s, l, superiors)
    &&& list_at(s, list_end(s, l), auxiliaries)
}

/// Whether the tail fields of `c` are those of the class record at `p`.
pub open spec fn class_tail_at(s: Seq<u8>, p: int, c: Class) -> bool {
    tail_parts_at(
        s,
        class_blocks_pos(s, p),
        c.blocks@,
        c.unknown@,
        c.system_poss_superiors@,
        c.auxiliary_classes@,
    )
}

/// The position after a class tail at `b`.
pub open spec fn class_tail_end(s: Seq<u8>, b: int) -> int {
    list_end(s, list_end(s, tail_lists_pos(s, b)))
}

/// Whether the head of a class record (four names, GUID and the opaque
/// bytes) can be read at `p`.
pub open spec fn class_head_ok(s: Seq<u8>, p: int) -> bool {
    let g = pstr_end(s, pstr_end(s, pstr_end(s, pstr_end(s, p))));
    &&& class_names_ok(s, p)
    &&& fits(s, g, 20)
    &&& fits(s, g + 20, u32_at(s, g + 16) as int)
}

/// The position after the class record at `p`.
pub open spec fn class_end(s: Seq<u8>, p: int) -> int {
    class_tail_end(s, class_blocks_pos(s, p))
}

/// Whether the class record at `p` can be read.
pub open spec fn class_ok(s: Seq<u8>, p: int) -> bool {
    class_head_ok(s, p) && class_tail_ok(s, class_blocks_pos(s, p))
}

/// Reads a count and that many length-prefixed strings.
fn read_string_list(data: &[u8], pos: usize) -> (r: Option<(Vec<String>, usize)>)
    ensures
        match r {
            Some((v, end)) => list_ok(data@, pos as int) && end == list_end(data@, pos as int)
                && end <= data@.len() && v@.len() == u32_at(data@, pos as int) && forall|i: int|
                0 <= i < v@.len() ==> (#[trigger] v@[i])@ == pstr(
                    data@,
                    strs_end(data@, pos + 4, i as nat),
                ),
            None => !list_ok(data@, pos as int),
        },
{
    let total = data.len();
    let n = match read_u32(data, pos) {
        Some(n) => n,
        None => return None,
    };
    let mut q: usize = pos + 4;
    let mut out: Vec<String> = Vec::new();
    let mut i: u32 = 0;
    while i < n
        invariant
            fits(data@, pos as int, 4),
            n == u32_at(data@, pos as int),
            q <= data@.len(),
            i <= n,
            out@.len() == i,
            q == strs_end(data@, pos + 4, i as nat),
            strs_ok(data@, pos + 4, i as nat),
            forall|j: int|
                0 <= j < i ==> (#[trigger] out@[j])@ == pstr(
                    data@,
                    strs_end(data@, pos + 4, j as nat),
                ),
        decreases n - i,
    {
        match read_wstring_prefixed(data, q) {
            Some((x, next)) => {
                out.push(x);
                q = next;
            },
            None => {
                proof {
                    lemma_strs_ok_prefix(data@, pos + 4, i as nat, n as nat);
                }
                return None;
            },
        }
        i = i + 1;
    }
    Some((out, q))
}

/// Reading more strings needs the earlier ones to be readable.
proof fn lemma_strs_ok_prefix(s: Seq<u8>, q: int, i: nat, n: nat)
    requires
        i < n,
        !pstr_ok(s, strs_end(s, q, i)),
    ensures
        !strs_ok(s, q, n),
    decreases n - i,
{
    if i + 1 < n {
        lemma_strs_ok_prefix(s, q, i, (n - 1) as nat);
    }
}

/// Reading more blocks needs the earlier ones to be readable.
proof fn lemma_blocks_ok_prefix(s: Seq<u8>, q: int, i: nat, n: nat)
    requires
        i < n,
        !(fits(s, blocks_end(s, q, i), 8) && fits(
            s,
            blocks_end(s, q, i) + 8,
            u32_at(s, blocks_end(s, q, i) + 4) as int,
        )),
    ensures
        !blocks_ok(s, q, n),
    decreases n - i,
{
    if i + 1 < n {
        lemma_blocks_ok_prefix(s, q, i, (n - 1) as nat);
    }
}

impl Class {
    /// Decodes the class record at `pos`; returns it with the position after it.
    pub fn parse(data: &[u8], pos: usize) -> (r: Option<(Class, usize)>)
        ensures
            match r {
                Some((c, end)) => class_ok(data@, pos as int) && class_head_at(
                    data@,
                    pos as int,
                    c,
                ) && class_tail_at(data@, pos as int, c) && end == class_end(data@, pos as int)
                    && end <= data@.len(),
                None => !class_ok(data@, pos as int),
            },
    {
        let (c, b) = match Self::parse_head(data, pos) {
            Some(x) => x,
            None => return None,
        };
        let (blocks, unknown, system_poss_superiors, auxiliary_classes, end) = match Self::parse_tail(
            data,
            b,
        ) {
            Some(x) => x,
            None => return None,
        };
        Some(
            (
                Class {
                    class_name: c.class_name,
                    dn: c.dn,
                    common_class_name: c.common_class_name,
                    sub_class_of: c.sub_class_of,
                    schema_id_guid: c.schema_id_guid,
                    unk2: c.unk2,
                    blocks,
                    unknown,
                    system_poss_superiors,
                    auxiliary_classes,
                },
                end,
            ),
        )
    }

    /// The names, GUID and opaque bytes of the class record at `pos`, with
    /// the position of its tail; the other fields are left empty.
    fn parse_head(data: &[u8], pos: usize) -> (r: Option<(Class, usize)>)
        ensures
            match r {
                Some((c, b)) => class_head_ok(data@, pos as int) && class_head_at(
                    data@,
                    pos as int,
                    c,
                ) && b == class_blocks_pos(data@, pos as int) && pos < b <= data@.len(),
                None => !class_head_ok(data@, pos as int),
            },
    {
        let total = data.len();
        let (class_name, p1) = match read_wstring_prefixed(data, pos) {
            Some(x) => x,
            None => return None,
        };
        let (dn, p2) = match read_wstring_prefixed(data, p1) {
            Some(x) => x,
            None => return None,
        };
        let (common_class_name, p3) = match read_wstring_prefixed(data, p2) {
            Some(x) => x,
            None => return None,
        };
        let (sub_class_of, g) = match read_wstring_prefixed(data, p3) {
            Some(x) => x,
            None => return None,
        };
        if total - g < 20 {
            return None;
        }
        let schema_id_guid = read_guid_at(data, g).unwrap();
        let (unk2, b) = match Self::parse_unk2(data, g + 16) {
            Some(x) => x,
            None => return None,
        };
        Some(
            (
                Class {
                    class_name,
                    dn,
                    common_class_name,
                    sub_class_of,
                    schema_id_guid,
                    unk2,
                    blocks: Vec::new(),
                    unknown: Vec::new(),
                    system_poss_superiors: Vec::new(),
                    auxiliary_classes: Vec::new(),
                },
                b,
            ),
        )
    }

    /// The blocks, unknown table and string lists of a class tail at `pos`,
    /// with the position after it.
    fn parse_tail(data: &[u8], pos: usize) -> (r: Option<
        (Vec<Block>, Vec<u8>, Vec<String>, Vec<String>, usize),
    >)
        ensures
            match r {
                Some((blocks, unknown, superiors, auxiliaries, end)) => class_tail_ok(
                    data@,
                    pos as int,
                ) && tail_parts_at(
                    data@,
                    pos as int,
                    blocks@,
                    unknown@,
                    superiors@,
                    auxiliaries@,
                ) && end == class_tail_end(data@, pos as int) && end <= data@.len(),
                None => !class_tail_ok(data@, pos as int),
            },
    {
        let (blocks, q) = match Self::parse_blocks(data, pos) {
            Some(x) => x,
            None => return None,
        };
        let (unknown, q) = match Self::parse_unknown(data, q) {
            Some(x) => x,
            None => return None,
        };
        let (system_poss_superiors, q) = match read_string_list(data, q) {
            Some(x) => x,
            None => return None,
        };
        let (auxiliary_classes, q) = match read_string_list(data, q) {
            Some(x) => x,
            None => return None,
        };
        Some((blocks, unknown, system_poss_superiors, auxiliary_classes, q))
    }

    /// A count and that many blocks.
    pub fn parse_blocks(data: &[u8], pos: usize) -> (r: Option<(Vec<Block>, usize)>)
        ensures
            match r {
                Some((v, end)) => fits(data@, pos as int, 4) && blocks_ok(
                    data@,
                    pos + 4,
                    u32_at(data@, pos as int) as nat,
                ) && v@.len() == u32_at(data@, pos as int) && end == blocks_end(
                    data@,
                    pos + 4,
                    u32_at(data@, pos as int) as nat,
                ) && end <= data@.len() && forall|j: int|
                    0 <= j < v@.len() ==> block_at(
                        data@,
                        blocks_end(data@, pos + 4, j as nat),
                        #[trigger] v@[j],
                    ),
                None => !(fits(data@, pos as int, 4) && blocks_ok(
                    data@,
                    pos + 4,
                    u32_at(data@, pos as int) as nat,
                )),
            },
    {
        let total = data.len();
        let num_blocks = match read_u32(data, pos) {
            Some(n) => n,
            None => return None,
        };
        let mut q: usize = pos + 4;
        let mut blocks: Vec<Block> = Vec::new();
        let mut i: u32 = 0;
        while i < num_blocks
            invariant
                fits(data@, pos as int, 4),
                num_blocks == u32_at(data@, pos as int),
                q <= data@.len(),
                i <= num_blocks,
                blocks@.len() == i,
                q == blocks_end(data@, pos + 4, i as nat),
                blocks_ok(data@, pos + 4, i as nat),
                forall|j: int|
                    0 <= j < i ==> block_at(
                        data@,
                        blocks_end(data@, pos + 4, j as nat),
                        #[trigger] blocks@[j],
                    ),
            decreases num_blocks - i,
        {
            match Block::parse(data, q) {
                Some((b, next)) => {
                    blocks.push(b);
                    q = next;
                },
                None => {
                    proof {
                        lemma_blocks_ok_prefix(data@, pos + 4, i as nat, num_blocks as nat);
                    }
                    return None;
                },
            }
            i = i + 1;
        }
        Some((blocks, q))
    }

    /// A length and that many bytes.
    pub fn parse_unk2(data: &[u8], pos: usize) -> (r: Option<(Vec<u8>, usize)>)
        ensures
            match r {
                Some((v, end)) => fits(data@, pos as int, 4) && fits(
                    data@,
                    pos + 4,
                    u32_at(data@, pos as int) as int,
                ) && v@ == data@.subrange(pos + 4, pos + 4 + u32_at(data@, pos as int)) && end
                    == pos + 4 + u32_at(data@, pos as int),
                None => !(fits(data@, pos as int, 4) && fits(
                    data@,
                    pos + 4,
                    u32_at(data@, pos as int) as int,
                )),
            },
    {
        let total = data.len();
        let n = match read_u32(data, pos) {
            Some(n) => n,
            None => return None,
        };
        match read_bytes(data, pos + 4, n as usize) {
            Some(v) => Some((v, pos + 4 + n as usize)),
            None => None,
        }
    }

    /// A count and sixteen bytes for each.
    pub fn parse_unknown(data: &[u8], pos: usize) -> (r: Option<(Vec<u8>, usize)>)
        ensures
            match r {
                Some((v, end)) => fits(data@, pos as int, 4) && fits(
                    data@,
                    pos + 4,
                    16 * u32_at(data@, pos as int),
                ) && v@ == data@.subrange(pos + 4, pos + 4 + 16 * u32_at(data@, pos as int))
                    && end == pos + 4 + 16 * u32_at(data@, pos as int),
                None => !(fits(data@, pos as int, 4) && fits(
                    data@,
                    pos + 4,
                    16 * u32_at(data@, pos as int),
                )),
            },
    {
        let n = match read_u32(data, pos) {
            Some(n) => n,
            None => return None,
        };
        if (data.len() - pos - 4) / 16 < n as usize {
            return None;
        }
        match read_bytes(data, pos + 4, 16 * n as usize) {
            Some(v) => Some((v, pos + 4 + 16 * n as usize)),
            None => None,
        }
    }
}

/// Whether the right record at `p` can be read.
pub open spec fn right_ok(s: Seq<u8>, p: int) -> bool {
    let p1 = pstr_end(s, p);
    pstr_ok(s, p) && pstr_ok(s, p1) && fits(s, pstr_end(s, p1), 20)
}

/// The position after the right record at `p`.
pub open spec fn right_end(s: Seq<u8>, p: int) -> int {
    pstr_end(s, pstr_end(s, p)) + 20
}

/// Whether `x` is the right record at `p`.
pub open spec fn right_at(s: Seq<u8>, p: int, x: Right) -> bool {
    let p1 = pstr_end(s, p);
    let p2 = pstr_end(s, p1);
    &&& x.name@ == pstr(s, p)
    &&& x.desc@ == pstr(s, p1)
    &&& x.blob@ == s.subrange(p2, p2 + 20)
}

/// An extended right of the rights table.
#[derive(Debug, Clone)]
pub struct Right {
    pub name: String,
    pub desc: String,
    pub blob: Vec<u8>,
}

impl Right {
    /// Decodes the right at `pos`: two length-prefixed strings and 20 bytes.
    pub fn parse(data: &[u8], pos: usize) -> (r: Option<(Right, usize)>)
        ensures
            match r {
                Some((x, end)) => {
                    let p1 = pstr_end(data@, pos as int);
                    let p2 = pstr_end(data@, p1);
                    &&& pstr_ok(data@, pos as int)
                    &&& pstr_ok(data@, p1)
                    &&& fits(data@, p2, 20)
                    &&& x.name@ == pstr(data@, pos as int)
                    &&& x.desc@ == pstr(data@, p1)
                    &&& x.blob@ == data@.subrange(p2, p2 + 20)
                    &&& end == p2 + 20
                    &&& right_ok(data@, pos as int)
                    &&& right_at(data@, pos as int, x)
                    &&& end == right_end(data@, pos as int)
                },
                None => !right_ok(data@, pos as int),
            },
    {
        let total = data.len();
        let (name, p1) = match read_wstring_prefixed(data, pos) {
            Some(x) => x,
            None => return None,
        };
        let (desc, p2) = match read_wstring_prefixed(data, p1) {
            Some(x) => x,
            None => return None,
        };
        match read_bytes(data, p2, 20) {
            Some(blob) => Some((Right { name, desc, blob }, p2 + 20)),
            None => None,
        }
    }
}

} // verus!
