//! Decoding a whole snapshot from a byte slice.

use vstd::prelude::*;
use crate::bytes::{fits, read_u32, u32_at};
use crate::error::ParseError;
use crate::parser::object::{
    attributes_from, entry_ok, entry_valid, mapping_at, names_cover, object_ok, Object,
};
use crate::parser::schema::{
    class_end, class_head_at, class_ok, class_tail_at, header_at, right_at, header_ok, property_at, property_end, property_ok, right_end,
    right_ok, Class, Header, Property, Right, HEADER_SIZE,
};

verus! {

/// A decoded snapshot. Positions in `properties`, `objects` and `classes` are
/// the identities that every cross-reference uses.
pub struct Snapshot {
    pub header: Header,
    pub properties: Vec<Property>,
    pub objects: Vec<Object>,
    pub classes: Vec<Class>,
    pub rights: Vec<Right>,
}

/// The file offset of the property table named by the header.
pub open spec fn properties_offset(s: Seq<u8>) -> int {
    u32_at(s, 0x432) as int * 0x1_0000_0000 + u32_at(s, 0x42e) as int
}

/// Where the `i`-th property record starts, the table's count at `p0`.
pub open spec fn property_pos(s: Seq<u8>, p0: int, i: nat) -> int
    decreases i,
{
    if i == 0 {
        p0 + 4
    } else {
        property_end(s, property_pos(s, p0, (i - 1) as nat))
    }
}

/// Where the `i`-th object starts: each object ends `obj_size` bytes after its start.
pub open spec fn object_pos(s: Seq<u8>, i: nat) -> int
    decreases i,
{
    if i == 0 {
        0x43e
    } else {
        object_pos(s, (i - 1) as nat) + u32_at(s, object_pos(s, (i - 1) as nat)) as int
    }
}

/// Whether `o` is the `i`-th object, decoded against the property dictionary.
pub open spec fn object_at(s: Seq<u8>, i: nat, props: Seq<Property>, o: Object) -> bool {
    let p = object_pos(s, i);
    &&& object_ok(s, p, props)
    &&& o.obj_size == u32_at(s, p)
    &&& o.table_size == u32_at(s, p + 4)
    &&& mapping_at(s, p, o.mapping_table@)
    &&& attributes_from(s, p, props, o.table_size as int, o.attrs())
    &&& names_cover(o.names@, o.attrs())
}

/// Where the `i`-th class record starts, counting from `c0`.
pub open spec fn class_pos(s: Seq<u8>, c0: int, i: nat) -> int
    decreases i,
{
    if i == 0 {
        c0
    } else {
        class_end(s, class_pos(s, c0, (i - 1) as nat))
    }
}

/// Where the `i`-th right record starts, counting from `r0`.
pub open spec fn right_pos(s: Seq<u8>, r0: int, i: nat) -> int
    decreases i,
{
    if i == 0 {
        r0
    } else {
        right_end(s, right_pos(s, r0, (i - 1) as nat))
    }
}

/// Whether `cs` are the class records from `c0` on, one after the other.
pub open spec fn classes_at(s: Seq<u8>, c0: int, cs: Seq<Class>) -> bool {
    forall|i: int|
        0 <= i < cs.len() ==> class_head_at(s, class_pos(s, c0, i as nat), #[trigger] cs[i])
            && class_tail_at(s, class_pos(s, c0, i as nat), cs[i])
}

/// Whether `rs` are the right records from `r0` on, one after the other.
pub open spec fn rights_at(s: Seq<u8>, r0: int, rs: Seq<Right>) -> bool {
    forall|i: int| 0 <= i < rs.len() ==> right_at(s, right_pos(s, r0, i as nat), #[trigger] rs[i])
}

/// Whether `snap` is what the bytes decode to: the header, the property
/// table, each object, each class and each right at its place.
pub open spec fn decoded_from(s: Seq<u8>, snap: &Snapshot) -> bool {
    let p0 = properties_offset(s);
    let post = property_pos(s, p0, u32_at(s, p0) as nat);
    let cend = class_pos(s, post + 4, u32_at(s, post) as nat);
    &&& snapshot_ok_with(s, snap.properties@)
    &&& header_at(s, snap.header)
    &&& snap.objects@.len() == snap.header.num_objects
    &&& forall|i: int|
        0 <= i < snap.objects@.len() ==> #[trigger] object_at(
            s,
            i as nat,
            snap.properties@,
            snap.objects@[i],
        )
    &&& snap.classes@.len() == u32_at(s, post)
    &&& classes_at(s, post + 4, snap.classes@)
    &&& snap.rights@.len() == u32_at(s, cend)
    &&& rights_at(s, cend + 4, snap.rights@)
}

/// Whether `props` are the records of the property table.
pub open spec fn properties_at(s: Seq<u8>, props: Seq<Property>) -> bool {
    let p0 = properties_offset(s);
    &&& fits(s, p0, 4)
    &&& props.len() == u32_at(s, p0)
    &&& forall|i: int|
        0 <= i < props.len() ==> property_ok(s, #[trigger] property_pos(s, p0, i as nat))
            && property_at(s, property_pos(s, p0, i as nat), props[i])
}

/// Whether the bytes hold a snapshot that decodes, its property table being `props`.
pub open spec fn snapshot_ok_with(s: Seq<u8>, props: Seq<Property>) -> bool {
    let p0 = properties_offset(s);
    let post = property_pos(s, p0, u32_at(s, p0) as nat);
    let c0 = post + 4;
    let cend = class_pos(s, c0, u32_at(s, post) as nat);
    &&& header_ok(s)
    &&& properties_at(s, props)
    &&& forall|k: nat| k < u32_at(s, 0x426) ==> #[trigger] object_ok(s, object_pos(s, k), props)
    &&& fits(s, post, 4)
    &&& forall|i: nat| i < u32_at(s, post) ==> #[trigger] class_ok(s, class_pos(s, c0, i))
    &&& fits(s, cend, 4)
    &&& forall|i: nat| i < u32_at(s, cend) ==> #[trigger] right_ok(s, right_pos(s, cend + 4, i))
}

/// Whether an object decodes depends on the property table only through the
/// ADS types and the number of properties.
proof fn lemma_object_ok_props(s: Seq<u8>, p: int, a: Seq<Property>, b: Seq<Property>)
    requires
        a.len() == b.len(),
        forall|i: int| 0 <= i < a.len() ==> #[trigger] a[i].ads_type == b[i].ads_type,
    ensures
        object_ok(s, p, a) == object_ok(s, p, b),
{
    assert forall|j: int|
        #![trigger entry_ok(s, p, a, j)]
        #![trigger entry_ok(s, p, b, j)]
        entry_ok(s, p, a, j) == entry_ok(s, p, b, j) by {
        if entry_valid(s, p, a, j) {
            let i = crate::parser::object::entry_index(s, p, j) as int;
            assert(a[i].ads_type == b[i].ads_type);
        }
    }
}

/// Two property tables read from the same bytes agree on every ADS type.
proof fn lemma_properties_agree(s: Seq<u8>, a: Seq<Property>, b: Seq<Property>)
    requires
        properties_at(s, a),
        properties_at(s, b),
    ensures
        a.len() == b.len(),
        forall|i: int| 0 <= i < a.len() ==> #[trigger] a[i].ads_type == b[i].ads_type,
{
    let p0 = properties_offset(s);
    assert forall|i: int| 0 <= i < a.len() implies #[trigger] a[i].ads_type == b[i].ads_type by {
        assert(property_ok(s, property_pos(s, p0, i as nat)));
    }
}

/// Reads the property table whose count stands at `p0`; returns the records
/// and the position after them.
fn parse_properties(data: &[u8], p0: usize) -> (r: Option<(Vec<Property>, usize)>)
    requires
        p0 == properties_offset(data@),
    ensures
        match r {
            Some((props, end)) => properties_at(data@, props@) && end == property_pos(
                data@,
                p0 as int,
                u32_at(data@, p0 as int) as nat,
            ) && end <= data@.len(),
            None => forall|props: Seq<Property>| !properties_at(data@, props),
        },
{
    let total = data.len();
    let n = match read_u32(data, p0) {
        Some(n) => n,
        None => return None,
    };
    let ghost s = data@;
    let mut properties: Vec<Property> = Vec::new();
    let mut q: usize = p0 + 4;
    let mut i: u32 = 0;
    while i < n
        invariant
            s == data@,
            p0 as int == properties_offset(s),
            fits(s, p0 as int, 4),
            n == u32_at(s, p0 as int),
            i <= n,
            q <= data@.len(),
            properties@.len() == i,
            q == property_pos(s, p0 as int, i as nat),
            forall|k: int|
                0 <= k < i ==> property_ok(s, #[trigger] property_pos(s, p0 as int, k as nat))
                    && property_at(s, property_pos(s, p0 as int, k as nat), properties@[k]),
        decreases n - i,
    {
        match Property::parse(data, q) {
            Some((x, next)) => {
                properties.push(x);
                q = next;
            },
            None => {
                proof {
                    assert forall|props: Seq<Property>| !properties_at(s, props) by {
                        if properties_at(s, props) {
                            let ii: int = i as int;
                            assert(property_ok(s, property_pos(s, p0 as int, ii as nat)));
                        }
                    }
                }
                return None;
            },
        }
        i = i + 1;
    }
    Some((properties, q))
}

/// Reads `n` objects from right after the header.
fn parse_objects(data: &[u8], n: u32, props: &Vec<Property>) -> (r: Option<Vec<Object>>)
    ensures
        match r {
            Some(objs) => objs@.len() == n && forall|j: int|
                0 <= j < n ==> #[trigger] object_at(data@, j as nat, props@, objs@[j]),
            None => !(forall|k: nat| k < n ==> #[trigger] object_ok(data@, object_pos(data@, k), props@)),
        },
{
    let ghost s = data@;
    let mut objects: Vec<Object> = Vec::new();
    let mut o: usize = HEADER_SIZE;
    let mut k: u32 = 0;
    while k < n
        invariant
            s == data@,
            k <= n,
            objects@.len() == k,
            o == object_pos(s, k as nat),
            forall|j: int| 0 <= j < k ==> #[trigger] object_at(s, j as nat, props@, objects@[j]),
        decreases n - k,
    {
        match Object::parse(data, o, props) {
            Ok((obj, next)) => {
                objects.push(obj);
                o = next;
            },
            Err(_) => {
                proof {
                    assert(!object_ok(s, object_pos(s, k as nat), props@));
                }
                return None;
            },
        }
        k = k + 1;
    }
    Some(objects)
}

/// Reads the class table whose count stands at `pos`; returns the classes and
/// the position after them.
pub fn parse_classes(data: &[u8], pos: usize) -> (r: Option<(Vec<Class>, usize)>)
    ensures
        match r {
            Some((cs, end)) => fits(data@, pos as int, 4) && cs@.len() == u32_at(data@, pos as int)
                && (forall|i: nat|
                i < u32_at(data@, pos as int) ==> #[trigger] class_ok(
                    data@,
                    class_pos(data@, pos + 4, i),
                )) && classes_at(data@, pos + 4, cs@) && end == class_pos(
                data@,
                pos + 4,
                u32_at(data@, pos as int) as nat,
            ) && end <= data@.len(),
            None => !(fits(data@, pos as int, 4) && forall|i: nat|
                i < u32_at(data@, pos as int) ==> #[trigger] class_ok(
                    data@,
                    class_pos(data@, pos + 4, i),
                )),
        },
{
    let total = data.len();
    let n = match read_u32(data, pos) {
        Some(n) => n,
        None => return None,
    };
    let ghost s = data@;
    let mut c: usize = pos + 4;
    let mut classes: Vec<Class> = Vec::new();
    let mut i: u32 = 0;
    while i < n
        invariant
            s == data@,
            fits(s, pos as int, 4),
            n == u32_at(s, pos as int),
            c <= data@.len(),
            i <= n,
            classes@.len() == i,
            c == class_pos(s, pos + 4, i as nat),
            forall|k: nat| k < i ==> #[trigger] class_ok(s, class_pos(s, pos + 4, k)),
            classes_at(s, pos + 4, classes@),
        decreases n - i,
    {
        match Class::parse(data, c) {
            Some((x, next)) => {
                classes.push(x);
                c = next;
            },
            None => {
                proof {
                    assert(!class_ok(s, class_pos(s, pos + 4, i as nat)));
                }
                return None;
            },
        }
        i = i + 1;
    }
    Some((classes, c))
}

/// Reads the rights table whose count stands at `pos`.
fn parse_rights(data: &[u8], pos: usize) -> (r: Option<Vec<Right>>)
    ensures
        match r {
            Some(rs) => fits(data@, pos as int, 4) && rs@.len() == u32_at(data@, pos as int) && (
            forall|i: nat|
                i < u32_at(data@, pos as int) ==> #[trigger] right_ok(
                    data@,
                    right_pos(data@, pos + 4, i),
                )) && rights_at(data@, pos + 4, rs@),
            None => !(fits(data@, pos as int, 4) && forall|i: nat|
                i < u32_at(data@, pos as int) ==> #[trigger] right_ok(
                    data@,
                    right_pos(data@, pos + 4, i),
                )),
        },
{
    let total = data.len();
    let n = match read_u32(data, pos) {
        Some(n) => n,
        None => return None,
    };
    let ghost s = data@;
    let mut c: usize = pos + 4;
    let mut rights: Vec<Right> = Vec::new();
    let mut i: u32 = 0;
    while i < n
        invariant
            s == data@,
            fits(s, pos as int, 4),
            n == u32_at(s, pos as int),
            c <= data@.len(),
            i <= n,
            rights@.len() == i,
            c == right_pos(s, pos + 4, i as nat),
            forall|k: nat| k < i ==> #[trigger] right_ok(s, right_pos(s, pos + 4, k)),
            rights_at(s, pos + 4, rights@),
        decreases n - i,
    {
        match Right::parse(data, c) {
            Some((x, next)) => {
                rights.push(x);
                c = next;
            },
            None => {
                proof {
                    assert(!right_ok(s, right_pos(s, pos + 4, i as nat)));
                }
                return None;
            },
        }
        i = i + 1;
    }
    Some(rights)
}

impl Snapshot {
    /// Decodes a snapshot: header, property dictionary, objects (from right
    /// after the header, each ending `obj_size` bytes after its start), then the
    /// class and rights tables that follow the dictionary. Fails exactly when
    /// some part does not decode.
    pub fn snapshot_from_memory(data: &[u8]) -> (r: Result<Snapshot, ParseError>)
        ensures
            match r {
                Ok(snap) => decoded_from(data@, &snap),
                Err(e) => e == ParseError::MalformedInput && forall|props: Seq<Property>|
                    !snapshot_ok_with(data@, props),
            },
            !header_ok(data@) ==> r is Err,
    {
        let header = match Header::parse(data) {
            Some(h) => h,
            None => return Err(ParseError::MalformedInput),
        };
        let total = data.len();
        let off: u64 = (header.fileoffset_high as u64) * 0x1_0000_0000 + header.fileoffset_low as u64;
        if off > total as u64 {
            return Err(ParseError::MalformedInput);
        }
        let p0 = off as usize;
        let (properties, post) = match parse_properties(data, p0) {
            Some(x) => x,
            None => return Err(ParseError::MalformedInput),
        };
        let objects = match parse_objects(data, header.num_objects, &properties) {
            Some(o) => o,
            None => {
                proof {
                    assert forall|props: Seq<Property>| !snapshot_ok_with(data@, props) by {
                        if snapshot_ok_with(data@, props) {
                            lemma_properties_agree(data@, props, properties@);
                            assert forall|k: nat| k < header.num_objects implies #[trigger] object_ok(
                                data@,
                                object_pos(data@, k),
                                properties@,
                            ) by {
                                assert(object_ok(data@, object_pos(data@, k), props));
                                lemma_object_ok_props(data@, object_pos(data@, k), props, properties@);
                            }
                        }
                    }
                }
                return Err(ParseError::MalformedInput);
            },
        };
        let (classes, cend) = match parse_classes(data, post) {
            Some(x) => x,
            None => return Err(ParseError::MalformedInput),
        };
        let rights = match parse_rights(data, cend) {
            Some(x) => x,
            None => return Err(ParseError::MalformedInput),
        };
        proof {
            assert forall|k: nat| k < u32_at(data@, 0x426) implies #[trigger] object_ok(
                data@,
                object_pos(data@, k),
                properties@,
            ) by {
                let j: int = k as int;
                assert(object_at(data@, j as nat, properties@, objects@[j]));
            }
        }
        Ok(Snapshot { header, properties, objects, classes, rights })
    }
}

} // verus!
