//! Directory objects: the mapping table, attribute lookup and classification.

use vstd::prelude::*;
use vstd::hash_map::StringHashMap;
use crate::bytes::{fits, read_i32, read_u32, u32_at};
use crate::error::ParseError;
use crate::parser::attribute::{attr_at, attr_ok_at, known_ads, Attribute, AttributeValue};
use crate::parser::schema::Property;
use crate::guid::guid_text_of;
use crate::sid::sid_text_of;
use crate::text::str_eq;

verus! {

/// One entry of an object's mapping table.
#[derive(Debug, Clone, Copy, PartialEq, Eq, Structural)]
pub struct MappingEntry {
    pub attr_index: u32,
    pub attr_offset: i32,
}

/// The kind of a directory object, as the emitters see it.
#[derive(Debug, Clone, Copy, PartialEq, Eq, Structural)]
pub enum ObjectType {
    Computer,
    User,
    UserDisabled,
    Group,
    Domain,
    OU,
    Container,
    GPO,
    Unknown,
}

/// A directory object: its sizes, its mapping table and its decoded attributes
/// keyed by property name. `names` lists each key once, in the order first seen.
pub struct Object {
    pub obj_size: u32,
    pub table_size: u32,
    pub mapping_table: Vec<MappingEntry>,
    pub attributes: StringHashMap<Attribute>,
    pub names: Vec<String>,
}

/// The property index of mapping entry `j` of the object at `p`.
pub open spec fn entry_index(s: Seq<u8>, p: int, j: int) -> u32 {
    u32_at(s, p + 8 + 8 * j)
}

/// The absolute position that mapping entry `j` of the object at `p` points to.
pub open spec fn entry_pos(s: Seq<u8>, p: int, j: int) -> int {
    p + (u32_at(s, p + 12 + 8 * j) as i32) as int
}

/// Whether `m` is the mapping table of the object at `p`.
pub open spec fn mapping_at(s: Seq<u8>, p: int, m: Seq<MappingEntry>) -> bool {
    m.len() == u32_at(s, p + 4) && forall|j: int|
        0 <= j < m.len() ==> (#[trigger] m[j]).attr_index == entry_index(s, p, j) && m[j].attr_offset
            == u32_at(s, p + 12 + 8 * j) as i32
}

/// Whether entry `j` names a property of the dictionary.
pub open spec fn entry_valid(s: Seq<u8>, p: int, props: Seq<Property>, j: int) -> bool {
    entry_index(s, p, j) < props.len()
}

/// Whether entry `j` decodes: it points inside the input, and its attribute
/// decodes where its ADS type is handled.
pub open spec fn entry_ok(s: Seq<u8>, p: int, props: Seq<Property>, j: int) -> bool {
    entry_valid(s, p, props, j) ==> {
        let prop = props[entry_index(s, p, j) as int];
        &&& 0 <= entry_pos(s, p, j) < s.len()
        &&& (known_ads(prop.ads_type) ==> attr_ok_at(s, entry_pos(s, p, j), prop.ads_type))
    }
}

/// Whether the object at `p` decodes against the property dictionary `props`.
pub open spec fn object_ok(s: Seq<u8>, p: int, props: Seq<Property>) -> bool {
    &&& fits(s, p, 8)
    &&& fits(s, p + 8, 8 * u32_at(s, p + 4))
    &&& p + u32_at(s, p) <= usize::MAX
    &&& forall|j: int| 0 <= j < u32_at(s, p + 4) ==> #[trigger] entry_ok(s, p, props, j)
}

/// Whether the attribute map holds, for each key, an attribute decoded through
/// some entry of the object at `p` whose property has that name, and holds a
/// key for every entry that decodes to an attribute.
pub open spec fn attributes_from(
    s: Seq<u8>,
    p: int,
    props: Seq<Property>,
    k: int,
    m: Map<Seq<char>, Attribute>,
) -> bool {
    &&& forall|key: Seq<char>|
        #[trigger] m.contains_key(key) ==> exists|j: int|
            0 <= j < k && entry_valid(s, p, props, j) && props[entry_index(s, p, j) as int].prop_name@
                == key && known_ads(props[entry_index(s, p, j) as int].ads_type) && attr_at(
                s,
                entry_pos(s, p, j),
                props[entry_index(s, p, j) as int].ads_type,
                m[key],
            )
    &&& forall|j: int|
        0 <= j < k && #[trigger] entry_valid(s, p, props, j) && known_ads(
            props[entry_index(s, p, j) as int].ads_type,
        ) ==> m.contains_key(props[entry_index(s, p, j) as int].prop_name@)
}

/// The keys listed by `names`.
pub open spec fn names_cover(names: Seq<String>, m: Map<Seq<char>, Attribute>) -> bool {
    forall|key: Seq<char>|
        m.contains_key(key) <==> exists|i: int| 0 <= i < names.len() && (#[trigger] names[i])@ == key
}

/// The texts of a list of strings.
pub open spec fn strs_view(v: Seq<String>) -> Seq<Seq<char>> {
    v.map_values(|x: String| x@)
}

/// The string values among `vals`, in order.
pub open spec fn string_values(vals: Seq<AttributeValue>) -> Seq<Seq<char>>
    decreases vals.len(),
{
    if vals.len() == 0 {
        Seq::empty()
    } else {
        let prev = string_values(vals.drop_last());
        match vals.last() {
            AttributeValue::String(x) => prev.push(x@),
            _ => prev,
        }
    }
}

/// The kind given by the first recognised class name.
pub open spec fn kind_of_classes(classes: Seq<Seq<char>>) -> ObjectType
    decreases classes.len(),
{
    if classes.len() == 0 {
        ObjectType::Unknown
    } else {
        let c = classes[0];
        if c == "computer"@ {
            ObjectType::Computer
        } else if c == "group"@ {
            ObjectType::Group
        } else if c == "domain"@ {
            ObjectType::Domain
        } else if c == "organizationalUnit"@ {
            ObjectType::OU
        } else if c == "container"@ {
            ObjectType::Container
        } else if c == "groupPolicyContainer"@ {
            ObjectType::GPO
        } else {
            kind_of_classes(classes.drop_first())
        }
    }
}

/// The classification rule: a group-policy file path makes a GPO; a `user`
/// class makes a user, disabled when bit 0x2 of `userAccountControl` is set;
/// otherwise the first recognised class decides.
pub open spec fn classify(has_gpc_path: bool, classes: Seq<Seq<char>>, uac: Option<u32>) -> ObjectType {
    if has_gpc_path {
        ObjectType::GPO
    } else if classes.contains("user"@) {
        if uac is Some && uac->0 & 2 != 0 {
            ObjectType::UserDisabled
        } else {
            ObjectType::User
        }
    } else {
        kind_of_classes(classes)
    }
}

impl Object {
    /// The attribute map as a mathematical map.
    pub open spec fn attrs(&self) -> Map<Seq<char>, Attribute> {
        self.attributes@
    }

    /// The values of the named attribute.
    pub open spec fn spec_get(&self, name: Seq<char>) -> Option<Seq<AttributeValue>> {
        if self.attrs().contains_key(name) {
            Some(self.attrs()[name].values@)
        } else {
            None
        }
    }

    /// The first value of the named attribute.
    pub open spec fn spec_first(&self, name: Seq<char>) -> Option<AttributeValue> {
        match self.spec_get(name) {
            Some(v) => if v.len() > 0 {
                Some(v[0])
            } else {
                None
            },
            None => None,
        }
    }

    /// The string values of `objectClass`, when the attribute is present.
    pub open spec fn spec_classes(&self) -> Option<Seq<Seq<char>>> {
        match self.spec_get("objectClass"@) {
            Some(v) => Some(string_values(v)),
            None => None,
        }
    }

    /// The first value of an attribute, when it is an integer.
    pub open spec fn first_integer(&self, name: Seq<char>) -> Option<u32> {
        match self.spec_first(name) {
            Some(AttributeValue::Integer(i)) => Some(i),
            _ => None,
        }
    }

    /// The kind of the object.
    pub open spec fn spec_type(&self) -> ObjectType {
        classify(
            self.spec_first("gPCFileSysPath"@) is Some,
            match self.spec_classes() {
                Some(c) => c,
                None => Seq::empty(),
            },
            self.first_integer("userAccountControl"@),
        )
    }

    /// Decodes the object at `pos`. Returns it with the position `pos + obj_size`,
    /// wherever its attributes lie. Entries whose property index is out of range,
    /// and attributes of unhandled ADS types, are skipped.
    pub fn parse(data: &[u8], pos: usize, props: &Vec<Property>) -> (r: Result<
        (Object, usize),
        ParseError,
    >)
        ensures
            match r {
                Ok((o, end)) => {
                    &&& object_ok(data@, pos as int, props@)
                    &&& o.obj_size == u32_at(data@, pos as int)
                    &&& o.table_size == u32_at(data@, pos + 4)
                    &&& end == pos + o.obj_size
                    &&& mapping_at(data@, pos as int, o.mapping_table@)
                    &&& attributes_from(data@, pos as int, props@, o.table_size as int, o.attrs())
                    &&& names_cover(o.names@, o.attrs())
                },
                Err(e) => e == ParseError::MalformedInput && !object_ok(data@, pos as int, props@),
            },
    {
        let total = data.len();
        if !(pos <= total && total - pos >= 8) {
            return Err(ParseError::MalformedInput);
        }
        let obj_size = read_u32(data, pos).unwrap();
        let table_size = read_u32(data, pos + 4).unwrap();
        if (total - pos - 8) / 8 < table_size as usize || obj_size as usize > usize::MAX - pos {
            return Err(ParseError::MalformedInput);
        }
        let mut mapping_table: Vec<MappingEntry> = Vec::new();
        let mut attributes: StringHashMap<Attribute> = StringHashMap::new();
        let mut names: Vec<String> = Vec::new();
        let ghost s = data@;
        let ghost ps = props@;
        let mut j: u32 = 0;
        while j < table_size
            invariant
                s == data@,
                ps == props@,
                total == data@.len(),
                fits(s, pos as int, 8),
                fits(s, pos + 8, 8 * table_size),
                obj_size == u32_at(s, pos as int),
                table_size == u32_at(s, pos + 4),
                pos + obj_size <= usize::MAX,
                j <= table_size,
                mapping_table@.len() == j,
                forall|i: int|
                    0 <= i < j ==> (#[trigger] mapping_table@[i]).attr_index == entry_index(
                        s,
                        pos as int,
                        i,
                    ) && mapping_table@[i].attr_offset == u32_at(s, pos + 12 + 8 * i) as i32,
                forall|i: int| 0 <= i < j ==> #[trigger] entry_ok(s, pos as int, ps, i),
                attributes_from(s, pos as int, ps, j as int, attributes@),
                names_cover(names@, attributes@),
            decreases table_size - j,
        {
            let attr_index = read_u32(data, pos + 8 + 8 * (j as usize)).unwrap();
            let attr_offset = read_i32(data, pos + 12 + 8 * (j as usize)).unwrap();
            mapping_table.push(MappingEntry { attr_index, attr_offset });
            let ghost m0 = attributes@;
            if (attr_index as usize) < props.len() {
                let prop = &props[attr_index as usize];
                let attr_pos: i128 = pos as i128 + attr_offset as i128;
                if attr_pos < 0 || attr_pos >= total as i128 {
                    proof {
                        assert(!entry_ok(s, pos as int, ps, j as int));
                    }
                    return Err(ParseError::MalformedInput);
                }
                match Attribute::parse(data, attr_pos as usize, prop.ads_type) {
                    Ok(a) => {
                        let name = prop.prop_name.clone();
                        let ghost n0 = names@;
                        if !attributes.contains_key(name.as_str()) {
                            names.push(prop.prop_name.clone());
                        }
                        let ghost key = name@;
                        attributes.insert(name, a);
                        proof {
                            let m1 = attributes@;
                            assert forall|k: Seq<char>| #[trigger]
                                m1.contains_key(k) implies exists|i: int|
                                0 <= i < j + 1 && entry_valid(s, pos as int, ps, i)
                                    && ps[entry_index(s, pos as int, i) as int].prop_name@ == k
                                    && known_ads(ps[entry_index(s, pos as int, i) as int].ads_type)
                                    && attr_at(
                                    s,
                                    entry_pos(s, pos as int, i),
                                    ps[entry_index(s, pos as int, i) as int].ads_type,
                                    m1[k],
                                ) by {
                                if k == key {
                                    assert(entry_valid(s, pos as int, ps, j as int));
                                } else {
                                    assert(m0.contains_key(k));
                                }
                            }
                            assert forall|key2: Seq<char>| m1.contains_key(key2) <==> exists|i: int|
                                0 <= i < names@.len() && (#[trigger] names@[i])@ == key2 by {
                                if m1.contains_key(key2) {
                                    if m0.contains_key(key2) {
                                        let i0 = choose|i: int|
                                            0 <= i < n0.len() && (#[trigger] n0[i])@ == key2;
                                        assert(names@[i0] == n0[i0]);
                                    } else {
                                        assert(key2 == key);
                                        assert(names@[names@.len() - 1]@ == key2);
                                    }
                                }
                                if exists|i: int| 0 <= i < names@.len() && (#[trigger] names@[i])@ == key2 {
                                    let i1 = choose|i: int|
                                        0 <= i < names@.len() && (#[trigger] names@[i])@ == key2;
                                    if i1 < n0.len() {
                                        assert(n0[i1] == names@[i1]);
                                        assert(m0.contains_key(key2));
                                    } else {
                                        assert(key2 == key);
                                    }
                                }
                            }
                        }
                    },
                    Err(ParseError::UnsupportedAdsType) => {},
                    Err(_) => {
                        proof {
                            assert(!entry_ok(s, pos as int, ps, j as int));
                        }
                        return Err(ParseError::MalformedInput);
                    },
                }
            }
            proof {
                assert forall|i: int| 0 <= i < j + 1 implies #[trigger] entry_ok(
                    s,
                    pos as int,
                    ps,
                    i,
                ) by {
                    if i < j {
                    } else {
                    }
                }
            }
            j = j + 1;
        }
        let end: usize = pos + obj_size as usize;
        Ok((Object { obj_size, table_size, mapping_table, attributes, names }, end))
    }
}


impl Object {
    pub fn get(&self, attr_name: &str) -> (r: Option<&Vec<AttributeValue>>)
        ensures
            match r {
                Some(v) => self.spec_get(attr_name@) == Some(v@),
                None => self.spec_get(attr_name@) is None,
            },
    {
        match self.attributes.get(attr_name) {
            Some(a) => Some(&a.values),
            None => None,
        }
    }

    pub fn get_first(&self, attr_name: &str) -> (r: Option<&AttributeValue>)
        ensures
            match r {
                Some(v) => self.spec_first(attr_name@) == Some(*v),
                None => self.spec_first(attr_name@) is None,
            },
    {
        match self.get(attr_name) {
            Some(values) => if values.len() > 0 {
                Some(&values[0])
            } else {
                None
            },
            None => None,
        }
    }

    /// The names of the decoded attributes, each once.
    pub fn get_attribute_names(&self) -> (r: Vec<String>)
        requires
            names_cover(self.names@, self.attrs()),
        ensures
            forall|key: Seq<char>|
                self.attrs().contains_key(key) <==> exists|i: int|
                    0 <= i < r@.len() && (#[trigger] r@[i])@ == key,
    {
        let mut out: Vec<String> = Vec::new();
        let mut i: usize = 0;
        while i < self.names.len()
            invariant
                i <= self.names@.len(),
                out@.len() == i,
                forall|j: int| 0 <= j < i ==> (#[trigger] out@[j])@ == self.names@[j]@,
            decreases self.names@.len() - i,
        {
            out.push(self.names[i].clone());
            i = i + 1;
        }
        proof {
            assert forall|key: Seq<char>|
                self.attrs().contains_key(key) <==> exists|k: int|
                    0 <= k < out@.len() && (#[trigger] out@[k])@ == key by {
                if self.attrs().contains_key(key) {
                    let k = choose|k: int|
                        0 <= k < self.names@.len() && (#[trigger] self.names@[k])@ == key;
                    assert(out@[k]@ == key);
                }
                if exists|k: int| 0 <= k < out@.len() && (#[trigger] out@[k])@ == key {
                    let k = choose|k: int| 0 <= k < out@.len() && (#[trigger] out@[k])@ == key;
                    assert(self.names@[k]@ == key);
                }
            }
        }
        out
    }

    /// The string values of `objectClass`, in order, when the attribute is present.
    pub fn get_attribute_classes(&self) -> (r: Option<Vec<String>>)
        ensures
            match r {
                Some(v) => self.spec_classes() is Some && strs_view(v@)
                    == self.spec_classes()->0,
                None => self.spec_classes() is None,
            },
    {
        let values = match self.get("objectClass") {
            Some(v) => v,
            None => return None,
        };
        let mut out: Vec<String> = Vec::new();
        let mut i: usize = 0;
        while i < values.len()
            invariant
                i <= values@.len(),
                strs_view(out@) == string_values(values@.subrange(0, i as int)),
            decreases values@.len() - i,
        {
            proof {
                assert(values@.subrange(0, i + 1).drop_last() =~= values@.subrange(0, i as int));
            }
            match values[i].as_string() {
                Some(x) => {
                    let ghost before = out@;
                    out.push(x.clone());
                    proof {
                        assert(strs_view(out@) =~= strs_view(before).push(x@));
                    }
                },
                None => {},
            }
            i = i + 1;
        }
        proof {
            assert(values@.subrange(0, i as int) =~= values@);
        }
        Some(out)
    }

    /// Whether `objectClass` holds `class` (compared exactly).
    pub fn has_attribute_class(&self, class: &str) -> (r: bool)
        ensures
            r == (self.spec_classes() is Some && (self.spec_classes()->0).contains(class@)),
    {
        let classes = match self.get_attribute_classes() {
            Some(c) => c,
            None => return false,
        };
        let ghost cs = strs_view(classes@);
        let mut i: usize = 0;
        while i < classes.len()
            invariant
                cs == strs_view(classes@),
                cs.len() == classes@.len(),
                self.spec_classes() is Some && cs == self.spec_classes()->0,
                i <= classes@.len(),
                forall|j: int| 0 <= j < i ==> cs[j] != class@,
            decreases classes@.len() - i,
        {
            if str_eq(classes[i].as_str(), class) {
                proof {
                    assert(cs[i as int] == class@);
                    assert(cs.contains(class@));
                }
                return true;
            }
            i = i + 1;
        }
        false
    }

    /// Classifies the object.
    pub fn get_type(&self) -> (r: ObjectType)
        ensures
            r == self.spec_type(),
    {
        if self.get_first("gPCFileSysPath").is_some() {
            return ObjectType::GPO;
        }
        let classes = match self.get_attribute_classes() {
            Some(c) => c,
            None => Vec::new(),
        };
        let ghost cs = strs_view(classes@);
        proof {
            if self.spec_classes() is None {
                assert(cs =~= Seq::<Seq<char>>::empty());
            }
        }
        if self.has_attribute_class("user") {
            let uac = match self.get_first("userAccountControl") {
                Some(v) => v.as_integer(),
                None => None,
            };
            return match uac {
                Some(u) => if u & 2 != 0 {
                    ObjectType::UserDisabled
                } else {
                    ObjectType::User
                },
                None => ObjectType::User,
            };
        }
        proof {
            reveal_strlit("user");
            assert(cs.subrange(0, cs.len() as int) =~= cs);
            assert(self.spec_type() == kind_of_classes(cs));
        }
        let mut i: usize = 0;
        while i < classes.len()
            invariant
                cs == strs_view(classes@),
                cs.len() == classes@.len(),
                i <= classes@.len(),
                self.spec_type() == kind_of_classes(cs.subrange(i as int, cs.len() as int)),
            decreases classes@.len() - i,
        {
            let c = classes[i].as_str();
            let ghost rest = cs.subrange(i as int, cs.len() as int);
            proof {
                assert(rest[0] == c@);
                assert(rest.drop_first() =~= cs.subrange(i + 1, cs.len() as int));
            }
            if str_eq(c, "computer") {
                return ObjectType::Computer;
            } else if str_eq(c, "group") {
                return ObjectType::Group;
            } else if str_eq(c, "domain") {
                return ObjectType::Domain;
            } else if str_eq(c, "organizationalUnit") {
                return ObjectType::OU;
            } else if str_eq(c, "container") {
                return ObjectType::Container;
            } else if str_eq(c, "groupPolicyContainer") {
                return ObjectType::GPO;
            }
            i = i + 1;
        }
        ObjectType::Unknown
    }
}


/// Whether `r` is the identifier that the first value of an attribute gives:
/// the text of the SID (`is_sid`) or of the GUID it holds.
pub open spec fn identifier_from(v: Option<AttributeValue>, is_sid: bool, r: Option<String>) -> bool {
    match v {
        Some(AttributeValue::OctetString(o)) => if is_sid {
            if crate::sid::sid_ok_at(o@, 0) {
                r is Some && sid_text_of(o@, (r->0)@)
            } else {
                r is None
            }
        } else {
            if o@.len() >= 16 {
                r is Some && guid_text_of(o@, (r->0)@)
            } else {
                r is None
            }
        },
        _ => r is None,
    }
}

impl Object {
    /// The SID text of a computer, user or group, or the GUID text of an OU,
    /// container or GPO; `None` for other kinds or when the value is missing.
    pub fn get_object_identifier(&self) -> (r: Option<String>)
        ensures
            match self.spec_type() {
                ObjectType::Computer | ObjectType::User | ObjectType::Group => identifier_from(
                    self.spec_first("objectSid"@),
                    true,
                    r,
                ),
                ObjectType::OU | ObjectType::Container | ObjectType::GPO => identifier_from(
                    self.spec_first("objectGUID"@),
                    false,
                    r,
                ),
                _ => r is None,
            },
    {
        match self.get_type() {
            ObjectType::Computer | ObjectType::User | ObjectType::Group => {
                match self.get_first("objectSid") {
                    Some(v) => match v.as_sid() {
                        Some(x) => Some(x.to_string()),
                        None => None,
                    },
                    None => None,
                }
            },
            ObjectType::OU | ObjectType::Container | ObjectType::GPO => {
                match self.get_first("objectGUID") {
                    Some(v) => match v.as_guid() {
                        Some(g) => Some(g.to_string()),
                        None => None,
                    },
                    None => None,
                }
            },
            _ => None,
        }
    }
}

} // verus!
