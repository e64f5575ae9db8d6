//! Helpers shared by the emitters: identifiers, type names, domain names.

use vstd::prelude::*;
use crate::bytes::u16_at;
use crate::parser::attribute::AttributeValue;
use crate::parser::object::{identifier_from, Object, ObjectType};
use crate::security_descriptor::control_flags::ControlFlag;
use crate::security_descriptor::sddl::sd_ok;
use crate::text::{chars_of, owned, string_from_chars};

verus! {

/// The type name the graph model uses for an object kind.
pub open spec fn kind_label(t: ObjectType) -> Seq<char> {
    match t {
        ObjectType::Computer => "Computer"@,
        ObjectType::Domain => "Domain"@,
        ObjectType::Group => "Group"@,
        ObjectType::User => "User"@,
        ObjectType::UserDisabled => "User"@,
        ObjectType::OU => "OU"@,
        ObjectType::GPO => "GPO"@,
        ObjectType::Container => "Container"@,
        ObjectType::Unknown => "Unknown"@,
    }
}

pub fn type_string(obj: &Object) -> (r: String)
    ensures
        r@ == kind_label(obj.spec_type()),
{
    match obj.get_type() {
        ObjectType::Computer => owned("Computer"),
        ObjectType::Domain => owned("Domain"),
        ObjectType::Group => owned("Group"),
        ObjectType::User => owned("User"),
        ObjectType::UserDisabled => owned("User"),
        ObjectType::OU => owned("OU"),
        ObjectType::GPO => owned("GPO"),
        ObjectType::Container => owned("Container"),
        ObjectType::Unknown => owned("Unknown"),
    }
}

/// Whether `id` is what `get_object_identifier` gives for the object.
pub open spec fn identifier_is(obj: &Object, id: Option<String>) -> bool {
    match obj.spec_type() {
        ObjectType::Computer | ObjectType::User | ObjectType::Group => identifier_from(
            obj.spec_first("objectSid"@),
            true,
            id,
        ),
        ObjectType::OU | ObjectType::Container | ObjectType::GPO => identifier_from(
            obj.spec_first("objectGUID"@),
            false,
            id,
        ),
        _ => id is None,
    }
}

/// The object's identifier, or `ERR_UNKNOWN` when it has none.
pub fn get_sid(obj: &Object) -> (r: String)
    ensures
        exists|id: Option<String>|
            #[trigger] identifier_is(obj, id) && r@ == match id {
                Some(x) => x@,
                None => "ERR_UNKNOWN"@,
            },
{
    let id = obj.get_object_identifier();
    let ghost g = id;
    proof {
        assert(identifier_is(obj, g));
    }
    match id {
        Some(x) => x,
        None => owned("ERR_UNKNOWN"),
    }
}

/// Whether the object's security descriptor decodes and has the
/// DACL-protected flag (PD, 0x1000).
pub fn is_acl_protected(obj: &Object) -> (r: bool)
    ensures
        r == match obj.spec_first("nTSecurityDescriptor"@) {
            Some(AttributeValue::NTSecurityDescriptor(b)) => sd_ok(b@) && u16_at(b@, 2) & 0x1000
                != 0,
            _ => false,
        },
{
    let v = match obj.get_first("nTSecurityDescriptor") {
        Some(v) => v,
        None => return false,
    };
    match v.as_nt_security_descriptor() {
        Some(sd) => sd.control_flags.is_set(ControlFlag::PD),
        None => false,
    }
}

/// The comma-separated parts of `s`.
pub open spec fn split_commas(s: Seq<char>) -> Seq<Seq<char>>
    decreases s.len(),
{
    if s.len() == 0 {
        seq![Seq::empty()]
    } else {
        let prev = split_commas(s.drop_last());
        if s.last() == ',' {
            prev.push(Seq::empty())
        } else {
            prev.update(prev.len() - 1, prev.last().push(s.last()))
        }
    }
}

/// Whether a DN part starts with `dc=`, in any case.
pub open spec fn is_dc_part(p: Seq<char>) -> bool {
    p.len() >= 3 && (p[0] == 'd' || p[0] == 'D') && (p[1] == 'c' || p[1] == 'C') && p[2] == '='
}

/// The values of the `dc=` parts, in order.
pub open spec fn dc_values(parts: Seq<Seq<char>>) -> Seq<Seq<char>>
    decreases parts.len(),
{
    if parts.len() == 0 {
        Seq::empty()
    } else {
        let prev = dc_values(parts.drop_last());
        if is_dc_part(parts.last()) {
            prev.push(parts.last().subrange(3, parts.last().len() as int))
        } else {
            prev
        }
    }
}

/// The parts joined with dots.
pub open spec fn join_dots(v: Seq<Seq<char>>) -> Seq<char>
    decreases v.len(),
{
    if v.len() == 0 {
        Seq::empty()
    } else if v.len() == 1 {
        v[0]
    } else {
        join_dots(v.drop_last()) + seq!['.'] + v.last()
    }
}

/// The DNS domain name of a DN: its `dc=` values joined with dots.
pub open spec fn domain_of_dn(dn: Seq<char>) -> Seq<char> {
    join_dots(dc_values(split_commas(dn)))
}

/// The DNS domain name of a DN: its `dc=` values joined with dots.
pub fn ldap2domain(ldap: &str) -> (r: String)
    ensures
        r@ == domain_of_dn(ldap@),
{
    let s = chars_of(ldap);
    // split on commas
    let mut parts: Vec<Vec<char>> = Vec::new();
    parts.push(Vec::new());
    let mut i: usize = 0;
    proof {
        assert(s@.subrange(0, 0) =~= Seq::<char>::empty());
        assert(parts@.map_values(|p: Vec<char>| p@) =~= split_commas(s@.subrange(0, 0)));
    }
    while i < s.len()
        invariant
            i <= s@.len(),
            parts@.len() >= 1,
            parts@.map_values(|p: Vec<char>| p@) == split_commas(s@.subrange(0, i as int)),
        decreases s@.len() - i,
    {
        let c = s[i];
        let ghost before = parts@.map_values(|p: Vec<char>| p@);
        proof {
            assert(s@.subrange(0, i + 1).drop_last() =~= s@.subrange(0, i as int));
        }
        if c == ',' {
            parts.push(Vec::new());
            proof {
                assert(parts@.map_values(|p: Vec<char>| p@) =~= before.push(Seq::empty()));
            }
        } else {
            let last = parts.len() - 1;
            let mut cur = parts.remove(last);
            cur.push(c);
            parts.push(cur);
            proof {
                assert(parts@.map_values(|p: Vec<char>| p@) =~= before.update(
                    before.len() - 1,
                    before.last().push(c),
                ));
            }
        }
        i = i + 1;
    }
    proof {
        assert(s@.subrange(0, i as int) =~= s@);
    }
    let ghost all = parts@.map_values(|p: Vec<char>| p@);
    // keep the values of the dc= parts
    let mut vals: Vec<Vec<char>> = Vec::new();
    let mut j: usize = 0;
    while j < parts.len()
        invariant
            all == parts@.map_values(|p: Vec<char>| p@),
            j <= parts@.len(),
            vals@.map_values(|p: Vec<char>| p@) == dc_values(all.subrange(0, j as int)),
        decreases parts@.len() - j,
    {
        proof {
            assert(all.subrange(0, j + 1).drop_last() =~= all.subrange(0, j as int));
        }
        let p = &parts[j];
        let ghost before = vals@.map_values(|p: Vec<char>| p@);
        if p.len() >= 3 && (p[0] == 'd' || p[0] == 'D') && (p[1] == 'c' || p[1] == 'C') && p[2]
            == '=' {
            let mut v: Vec<char> = Vec::new();
            let mut k: usize = 3;
            while k < p.len()
                invariant
                    3 <= k <= p@.len(),
                    v@ == p@.subrange(3, k as int),
                decreases p@.len() - k,
            {
                v.push(p[k]);
                k = k + 1;
                proof {
                    assert(v@ =~= p@.subrange(3, k as int));
                }
            }
            vals.push(v);
            proof {
                assert(all[j as int] == p@);
                assert(vals@.map_values(|p: Vec<char>| p@) =~= before.push(
                    p@.subrange(3, p@.len() as int),
                ));
            }
        } else {
            proof {
                assert(all[j as int] == p@);
            }
        }
        j = j + 1;
    }
    proof {
        assert(all.subrange(0, j as int) =~= all);
    }
    let ghost vs = vals@.map_values(|p: Vec<char>| p@);
    // join with dots
    let mut out: Vec<char> = Vec::new();
    let mut k: usize = 0;
    proof {
        assert(out@ =~= join_dots(vs.subrange(0, 0)));
    }
    while k < vals.len()
        invariant
            vs == vals@.map_values(|p: Vec<char>| p@),
            k <= vals@.len(),
            out@ == join_dots(vs.subrange(0, k as int)),
        decreases vals@.len() - k,
    {
        let ghost before = out@;
        proof {
            assert(vs.subrange(0, k + 1).drop_last() =~= vs.subrange(0, k as int));
        }
        if k > 0 {
            out.push('.');
        }
        let piece = &vals[k];
        let mut t: usize = 0;
        let ghost mid = out@;
        while t < piece.len()
            invariant
                t <= piece@.len(),
                out@ == mid + piece@.subrange(0, t as int),
            decreases piece@.len() - t,
        {
            out.push(piece[t]);
            t = t + 1;
            proof {
                assert(out@ =~= mid + piece@.subrange(0, t as int));
            }
        }
        proof {
            assert(piece@.subrange(0, t as int) =~= piece@);
            assert(vs[k as int] == piece@);
            if k == 0 {
                assert(out@ =~= join_dots(vs.subrange(0, 1)));
            } else {
                assert(out@ =~= before + seq!['.'] + vs[k as int]);
            }
        }
        k = k + 1;
    }
    proof {
        assert(vs.subrange(0, k as int) =~= vs);
    }
    string_from_chars(&out)
}

} // verus!
