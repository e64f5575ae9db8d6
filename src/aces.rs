//! The ACE rows of an object: who holds which right on it.

use vstd::prelude::*;
use crate::adexplorer::ADExplorerSnapshot;
use crate::common::{kind_label, type_string};
use crate::parser::attribute::AttributeValue;
use crate::parser::object::{Object, ObjectType};
use crate::rights::{ace_rights, is_deny, rights};
use crate::security_descriptor::ace::{ACEFlags, ACE};
use crate::security_descriptor::sddl::{sd_at, sd_ok, SDDL};
use crate::sid::{sid_string, SID};
use crate::text::owned;

verus! {

/// One row: the principal's SID text, its type name, the right, and whether
/// the right was inherited.
pub struct Aces {
    pub principal_sid: String,
    pub principal_type: String,
    pub right_name: String,
    pub is_inherited: bool,
}

/// The fields of a row as plain values.
pub type Row = (Seq<char>, Seq<char>, Seq<char>, bool);

/// The rows as plain values.
pub open spec fn aces_view(v: Seq<Aces>) -> Seq<Row> {
    v.map_values(|a: Aces| (a.principal_sid@, a.principal_type@, a.right_name@, a.is_inherited))
}

/// One row per right, for the same principal.
pub open spec fn rights_rows(sid: Seq<char>, kind: Seq<char>, rs: Seq<Seq<char>>, inherited: bool) -> Seq<
    Row,
>
    decreases rs.len(),
{
    if rs.len() == 0 {
        Seq::empty()
    } else {
        rights_rows(sid, kind, rs.drop_last(), inherited).push((sid, kind, rs.last(), inherited))
    }
}

/// Whether the ACE carries the inherited flag.
pub open spec fn ace_inherited(ace: ACE) -> bool {
    ace.spec_header().ace_flags.0 & 0x10 != 0
}

/// The rows of one ACE: none for a deny ACE or a principal the SID index
/// does not resolve.
pub open spec fn ace_rows(snap: &ADExplorerSnapshot, ace: ACE, target: ObjectType, has_laps: bool) -> Seq<
    Row,
> {
    if is_deny(ace) || !snap.resolves(ace.spec_sid()) {
        Seq::empty()
    } else {
        rights_rows(
            sid_string(ace.spec_sid()),
            kind_label(snap.sid_object(ace.spec_sid()).spec_type()),
            ace_rights(ace, target, has_laps),
            ace_inherited(ace),
        )
    }
}

/// The rows of a list of ACEs, in order.
pub open spec fn dacl_rows(snap: &ADExplorerSnapshot, aces: Seq<ACE>, target: ObjectType, has_laps: bool) -> Seq<
    Row,
>
    decreases aces.len(),
{
    if aces.len() == 0 {
        Seq::empty()
    } else {
        dacl_rows(snap, aces.drop_last(), target, has_laps) + ace_rows(
            snap,
            aces.last(),
            target,
            has_laps,
        )
    }
}

/// The owner's row, when the owner is known and resolves.
pub open spec fn owner_rows(snap: &ADExplorerSnapshot, sd: SDDL) -> Seq<Row> {
    match sd.owner_sid {
        Some(o) => if snap.resolves(o) {
            seq![(sid_string(o), kind_label(snap.sid_object(o).spec_type()), "Owns"@, false)]
        } else {
            Seq::empty()
        },
        None => Seq::empty(),
    }
}

/// All rows of a security descriptor: the owner's first, then those of the DACL.
pub open spec fn sd_rows(snap: &ADExplorerSnapshot, sd: SDDL, target: ObjectType, has_laps: bool) -> Seq<
    Row,
> {
    owner_rows(snap, sd) + match sd.dacl {
        Some(a) => dacl_rows(snap, a.aces@, target, has_laps),
        None => Seq::empty(),
    }
}

/// The owner of a descriptor, when the SID index resolves it, gives the first
/// row, with the right `Owns`, not inherited.
pub proof fn lemma_owner_row_first(
    snap: &ADExplorerSnapshot,
    sd: SDDL,
    target: ObjectType,
    has_laps: bool,
)
    requires
        sd.owner_sid is Some,
        snap.resolves(sd.owner_sid->0),
    ensures
        sd_rows(snap, sd, target, has_laps).len() > 0,
        sd_rows(snap, sd, target, has_laps)[0].0 == sid_string(sd.owner_sid->0),
        sd_rows(snap, sd, target, has_laps)[0].2 == "Owns"@,
        !sd_rows(snap, sd, target, has_laps)[0].3,
{
}

fn push_rows(
    out: &mut Vec<Aces>,
    sid: &String,
    kind: &String,
    rs: &Vec<String>,
    inherited: bool,
)
    ensures
        aces_view(final(out)@) == aces_view(old(out)@) + rights_rows(
            sid@,
            kind@,
            crate::parser::object::strs_view(rs@),
            inherited,
        ),
{
    let ghost start = aces_view(out@);
    let mut i: usize = 0;
    proof {
        let e = crate::parser::object::strs_view(rs@).subrange(0, 0);
        assert(e =~= Seq::<Seq<char>>::empty());
        assert(aces_view(out@) =~= start + rights_rows(sid@, kind@, e, inherited));
    }
    while i < rs.len()
        invariant
            i <= rs@.len(),
            aces_view(out@) == start + rights_rows(
                sid@,
                kind@,
                crate::parser::object::strs_view(rs@).subrange(0, i as int),
                inherited,
            ),
        decreases rs@.len() - i,
    {
        let ghost before = out@;
        out.push(
            Aces {
                principal_sid: sid.clone(),
                principal_type: kind.clone(),
                right_name: rs[i].clone(),
                is_inherited: inherited,
            },
        );
        proof {
            let sv = crate::parser::object::strs_view(rs@);
            assert(sv.subrange(0, i + 1).drop_last() =~= sv.subrange(0, i as int));
            assert(aces_view(out@) =~= aces_view(before).push(
                (sid@, kind@, rs@[i as int]@, inherited),
            ));
        }
        i = i + 1;
    }
    proof {
        assert(crate::parser::object::strs_view(rs@).subrange(0, i as int)
            =~= crate::parser::object::strs_view(rs@));
    }
}

impl Aces {
    /// The rows of a security descriptor on an object of kind `object_type`:
    /// the owner's first, then, for each allow ACE of the DACL whose principal
    /// resolves, one row per right.
    pub fn from_security_descriptor(
        sd: &SDDL,
        snapshot: &ADExplorerSnapshot,
        object_type: &ObjectType,
        has_laps: bool,
    ) -> (r: Vec<Aces>)
        ensures
            aces_view(r@) == sd_rows(snapshot, *sd, *object_type, has_laps),
    {
        let mut out: Vec<Aces> = Vec::new();
        match &sd.owner_sid {
            Some(owner) => {
                match snapshot.get_sid(owner) {
                    Some(obj) => {
                        let row = Aces {
                            principal_sid: owner.to_string(),
                            principal_type: type_string(obj),
                            right_name: owned("Owns"),
                            is_inherited: false,
                        };
                        out.push(row);
                    },
                    None => {},
                }
            },
            None => {},
        }
        proof {
            assert(aces_view(out@) =~= owner_rows(snapshot, *sd));
        }
        let ghost head = aces_view(out@);
        match &sd.dacl {
            Some(dacl) => {
                let mut i: usize = 0;
                proof {
                    assert(dacl.aces@.subrange(0, 0) =~= Seq::<ACE>::empty());
                    assert(aces_view(out@) =~= head + dacl_rows(
                        snapshot,
                        dacl.aces@.subrange(0, 0),
                        *object_type,
                        has_laps,
                    ));
                }
                while i < dacl.aces.len()
                    invariant
                        i <= dacl.aces@.len(),
                        aces_view(out@) == head + dacl_rows(
                            snapshot,
                            dacl.aces@.subrange(0, i as int),
                            *object_type,
                            has_laps,
                        ),
                    decreases dacl.aces@.len() - i,
                {
                    let ace = &dacl.aces[i];
                    let ghost before = aces_view(out@);
                    proof {
                        assert(dacl.aces@.subrange(0, i + 1).drop_last() =~= dacl.aces@.subrange(
                            0,
                            i as int,
                        ));
                    }
                    let deny = match ace {
                        ACE::AccessDenied(_) | ACE::AccessDeniedObject(_) => true,
                        _ => false,
                    };
                    if !deny {
                        let rs = rights(ace, object_type, has_laps);
                        match snapshot.get_sid(ace.sid()) {
                            Some(target) => {
                                let sid_text = ace.sid().to_string();
                                let kind = type_string(target);
                                let inherited = ace.header().ace_flags.is_set(ACEFlags::INHERITED_ACE);
                                push_rows(&mut out, &sid_text, &kind, &rs, inherited);
                            },
                            None => {},
                        }
                    }
                    proof {
                        assert(aces_view(out@) =~= before + ace_rows(
                            snapshot,
                            *ace,
                            *object_type,
                            has_laps,
                        ));
                    }
                    i = i + 1;
                }
                proof {
                    assert(dacl.aces@.subrange(0, i as int) =~= dacl.aces@);
                }
            },
            None => {
                proof {
                    assert(aces_view(out@) =~= head + Seq::<Row>::empty());
                }
            },
        }
        out
    }
}

/// Whether the object carries the LAPS expiry attribute.
pub open spec fn has_laps_attr(obj: &Object) -> bool {
    obj.spec_get("ms-Mcs-AdmPwdExpirationTime"@) is Some
}

/// The ACE rows of an object: those of its security descriptor when the
/// first `nTSecurityDescriptor` value decodes, else none.
pub fn get_aces(obj: &Object, snapshot: &ADExplorerSnapshot) -> (r: Vec<Aces>)
    ensures
        match obj.spec_first("nTSecurityDescriptor"@) {
            Some(AttributeValue::NTSecurityDescriptor(b)) => if sd_ok(b@) {
                exists|sd: SDDL|
                    #[trigger] sd_at(b@, sd) && aces_view(r@) == sd_rows(
                        snapshot,
                        sd,
                        obj.spec_type(),
                        has_laps_attr(obj),
                    )
            } else {
                r@.len() == 0
            },
            _ => r@.len() == 0,
        },
{
    let has_laps = obj.get("ms-Mcs-AdmPwdExpirationTime").is_some();
    let object_type = obj.get_type();
    match obj.get_first("nTSecurityDescriptor") {
        Some(v) => match v.as_nt_security_descriptor() {
            Some(sd) => Aces::from_security_descriptor(&sd, snapshot, &object_type, has_laps),
            None => Vec::new(),
        },
        None => Vec::new(),
    }
}

} // verus!
