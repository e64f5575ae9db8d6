//! The rule engine that maps an ACE and the kind of its target object to the
//! abstract right names of the graph model.

use vstd::prelude::*;
use crate::guid::GUID;
use crate::parser::object::{strs_view, ObjectType};
use crate::security_descriptor::access_mask::AccessMask;
use crate::security_descriptor::ace::{known_guid, ACEGuid, ACE};
use crate::text::owned;

verus! {

/// Whether every bit of `flag` is set in `mask`.
pub open spec fn has_bits(mask: u32, flag: u32) -> bool {
    mask & flag == flag
}

/// Whether the object type is absent or the all-zero GUID.
pub open spec fn any_object(ot: Option<GUID>) -> bool {
    ot is None || (ot->0).spec_is_zero()
}

/// The well-known name of the object type, if any.
pub open spec fn named_object(ot: Option<GUID>) -> Option<ACEGuid> {
    match ot {
        Some(g) => known_guid(g),
        None => None,
    }
}

/// `seq![x]` when `c` holds, else empty.
pub open spec fn when(c: bool, x: Seq<char>) -> Seq<Seq<char>> {
    if c {
        seq![x]
    } else {
        Seq::empty()
    }
}

/// Rights from the control-access bit.
pub open spec fn extended_rights(target: ObjectType, ot: Option<GUID>, has_laps: bool) -> Seq<
    Seq<char>,
> {
    let named = named_object(ot);
    match target {
        ObjectType::Domain => if named == Some(ACEGuid::DSReplicationGetChanges) {
            seq!["GetChanges"@]
        } else if named == Some(ACEGuid::DSReplicationGetChangesAll) {
            seq!["GetChangesAll"@]
        } else if named == Some(ACEGuid::DSReplicationGetChangesInFilteredSet) {
            seq!["GetChangesInFilteredSet"@]
        } else {
            when(any_object(ot), "AllExtendedRights"@)
        },
        ObjectType::User => if named == Some(ACEGuid::UserForceChangePassword) {
            seq!["ForceChangePassword"@]
        } else {
            when(any_object(ot), "AllExtendedRights"@)
        },
        ObjectType::Computer => when(has_laps && any_object(ot), "AllExtendedRights"@),
        _ => Seq::empty(),
    }
}

/// Rights from the generic-write or write-property bits.
pub open spec fn write_rights(target: ObjectType, ot: Option<GUID>) -> Seq<Seq<char>> {
    let named = named_object(ot);
    let generic = when(
        any_object(ot) && (target == ObjectType::User || target == ObjectType::Group || target
            == ObjectType::Computer || target == ObjectType::GPO),
        "GenericWrite"@,
    );
    let specific = if target == ObjectType::User && named == Some(ACEGuid::WriteSPN) {
        seq!["WriteSPN"@]
    } else if target == ObjectType::Computer && named == Some(ACEGuid::WriteAllowedToAct) {
        seq!["AddAllowedToAct"@]
    } else if target == ObjectType::Computer && named == Some(ACEGuid::UserAccountRestrictions) {
        seq!["WriteAccountRestrictions"@]
    } else if target == ObjectType::Group && named == Some(ACEGuid::WriteMember) {
        seq!["AddMember"@]
    } else if (target == ObjectType::User || target == ObjectType::Computer) && named == Some(
        ACEGuid::AddKeyPrincipal,
    ) {
        seq!["AddKeyCredentialLink"@]
    } else {
        Seq::empty()
    };
    generic + specific
}

/// The rights that an allow ACE with this mask and object type grants on a
/// target of kind `target`, in a fixed order and each once.
pub open spec fn allow_rights(mask: u32, ot: Option<GUID>, target: ObjectType, has_laps: bool) -> Seq<
    Seq<char>,
> {
    if has_bits(mask, 0x1000_0000) && any_object(ot) {
        seq!["GenericAll"@]
    } else {
        when(has_bits(mask, 0x0004_0000), "WriteDacl"@) + when(has_bits(mask, 0x0008_0000), "WriteOwner"@)
            + when(
            has_bits(mask, 0x8) && !has_bits(mask, 0x20) && !has_bits(mask, 0x4000_0000) && target
                == ObjectType::Group && named_object(ot) == Some(ACEGuid::WriteMember),
            "AddSelf"@,
        ) + (if has_bits(mask, 0x100) {
            extended_rights(target, ot, has_laps)
        } else {
            Seq::empty()
        }) + (if has_bits(mask, 0x4000_0000) || has_bits(mask, 0x20) {
            write_rights(target, ot)
        } else {
            Seq::empty()
        })
    }
}

/// Whether the ACE denies access (deny ACEs grant nothing).
pub open spec fn is_deny(ace: ACE) -> bool {
    ace is AccessDenied || ace is AccessDeniedObject
}

/// The rights an ACE grants on a target of kind `target`.
pub open spec fn ace_rights(ace: ACE, target: ObjectType, has_laps: bool) -> Seq<Seq<char>> {
    if is_deny(ace) {
        Seq::empty()
    } else {
        allow_rights(ace.spec_mask().0, ace.spec_object_type(), target, has_laps)
    }
}

fn push_when(out: &mut Vec<String>, c: bool, x: &str)
    ensures
        strs_view(final(out)@) == strs_view(old(out)@) + when(c, x@),
{
    let ghost before = out@;
    if c {
        out.push(owned(x));
        proof {
            assert(strs_view(out@) =~= strs_view(before) + seq![x@]);
        }
    } else {
        proof {
            assert(strs_view(out@) =~= strs_view(before) + Seq::<Seq<char>>::empty());
        }
    }
}

fn push_one(out: &mut Vec<String>, x: &str)
    ensures
        strs_view(final(out)@) == strs_view(old(out)@) + seq![x@],
{
    push_when(out, true, x);
}

fn push_extended(out: &mut Vec<String>, target: ObjectType, ot: Option<GUID>, has_laps: bool)
    ensures
        strs_view(final(out)@) == strs_view(old(out)@) + extended_rights(target, ot, has_laps),
{
    let any = match ot {
        Some(g) => g.is_zero(),
        None => true,
    };
    let named = match ot {
        Some(g) => ACEGuid::from_guid(&g),
        None => None,
    };
    proof {
        reveal_strlit("GetChanges");
        reveal_strlit("GetChangesAll");
        reveal_strlit("GetChangesInFilteredSet");
        reveal_strlit("AllExtendedRights");
        reveal_strlit("ForceChangePassword");
    }
    match target {
        ObjectType::Domain => {
            if named == Some(ACEGuid::DSReplicationGetChanges) {
                push_one(out, "GetChanges");
            } else if named == Some(ACEGuid::DSReplicationGetChangesAll) {
                push_one(out, "GetChangesAll");
            } else if named == Some(ACEGuid::DSReplicationGetChangesInFilteredSet) {
                push_one(out, "GetChangesInFilteredSet");
            } else {
                push_when(out, any, "AllExtendedRights");
            }
        },
        ObjectType::User => {
            if named == Some(ACEGuid::UserForceChangePassword) {
                push_one(out, "ForceChangePassword");
            } else {
                push_when(out, any, "AllExtendedRights");
            }
        },
        ObjectType::Computer => {
            push_when(out, has_laps && any, "AllExtendedRights");
        },
        _ => {
            proof {
                assert(strs_view(out@) =~= strs_view(out@) + Seq::<Seq<char>>::empty());
            }
        },
    }
}

fn push_write(out: &mut Vec<String>, target: ObjectType, ot: Option<GUID>)
    ensures
        strs_view(final(out)@) == strs_view(old(out)@) + write_rights(target, ot),
{
    let any = match ot {
        Some(g) => g.is_zero(),
        None => true,
    };
    let named = match ot {
        Some(g) => ACEGuid::from_guid(&g),
        None => None,
    };
    let ghost start = strs_view(out@);
    let is_writable = match target {
        ObjectType::User | ObjectType::Group | ObjectType::Computer | ObjectType::GPO => true,
        _ => false,
    };
    push_when(out, any && is_writable, "GenericWrite");
    let ghost mid = strs_view(out@);
    if target == ObjectType::User && named == Some(ACEGuid::WriteSPN) {
        push_one(out, "WriteSPN");
    } else if target == ObjectType::Computer && named == Some(ACEGuid::WriteAllowedToAct) {
        push_one(out, "AddAllowedToAct");
    } else if target == ObjectType::Computer && named == Some(ACEGuid::UserAccountRestrictions) {
        push_one(out, "WriteAccountRestrictions");
    } else if target == ObjectType::Group && named == Some(ACEGuid::WriteMember) {
        push_one(out, "AddMember");
    } else if (target == ObjectType::User || target == ObjectType::Computer) && named == Some(
        ACEGuid::AddKeyPrincipal,
    ) {
        push_one(out, "AddKeyCredentialLink");
    } else {
        proof {
            assert(strs_view(out@) =~= strs_view(out@) + Seq::<Seq<char>>::empty());
        }
    }
    proof {
        reveal_strlit("GenericWrite");
        reveal_strlit("WriteSPN");
        reveal_strlit("AddAllowedToAct");
        reveal_strlit("WriteAccountRestrictions");
        reveal_strlit("AddMember");
        reveal_strlit("AddKeyCredentialLink");
        let w = write_rights(target, ot);
        assert(strs_view(out@) =~= start + w);
    }
}

/// The rights an ACE grants on a target of kind `object_type`, each once, in
/// the order: GenericAll alone, else WriteDacl, WriteOwner, AddSelf, the
/// extended rights, then the write rights.
pub fn rights(ace: &ACE, object_type: &ObjectType, has_laps: bool) -> (r: Vec<String>)
    ensures
        strs_view(r@) == ace_rights(*ace, *object_type, has_laps),
{
    let mut out: Vec<String> = Vec::new();
    proof {
        assert(strs_view(out@) =~= Seq::<Seq<char>>::empty());
    }
    match ace {
        ACE::AccessDenied(_) | ACE::AccessDeniedObject(_) => {
            return out;
        },
        _ => {},
    }
    let mask = ace.mask();
    let ot: Option<GUID> = match ace.object_type() {
        Some(g) => Some(*g),
        None => None,
    };
    let any = match ot {
        Some(g) => g.is_zero(),
        None => true,
    };
    let target = *object_type;
    proof {
        reveal_strlit("GenericAll");
        reveal_strlit("WriteDacl");
        reveal_strlit("WriteOwner");
        reveal_strlit("AddSelf");
    }
    if mask.has_flag(AccessMask::GENERIC_ALL) && any {
        push_one(&mut out, "GenericAll");
        proof {
            assert(strs_view(out@) =~= seq!["GenericAll"@]);
        }
        return out;
    }
    push_when(&mut out, mask.has_flag(AccessMask::WRITE_DACL), "WriteDacl");
    push_when(&mut out, mask.has_flag(AccessMask::WRITE_OWNER), "WriteOwner");
    let named = match ot {
        Some(g) => ACEGuid::from_guid(&g),
        None => None,
    };
    push_when(
        &mut out,
        mask.has_flag(AccessMask::ADS_RIGHT_DS_SELF) && !mask.has_flag(
            AccessMask::ADS_RIGHT_DS_WRITE_PROP,
        ) && !mask.has_flag(AccessMask::GENERIC_WRITE) && target == ObjectType::Group && named
            == Some(ACEGuid::WriteMember),
        "AddSelf",
    );
    let ghost before_ext = strs_view(out@);
    if mask.has_flag(AccessMask::ADS_RIGHT_DS_CONTROL_ACCESS) {
        push_extended(&mut out, target, ot, has_laps);
    } else {
        proof {
            assert(strs_view(out@) =~= before_ext + Seq::<Seq<char>>::empty());
        }
    }
    let ghost before_write = strs_view(out@);
    if mask.has_flag(AccessMask::GENERIC_WRITE) || mask.has_flag(
        AccessMask::ADS_RIGHT_DS_WRITE_PROP,
    ) {
        push_write(&mut out, target, ot);
    } else {
        proof {
            assert(strs_view(out@) =~= before_write + Seq::<Seq<char>>::empty());
        }
    }
    proof {
        let m = mask.0;
        assert(strs_view(out@) =~= allow_rights(m, ot, target, has_laps));
    }
    out
}

} // verus!
