//! Access-control entries.

use vstd::prelude::*;
use crate::bytes::{fits, u16_at, u32_at, read_u16, read_u32};
use crate::error::ParseError;
use crate::guid::{guid_at, read_guid_at, GUID};
use crate::security_descriptor::access_mask::AccessMask;
use crate::sid::{read_sid_at, sid_at, sid_ok_at, sid_size_at, SID};

verus! {

/// The type byte of an ACE.
#[derive(Debug, Clone, Copy, PartialEq, Eq, Structural)]
pub enum ACEType {
    AccessAllowed,
    AccessDenied,
    SystemAudit,
    SystemAlarm,
    AccessAllowedCompound,
    AccessAllowedObject,
    AccessDeniedObject,
    SystemAuditObject,
    SystemAlarmObject,
    AccessAllowedCallback,
    AccessDeniedCallback,
    AccessAllowedCallbackObject,
    AccessDeniedCallbackObject,
    SystemAuditCallback,
    SystemAlarmCallback,
    SystemAuditCallbackObject,
    SystemAlarmCallbackObject,
    SystemMandatoryLabel,
    SystemResourceAttribute,
    SystemScopedPolicyId,
}

/// The type code of each ACE type.
pub open spec fn ace_type_code(t: ACEType) -> u8 {
    match t {
        ACEType::AccessAllowed => 0x00,
        ACEType::AccessDenied => 0x01,
        ACEType::SystemAudit => 0x02,
        ACEType::SystemAlarm => 0x03,
        ACEType::AccessAllowedCompound => 0x04,
        ACEType::AccessAllowedObject => 0x05,
        ACEType::AccessDeniedObject => 0x06,
        ACEType::SystemAuditObject => 0x07,
        ACEType::SystemAlarmObject => 0x08,
        ACEType::AccessAllowedCallback => 0x09,
        ACEType::AccessDeniedCallback => 0x0A,
        ACEType::AccessAllowedCallbackObject => 0x0B,
        ACEType::AccessDeniedCallbackObject => 0x0C,
        ACEType::SystemAuditCallback => 0x0D,
        ACEType::SystemAlarmCallback => 0x0E,
        ACEType::SystemAuditCallbackObject => 0x0F,
        ACEType::SystemAlarmCallbackObject => 0x10,
        ACEType::SystemMandatoryLabel => 0x11,
        ACEType::SystemResourceAttribute => 0x12,
        ACEType::SystemScopedPolicyId => 0x13,
    }
}

impl ACEType {
    /// The ACE type of a type byte; `None` above 0x13.
    pub fn from_code(v: u8) -> (r: Option<ACEType>)
        ensures
            match r {
                Some(t) => v <= 0x13 && ace_type_code(t) == v,
                None => v > 0x13,
            },
    {
        match v {
            0x00 => Some(ACEType::AccessAllowed),
            0x01 => Some(ACEType::AccessDenied),
            0x02 => Some(ACEType::SystemAudit),
            0x03 => Some(ACEType::SystemAlarm),
            0x04 => Some(ACEType::AccessAllowedCompound),
            0x05 => Some(ACEType::AccessAllowedObject),
            0x06 => Some(ACEType::AccessDeniedObject),
            0x07 => Some(ACEType::SystemAuditObject),
            0x08 => Some(ACEType::SystemAlarmObject),
            0x09 => Some(ACEType::AccessAllowedCallback),
            0x0A => Some(ACEType::AccessDeniedCallback),
            0x0B => Some(ACEType::AccessAllowedCallbackObject),
            0x0C => Some(ACEType::AccessDeniedCallbackObject),
            0x0D => Some(ACEType::SystemAuditCallback),
            0x0E => Some(ACEType::SystemAlarmCallback),
            0x0F => Some(ACEType::SystemAuditCallbackObject),
            0x10 => Some(ACEType::SystemAlarmCallbackObject),
            0x11 => Some(ACEType::SystemMandatoryLabel),
            0x12 => Some(ACEType::SystemResourceAttribute),
            0x13 => Some(ACEType::SystemScopedPolicyId),
            _ => None,
        }
    }
}

/// The flag byte of an ACE header.
#[derive(Debug, Clone, Copy, PartialEq, Eq, Structural)]
pub struct ACEFlags(pub u8);

impl ACEFlags {
    pub const CONTAINER_INHERIT_ACE: u8 = 0x02;
    pub const FAILED_ACCESS_ACE_FLAG: u8 = 0x80;
    pub const INHERIT_ONLY_ACE: u8 = 0x08;
    pub const INHERITED_ACE: u8 = 0x10;
    pub const NO_PROPAGATE_INHERIT_ACE: u8 = 0x04;
    pub const OBJECT_INHERIT_ACE: u8 = 0x01;
    pub const SUCCESSFUL_ACCESS_ACE_FLAG: u8 = 0x40;

    pub fn new(value: u8) -> (r: ACEFlags)
        ensures
            r.0 == value,
    {
        ACEFlags(value)
    }

    pub fn is_set(&self, flag: u8) -> (r: bool)
        ensures
            r == (self.0 & flag != 0),
    {
        self.0 & flag != 0
    }
}

/// The common header of every ACE.
#[derive(Debug, Clone, Copy, PartialEq, Eq, Structural)]
pub struct ACEHeader {
    pub ace_type: ACEType,
    pub ace_flags: ACEFlags,
    pub ace_size: u16,
}

#[derive(Debug, Clone, PartialEq, Eq)]
pub struct AccessAllowedAce {
    pub header: ACEHeader,
    pub mask: AccessMask,
    pub sid: SID,
}

#[derive(Debug, Clone, PartialEq, Eq)]
pub struct AccessDeniedAce {
    pub header: ACEHeader,
    pub mask: AccessMask,
    pub sid: SID,
}

#[derive(Debug, Clone, PartialEq, Eq)]
pub struct AccessAllowedObjectAce {
    pub header: ACEHeader,
    pub mask: AccessMask,
    pub flags: u32,
    pub object_type: Option<GUID>,
    pub inherited_object_type: Option<GUID>,
    pub sid: SID,
}

#[derive(Debug, Clone, PartialEq, Eq)]
pub struct AccessDeniedObjectAce {
    pub header: ACEHeader,
    pub mask: AccessMask,
    pub flags: u32,
    pub object_type: Option<GUID>,
    pub inherited_object_type: Option<GUID>,
    pub sid: SID,
}

#[derive(Debug, Clone, PartialEq, Eq)]
pub struct SystemAuditObjectAce {
    pub header: ACEHeader,
    pub mask: AccessMask,
    pub flags: u32,
    pub object_type: Option<GUID>,
    pub inherited_object_type: Option<GUID>,
    pub sid: SID,
    pub application_data: Vec<u8>,
}

/// An access-control entry of one of the handled kinds.
#[derive(Debug, Clone, PartialEq, Eq)]
pub enum ACE {
    AccessAllowed(AccessAllowedAce),
    AccessAllowedObject(AccessAllowedObjectAce),
    AccessDenied(AccessDeniedAce),
    SystemAuditObject(SystemAuditObjectAce),
    AccessDeniedObject(AccessDeniedObjectAce),
}

/// The well-known object-type GUIDs that the rights rules recognise.
#[derive(Debug, Clone, Copy, PartialEq, Eq, Structural)]
pub enum ACEGuid {
    DSReplicationGetChanges,
    DSReplicationGetChangesAll,
    DSReplicationGetChangesInFilteredSet,
    UserForceChangePassword,
    AllGuid,
    WriteMember,
    WriteAllowedToAct,
    WriteSPN,
    AddKeyPrincipal,
    UserAccountRestrictions,
    PKINameFlag,
    PKIEnrollmentFlag,
    Enroll,
    AutoEnroll,
}

/// The well-known name of a GUID, if it has one.
pub open spec fn known_guid(g: GUID) -> Option<ACEGuid> {
    if g.data1 == 0x1131F6AAu32 && g.data2 == 0x9C07u16 && g.data3 == 0x11D1u16 && g.data4 == 0xF79F00C04FC2DCD2u64 {
        Some(ACEGuid::DSReplicationGetChanges)
    } else if g.data1 == 0x1131F6ADu32 && g.data2 == 0x9C07u16 && g.data3 == 0x11D1u16 && g.data4 == 0xF79F00C04FC2DCD2u64 {
        Some(ACEGuid::DSReplicationGetChangesAll)
    } else if g.data1 == 0x89E95B76u32 && g.data2 == 0x444Du16 && g.data3 == 0x4C62u16 && g.data4 == 0x991A0FACBEDA640Cu64 {
        Some(ACEGuid::DSReplicationGetChangesInFilteredSet)
    } else if g.data1 == 0x00299570u32 && g.data2 == 0x246Du16 && g.data3 == 0x11D0u16 && g.data4 == 0xA76800AA006E0529u64 {
        Some(ACEGuid::UserForceChangePassword)
    } else if g.data1 == 0x00000000u32 && g.data2 == 0x0000u16 && g.data3 == 0x0000u16 && g.data4 == 0x0000000000000000u64 {
        Some(ACEGuid::AllGuid)
    } else if g.data1 == 0xBF9679C0u32 && g.data2 == 0x0DE6u16 && g.data3 == 0x11D0u16 && g.data4 == 0xA28500AA003049E2u64 {
        Some(ACEGuid::WriteMember)
    } else if g.data1 == 0x3F78C3E5u32 && g.data2 == 0xF79Au16 && g.data3 == 0x46BDu16 && g.data4 == 0xA0B89D18116DDC79u64 {
        Some(ACEGuid::WriteAllowedToAct)
    } else if g.data1 == 0xF3A64788u32 && g.data2 == 0x5306u16 && g.data3 == 0x11D1u16 && g.data4 == 0xA9C50000F80367C1u64 {
        Some(ACEGuid::WriteSPN)
    } else if g.data1 == 0x5B47D60Fu32 && g.data2 == 0x6090u16 && g.data3 == 0x40B2u16 && g.data4 == 0x9F372A4DE88F3063u64 {
        Some(ACEGuid::AddKeyPrincipal)
    } else if g.data1 == 0x4C164200u32 && g.data2 == 0x20C0u16 && g.data3 == 0x11D0u16 && g.data4 == 0xA76800AA006E0529u64 {
        Some(ACEGuid::UserAccountRestrictions)
    } else if g.data1 == 0xEA1DDDC4u32 && g.data2 == 0x60FFu16 && g.data3 == 0x416Eu16 && g.data4 == 0x8CC017CEE534BCE7u64 {
        Some(ACEGuid::PKINameFlag)
    } else if g.data1 == 0xD15EF7D8u32 && g.data2 == 0xF226u16 && g.data3 == 0x46DBu16 && g.data4 == 0xAE79B34E560BD12Cu64 {
        Some(ACEGuid::PKIEnrollmentFlag)
    } else if g.data1 == 0x0E10C968u32 && g.data2 == 0x78FBu16 && g.data3 == 0x11D2u16 && g.data4 == 0x90D400C04F79DC55u64 {
        Some(ACEGuid::Enroll)
    } else if g.data1 == 0xA05B8CC2u32 && g.data2 == 0x17BCu16 && g.data3 == 0x4802u16 && g.data4 == 0xA710E7C15AB866A2u64 {
        Some(ACEGuid::AutoEnroll)
    } else {
        None
    }
}

impl ACEGuid {
    pub fn from_guid(g: &GUID) -> (r: Option<ACEGuid>)
        ensures
            r == known_guid(*g),
    {
        if g.data1 == 0x1131F6AAu32 && g.data2 == 0x9C07u16 && g.data3 == 0x11D1u16 && g.data4 == 0xF79F00C04FC2DCD2u64 {
            Some(ACEGuid::DSReplicationGetChanges)
        } else if g.data1 == 0x1131F6ADu32 && g.data2 == 0x9C07u16 && g.data3 == 0x11D1u16 && g.data4 == 0xF79F00C04FC2DCD2u64 {
            Some(ACEGuid::DSReplicationGetChangesAll)
        } else if g.data1 == 0x89E95B76u32 && g.data2 == 0x444Du16 && g.data3 == 0x4C62u16 && g.data4 == 0x991A0FACBEDA640Cu64 {
            Some(ACEGuid::DSReplicationGetChangesInFilteredSet)
        } else if g.data1 == 0x00299570u32 && g.data2 == 0x246Du16 && g.data3 == 0x11D0u16 && g.data4 == 0xA76800AA006E0529u64 {
            Some(ACEGuid::UserForceChangePassword)
        } else if g.data1 == 0x00000000u32 && g.data2 == 0x0000u16 && g.data3 == 0x0000u16 && g.data4 == 0x0000000000000000u64 {
            Some(ACEGuid::AllGuid)
        } else if g.data1 == 0xBF9679C0u32 && g.data2 == 0x0DE6u16 && g.data3 == 0x11D0u16 && g.data4 == 0xA28500AA003049E2u64 {
            Some(ACEGuid::WriteMember)
        } else if g.data1 == 0x3F78C3E5u32 && g.data2 == 0xF79Au16 && g.data3 == 0x46BDu16 && g.data4 == 0xA0B89D18116DDC79u64 {
            Some(ACEGuid::WriteAllowedToAct)
        } else if g.data1 == 0xF3A64788u32 && g.data2 == 0x5306u16 && g.data3 == 0x11D1u16 && g.data4 == 0xA9C50000F80367C1u64 {
            Some(ACEGuid::WriteSPN)
        } else if g.data1 == 0x5B47D60Fu32 && g.data2 == 0x6090u16 && g.data3 == 0x40B2u16 && g.data4 == 0x9F372A4DE88F3063u64 {
            Some(ACEGuid::AddKeyPrincipal)
        } else if g.data1 == 0x4C164200u32 && g.data2 == 0x20C0u16 && g.data3 == 0x11D0u16 && g.data4 == 0xA76800AA006E0529u64 {
            Some(ACEGuid::UserAccountRestrictions)
        } else if g.data1 == 0xEA1DDDC4u32 && g.data2 == 0x60FFu16 && g.data3 == 0x416Eu16 && g.data4 == 0x8CC017CEE534BCE7u64 {
            Some(ACEGuid::PKINameFlag)
        } else if g.data1 == 0xD15EF7D8u32 && g.data2 == 0xF226u16 && g.data3 == 0x46DBu16 && g.data4 == 0xAE79B34E560BD12Cu64 {
            Some(ACEGuid::PKIEnrollmentFlag)
        } else if g.data1 == 0x0E10C968u32 && g.data2 == 0x78FBu16 && g.data3 == 0x11D2u16 && g.data4 == 0x90D400C04F79DC55u64 {
            Some(ACEGuid::Enroll)
        } else if g.data1 == 0xA05B8CC2u32 && g.data2 == 0x17BCu16 && g.data3 == 0x4802u16 && g.data4 == 0xA710E7C15AB866A2u64 {
            Some(ACEGuid::AutoEnroll)
        } else {
            None
        }
    }
}

impl ACE {
    /// The common fields of every kind.
    pub open spec fn spec_header(&self) -> ACEHeader {
        match self {
            ACE::AccessAllowed(a) => a.header,
            ACE::AccessAllowedObject(a) => a.header,
            ACE::AccessDenied(a) => a.header,
            ACE::SystemAuditObject(a) => a.header,
            ACE::AccessDeniedObject(a) => a.header,
        }
    }

    pub open spec fn spec_sid(&self) -> SID {
        match self {
            ACE::AccessAllowed(a) => a.sid,
            ACE::AccessAllowedObject(a) => a.sid,
            ACE::AccessDenied(a) => a.sid,
            ACE::SystemAuditObject(a) => a.sid,
            ACE::AccessDeniedObject(a) => a.sid,
        }
    }

    pub open spec fn spec_mask(&self) -> AccessMask {
        match self {
            ACE::AccessAllowed(a) => a.mask,
            ACE::AccessAllowedObject(a) => a.mask,
            ACE::AccessDenied(a) => a.mask,
            ACE::SystemAuditObject(a) => a.mask,
            ACE::AccessDeniedObject(a) => a.mask,
        }
    }

    pub open spec fn spec_object_type(&self) -> Option<GUID> {
        match self {
            ACE::AccessAllowedObject(a) => a.object_type,
            ACE::SystemAuditObject(a) => a.object_type,
            ACE::AccessDeniedObject(a) => a.object_type,
            _ => None,
        }
    }

    pub open spec fn spec_inherited_object_type(&self) -> Option<GUID> {
        match self {
            ACE::AccessAllowedObject(a) => a.inherited_object_type,
            ACE::SystemAuditObject(a) => a.inherited_object_type,
            ACE::AccessDeniedObject(a) => a.inherited_object_type,
            _ => None,
        }
    }

    pub fn header(&self) -> (r: &ACEHeader)
        ensures
            *r == self.spec_header(),
    {
        match self {
            ACE::AccessAllowed(a) => &a.header,
            ACE::AccessAllowedObject(a) => &a.header,
            ACE::AccessDenied(a) => &a.header,
            ACE::SystemAuditObject(a) => &a.header,
            ACE::AccessDeniedObject(a) => &a.header,
        }
    }

    pub fn sid(&self) -> (r: &SID)
        ensures
            *r == self.spec_sid(),
    {
        match self {
            ACE::AccessAllowed(a) => &a.sid,
            ACE::AccessAllowedObject(a) => &a.sid,
            ACE::AccessDenied(a) => &a.sid,
            ACE::SystemAuditObject(a) => &a.sid,
            ACE::AccessDeniedObject(a) => &a.sid,
        }
    }

    pub fn mask(&self) -> (r: AccessMask)
        ensures
            r == self.spec_mask(),
    {
        match self {
            ACE::AccessAllowed(a) => a.mask,
            ACE::AccessAllowedObject(a) => a.mask,
            ACE::AccessDenied(a) => a.mask,
            ACE::SystemAuditObject(a) => a.mask,
            ACE::AccessDeniedObject(a) => a.mask,
        }
    }

    pub fn object_type(&self) -> (r: Option<&GUID>)
        ensures
            match r {
                Some(g) => self.spec_object_type() == Some(*g),
                None => self.spec_object_type() is None,
            },
    {
        match self {
            ACE::AccessAllowedObject(a) => a.object_type.as_ref(),
            ACE::SystemAuditObject(a) => a.object_type.as_ref(),
            ACE::AccessDeniedObject(a) => a.object_type.as_ref(),
            _ => None,
        }
    }

    /// The well-known name of the object type, if there is one and it has one.
    pub fn object_type_s(&self) -> (r: Option<ACEGuid>)
        ensures
            r == (match self.spec_object_type() {
                Some(g) => known_guid(g),
                None => None,
            }),
    {
        match self.object_type() {
            Some(g) => ACEGuid::from_guid(g),
            None => None,
        }
    }

    pub fn inherited_object_type(&self) -> (r: Option<&GUID>)
        ensures
            match r {
                Some(g) => self.spec_inherited_object_type() == Some(*g),
                None => self.spec_inherited_object_type() is None,
            },
    {
        match self {
            ACE::AccessAllowedObject(a) => a.inherited_object_type.as_ref(),
            ACE::SystemAuditObject(a) => a.inherited_object_type.as_ref(),
            ACE::AccessDeniedObject(a) => a.inherited_object_type.as_ref(),
            _ => None,
        }
    }
}

// ---- layout of an ACE record at position q ----

/// The declared size of the ACE record at `q`.
pub open spec fn ace_size_at(s: Seq<u8>, q: int) -> int {
    u16_at(s, q + 2) as int
}

/// Whether the ACE record at `q` has a readable header and lies within `s`.
pub open spec fn ace_record_ok(s: Seq<u8>, q: int) -> bool {
    fits(s, q, 4) && ace_size_at(s, q) >= 4 && fits(s, q, ace_size_at(s, q))
}

/// Whether the type byte is one of the handled kinds.
pub open spec fn handled_type(t: u8) -> bool {
    t == 0 || t == 1 || t == 5 || t == 6 || t == 7
}

/// Whether the type byte is an object kind (with flags and optional GUIDs).
pub open spec fn object_kind(t: u8) -> bool {
    t == 5 || t == 6 || t == 7
}

/// The object flags of an object ACE at `q`.
pub open spec fn object_flags_at(s: Seq<u8>, q: int) -> u32 {
    u32_at(s, q + 8)
}

/// Where the inherited-object-type GUID of an object ACE at `q` would start.
pub open spec fn iot_pos(s: Seq<u8>, q: int) -> int {
    q + 12 + (if object_flags_at(s, q) & 1 != 0 { 16int } else { 0int })
}

/// Where the SID of the ACE at `q` starts.
pub open spec fn ace_sid_pos(s: Seq<u8>, q: int) -> int {
    if object_kind(s[q]) {
        iot_pos(s, q) + (if object_flags_at(s, q) & 2 != 0 { 16int } else { 0int }) + (if s[q]
            == 7 {
            8int
        } else {
            0int
        })
    } else {
        q + 8
    }
}

/// Whether the handled ACE at `q` can be decoded within its declared size.
pub open spec fn ace_ok_at(s: Seq<u8>, q: int) -> bool {
    &&& ace_record_ok(s, q)
    &&& handled_type(s[q])
    &&& ace_size_at(s, q) >= (if object_kind(s[q]) { 12int } else { 8int })
    &&& ace_sid_pos(s, q) <= q + ace_size_at(s, q)
    &&& sid_ok_at(s, ace_sid_pos(s, q))
    &&& ace_sid_pos(s, q) + sid_size_at(s, ace_sid_pos(s, q)) <= q + ace_size_at(s, q)
}

/// Whether `h` is the header at `q`.
pub open spec fn header_at(s: Seq<u8>, q: int, h: ACEHeader) -> bool {
    ace_type_code(h.ace_type) == s[q] && h.ace_flags.0 == s[q + 1] && h.ace_size == u16_at(
        s,
        q + 2,
    )
}

/// Whether `o` is the optional GUID at `p`, present when `present`.
pub open spec fn opt_guid_at(s: Seq<u8>, p: int, present: bool, o: Option<GUID>) -> bool {
    if present {
        o is Some && guid_at(s, p, o->0)
    } else {
        o is None
    }
}

/// Whether the object fields (flags and GUIDs) match the object ACE at `q`.
pub open spec fn object_fields_at(
    s: Seq<u8>,
    q: int,
    flags: u32,
    ot: Option<GUID>,
    iot: Option<GUID>,
) -> bool {
    &&& flags == object_flags_at(s, q)
    &&& opt_guid_at(s, q + 12, flags & 1 != 0, ot)
    &&& opt_guid_at(s, iot_pos(s, q), flags & 2 != 0, iot)
}

/// Whether `a` is the ACE decoded from the record at `q`.
pub open spec fn ace_at(s: Seq<u8>, q: int, a: ACE) -> bool {
    &&& header_at(s, q, a.spec_header())
    &&& a.spec_mask().0 == u32_at(s, q + 4)
    &&& sid_at(s, ace_sid_pos(s, q), a.spec_sid())
    &&& a.spec_sid().wf()
    &&& match a {
        ACE::AccessAllowed(x) => s[q] == 0,
        ACE::AccessDenied(x) => s[q] == 1,
        ACE::AccessAllowedObject(x) => s[q] == 5 && object_fields_at(
            s,
            q,
            x.flags,
            x.object_type,
            x.inherited_object_type,
        ),
        ACE::AccessDeniedObject(x) => s[q] == 6 && object_fields_at(
            s,
            q,
            x.flags,
            x.object_type,
            x.inherited_object_type,
        ),
        ACE::SystemAuditObject(x) => s[q] == 7 && object_fields_at(
            s,
            q,
            x.flags,
            x.object_type,
            x.inherited_object_type,
        ) && x.application_data@ == s.subrange(
            ace_sid_pos(s, q) + sid_size_at(s, ace_sid_pos(s, q)),
            q + ace_size_at(s, q),
        ),
    }
}

/// Decodes the header of the ACE at `q`; `None` when it is short or its
/// type byte is above 0x13.
pub fn parse_ace_header(data: &[u8], q: usize) -> (r: Option<ACEHeader>)
    ensures
        match r {
            Some(h) => fits(data@, q as int, 4) && data@[q as int] <= 0x13 && header_at(
                data@,
                q as int,
                h,
            ),
            None => !fits(data@, q as int, 4) || data@[q as int] > 0x13,
        },
{
    if !(q <= data.len() && data.len() - q >= 4) {
        return None;
    }
    let ace_type = match ACEType::from_code(data[q]) {
        Some(t) => t,
        None => return None,
    };
    let ace_size = read_u16(data, q + 2).unwrap();
    Some(ACEHeader { ace_type, ace_flags: ACEFlags(data[q + 1]), ace_size })
}

fn read_opt_guid(data: &[u8], pos: usize, present: bool, limit: usize) -> (r: Result<
    (Option<GUID>, usize),
    (),
>)
    requires
        pos <= limit <= data@.len(),
    ensures
        match r {
            Ok((o, next)) => opt_guid_at(data@, pos as int, present, o) && next == pos + (if present {
                16int
            } else {
                0int
            }) && next <= limit,
            Err(_) => present && pos + 16 > limit,
        },
{
    if !present {
        return Ok((None, pos));
    }
    if limit - pos < 16 {
        return Err(());
    }
    let g = read_guid_at(data, pos).unwrap();
    Ok((Some(g), pos + 16))
}

/// Decodes the ACE record at `q`; an unhandled type gives `UnsupportedAceType`.
pub fn parse_ace(data: &[u8], q: usize) -> (r: Result<ACE, ParseError>)
    ensures
        match r {
            Ok(a) => ace_ok_at(data@, q as int) && ace_at(data@, q as int, a),
            Err(ParseError::UnsupportedAceType) => ace_record_ok(data@, q as int) && !handled_type(
                data@[q as int],
            ),
            Err(e) => e == ParseError::MalformedInput && !ace_ok_at(data@, q as int) && !(
            ace_record_ok(data@, q as int) && !handled_type(data@[q as int])),
        },
{
    if !(q <= data.len() && data.len() - q >= 4) {
        return Err(ParseError::MalformedInput);
    }
    let code = data[q];
    let flag_byte = data[q + 1];
    let size = read_u16(data, q + 2).unwrap();
    if size < 4 || data.len() - q < size as usize {
        return Err(ParseError::MalformedInput);
    }
    let end: usize = q + size as usize;
    if !(code == 0 || code == 1 || code == 5 || code == 6 || code == 7) {
        return Err(ParseError::UnsupportedAceType);
    }
    let ace_type = ACEType::from_code(code).unwrap();
    let header = ACEHeader { ace_type, ace_flags: ACEFlags(flag_byte), ace_size: size };
    if code == 0 || code == 1 {
        if size < 8 {
            return Err(ParseError::MalformedInput);
        }
        let mask = AccessMask(read_u32(data, q + 4).unwrap());
        let (sid, sid_end) = match read_sid_at(data, q + 8) {
            Some(x) => x,
            None => return Err(ParseError::MalformedInput),
        };
        if sid_end > end {
            return Err(ParseError::MalformedInput);
        }
        if code == 0 {
            return Ok(ACE::AccessAllowed(AccessAllowedAce { header, mask, sid }));
        } else {
            return Ok(ACE::AccessDenied(AccessDeniedAce { header, mask, sid }));
        }
    }
    if size < 12 {
        return Err(ParseError::MalformedInput);
    }
    let mask = AccessMask(read_u32(data, q + 4).unwrap());
    let flags = read_u32(data, q + 8).unwrap();
    let (object_type, p1) = match read_opt_guid(data, q + 12, flags & 1 != 0, end) {
        Ok(x) => x,
        Err(_) => return Err(ParseError::MalformedInput),
    };
    let (inherited_object_type, p2) = match read_opt_guid(data, p1, flags & 2 != 0, end) {
        Ok(x) => x,
        Err(_) => return Err(ParseError::MalformedInput),
    };
    let sid_pos: usize = if code == 7 {
        if end - p2 < 8 {
            return Err(ParseError::MalformedInput);
        }
        p2 + 8
    } else {
        p2
    };
    let (sid, sid_end) = match read_sid_at(data, sid_pos) {
        Some(x) => x,
        None => return Err(ParseError::MalformedInput),
    };
    if sid_end > end {
        return Err(ParseError::MalformedInput);
    }
    if code == 5 {
        Ok(
            ACE::AccessAllowedObject(
                AccessAllowedObjectAce {
                    header,
                    mask,
                    flags,
                    object_type,
                    inherited_object_type,
                    sid,
                },
            ),
        )
    } else if code == 6 {
        Ok(
            ACE::AccessDeniedObject(
                AccessDeniedObjectAce {
                    header,
                    mask,
                    flags,
                    object_type,
                    inherited_object_type,
                    sid,
                },
            ),
        )
    } else {
        let application_data = crate::bytes::read_bytes(data, sid_end, end - sid_end).unwrap();
        Ok(
            ACE::SystemAuditObject(
                SystemAuditObjectAce {
                    header,
                    mask,
                    flags,
                    object_type,
                    inherited_object_type,
                    sid,
                    application_data,
                },
            ),
        )
    }
}

} // verus!
