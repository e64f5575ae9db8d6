//! Self-relative security descriptors.

use vstd::prelude::*;
use crate::bytes::{fits, u16_at, u32_at, read_u16, read_u32};
use crate::error::ParseError;
use crate::security_descriptor::acl::{acl_at, acl_ok_at, parse_acl, ACL};
use crate::security_descriptor::control_flags::ControlFlags;
use crate::sid::{read_sid_at, sid_at, sid_ok_at, SID};

verus! {

/// A decoded security descriptor. Every part that the header's offset marks
/// as absent (offset zero) is `None`.
#[derive(Debug, Clone)]
pub struct SDDL {
    pub revision: u8,
    pub sbz1: u8,
    pub control_flags: ControlFlags,
    pub owner_sid: Option<SID>,
    pub group_sid: Option<SID>,
    pub sacl: Option<ACL>,
    pub dacl: Option<ACL>,
}

/// Whether the optional SID at offset `off` decodes.
pub open spec fn opt_sid_ok(s: Seq<u8>, off: u32) -> bool {
    off == 0 || sid_ok_at(s, off as int)
}

/// Whether `o` is the optional SID at offset `off`.
pub open spec fn opt_sid_at(s: Seq<u8>, off: u32, o: Option<SID>) -> bool {
    if off == 0 {
        o is None
    } else {
        o is Some && sid_at(s, off as int, o->0) && (o->0).wf()
    }
}

/// Whether the optional ACL at offset `off` decodes.
pub open spec fn opt_acl_ok(s: Seq<u8>, off: u32) -> bool {
    off == 0 || acl_ok_at(s, off as int)
}

/// Whether `o` is the optional ACL at offset `off`.
pub open spec fn opt_acl_at(s: Seq<u8>, off: u32, o: Option<ACL>) -> bool {
    if off == 0 {
        o is None
    } else {
        o is Some && acl_at(s, off as int, o->0)
    }
}

/// Whether the bytes hold a security descriptor that decodes.
pub open spec fn sd_ok(s: Seq<u8>) -> bool {
    &&& fits(s, 0, 20)
    &&& opt_sid_ok(s, u32_at(s, 4))
    &&& opt_sid_ok(s, u32_at(s, 8))
    &&& opt_acl_ok(s, u32_at(s, 12))
    &&& opt_acl_ok(s, u32_at(s, 16))
}

/// Whether `d` is the security descriptor decoded from the bytes.
pub open spec fn sd_at(s: Seq<u8>, d: SDDL) -> bool {
    &&& d.revision == s[0]
    &&& d.sbz1 == s[1]
    &&& d.control_flags.0 == u16_at(s, 2)
    &&& opt_sid_at(s, u32_at(s, 4), d.owner_sid)
    &&& opt_sid_at(s, u32_at(s, 8), d.group_sid)
    &&& opt_acl_at(s, u32_at(s, 12), d.sacl)
    &&& opt_acl_at(s, u32_at(s, 16), d.dacl)
}

fn read_opt_sid(data: &[u8], off: u32) -> (r: Result<Option<SID>, ParseError>)
    ensures
        match r {
            Ok(o) => opt_sid_ok(data@, off) && opt_sid_at(data@, off, o),
            Err(e) => e == ParseError::MalformedInput && !opt_sid_ok(data@, off),
        },
{
    if off == 0 {
        return Ok(None);
    }
    match read_sid_at(data, off as usize) {
        Some((x, _)) => Ok(Some(x)),
        None => Err(ParseError::MalformedInput),
    }
}

fn read_opt_acl(data: &[u8], off: u32) -> (r: Result<Option<ACL>, ParseError>)
    ensures
        match r {
            Ok(o) => opt_acl_ok(data@, off) && opt_acl_at(data@, off, o),
            Err(e) => e == ParseError::MalformedInput && !opt_acl_ok(data@, off),
        },
{
    if off == 0 {
        return Ok(None);
    }
    match parse_acl(data, off as usize) {
        Ok(a) => Ok(Some(a)),
        Err(_) => Err(ParseError::MalformedInput),
    }
}

impl SDDL {
    /// Decodes a self-relative security descriptor; offsets count from the
    /// start of `input`.
    pub fn from_bytes(input: &[u8]) -> (r: Result<SDDL, ParseError>)
        ensures
            match r {
                Ok(d) => sd_ok(input@) && sd_at(input@, d),
                Err(e) => e == ParseError::MalformedInput && !sd_ok(input@),
            },
    {
        if input.len() < 20 {
            return Err(ParseError::MalformedInput);
        }
        let revision = input[0];
        let sbz1 = input[1];
        let control = read_u16(input, 2).unwrap();
        let owner_off = read_u32(input, 4).unwrap();
        let group_off = read_u32(input, 8).unwrap();
        let sacl_off = read_u32(input, 12).unwrap();
        let dacl_off = read_u32(input, 16).unwrap();
        let owner_sid = read_opt_sid(input, owner_off)?;
        let group_sid = read_opt_sid(input, group_off)?;
        let sacl = read_opt_acl(input, sacl_off)?;
        let dacl = read_opt_acl(input, dacl_off)?;
        Ok(
            SDDL {
                revision,
                sbz1,
                control_flags: ControlFlags(control),
                owner_sid,
                group_sid,
                sacl,
                dacl,
            },
        )
    }

    pub fn owner_sid(&self) -> (r: Option<&SID>)
        ensures
            match r {
                Some(x) => self.owner_sid == Some(*x),
                None => self.owner_sid is None,
            },
    {
        self.owner_sid.as_ref()
    }

    pub fn group_sid(&self) -> (r: Option<&SID>)
        ensures
            match r {
                Some(x) => self.group_sid == Some(*x),
                None => self.group_sid is None,
            },
    {
        self.group_sid.as_ref()
    }

    pub fn sacl(&self) -> (r: Option<&ACL>)
        ensures
            match r {
                Some(x) => self.sacl == Some(*x),
                None => self.sacl is None,
            },
    {
        self.sacl.as_ref()
    }

    pub fn dacl(&self) -> (r: Option<&ACL>)
        ensures
            match r {
                Some(x) => self.dacl == Some(*x),
                None => self.dacl is None,
            },
    {
        self.dacl.as_ref()
    }
}

} // verus!
