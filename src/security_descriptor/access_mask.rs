//! The 32-bit access mask of an ACE.

use vstd::prelude::*;

verus! {

/// The access mask of an ACE.
#[derive(Debug, Clone, Copy, PartialEq, Eq, Structural)]
pub struct AccessMask(pub u32);

/// The flags of `list` that are all set in `mask`, in the order of `list`.
pub open spec fn flags_set(mask: u32, list: Seq<u32>) -> Seq<u32>
    decreases list.len(),
{
    if list.len() == 0 {
        Seq::empty()
    } else {
        let prev = flags_set(mask, list.drop_last());
        if mask & list.last() == list.last() {
            prev.push(list.last())
        } else {
            prev
        }
    }
}

/// The generic and standard rights, in reporting order.
pub open spec fn generic_rights() -> Seq<u32> {
    seq![
        0x8000_0000u32,
        0x4000_0000u32,
        0x2000_0000u32,
        0x1000_0000u32,
        0x0200_0000u32,
        0x0100_0000u32,
        0x0010_0000u32,
        0x0008_0000u32,
        0x0004_0000u32,
        0x0002_0000u32,
        0x0001_0000u32,
    ]
}

/// The directory-service rights followed by the generic and standard ones.
pub open spec fn ad_rights() -> Seq<u32> {
    seq![0x100u32, 0x1u32, 0x2u32, 0x10u32, 0x20u32, 0x8u32] + generic_rights()
}

fn generic_rights_vec() -> (r: Vec<u32>)
    ensures
        r@ == generic_rights(),
{
    let v: Vec<u32> = vec![
        AccessMask::GENERIC_READ,
        AccessMask::GENERIC_WRITE,
        AccessMask::GENERIC_EXECUTE,
        AccessMask::GENERIC_ALL,
        AccessMask::MAXIMUM_ALLOWED,
        AccessMask::ACCESS_SYSTEM_SECURITY,
        AccessMask::SYNCHRONIZE,
        AccessMask::WRITE_OWNER,
        AccessMask::WRITE_DACL,
        AccessMask::READ_CONTROL,
        AccessMask::DELETE,
    ];
    assert(v@ =~= generic_rights());
    v
}

fn ad_rights_vec() -> (r: Vec<u32>)
    ensures
        r@ == ad_rights(),
{
    let mut v: Vec<u32> = vec![
        AccessMask::ADS_RIGHT_DS_CONTROL_ACCESS,
        AccessMask::ADS_RIGHT_DS_CREATE_CHILD,
        AccessMask::ADS_RIGHT_DS_DELETE_CHILD,
        AccessMask::ADS_RIGHT_DS_READ_PROP,
        AccessMask::ADS_RIGHT_DS_WRITE_PROP,
        AccessMask::ADS_RIGHT_DS_SELF,
    ];
    let mut g = generic_rights_vec();
    v.append(&mut g);
    assert(v@ =~= ad_rights());
    v
}

/// The flags of `list` set in `mask`.
pub fn select_flags(mask: u32, list: &Vec<u32>) -> (r: Vec<u32>)
    ensures
        r@ == flags_set(mask, list@),
{
    let mut out: Vec<u32> = Vec::new();
    let mut i: usize = 0;
    while i < list.len()
        invariant
            i <= list@.len(),
            out@ == flags_set(mask, list@.subrange(0, i as int)),
        decreases list@.len() - i,
    {
        proof {
            assert(list@.subrange(0, i + 1).drop_last() =~= list@.subrange(0, i as int));
        }
        let f = list[i];
        if mask & f == f {
            out.push(f);
        }
        i = i + 1;
    }
    proof {
        assert(list@.subrange(0, i as int) =~= list@);
    }
    out
}

impl AccessMask {
    pub const GENERIC_READ: u32 = 0x80000000;
    pub const GENERIC_WRITE: u32 = 0x40000000;
    pub const GENERIC_EXECUTE: u32 = 0x20000000;
    pub const GENERIC_ALL: u32 = 0x10000000;
    pub const MAXIMUM_ALLOWED: u32 = 0x02000000;
    pub const ACCESS_SYSTEM_SECURITY: u32 = 0x01000000;
    pub const SYNCHRONIZE: u32 = 0x00100000;
    pub const WRITE_OWNER: u32 = 0x00080000;
    pub const WRITE_DACL: u32 = 0x00040000;
    pub const READ_CONTROL: u32 = 0x00020000;
    pub const DELETE: u32 = 0x00010000;
    pub const ADS_RIGHT_DS_CONTROL_ACCESS: u32 = 0x00000100;
    pub const ADS_RIGHT_DS_CREATE_CHILD: u32 = 0x00000001;
    pub const ADS_RIGHT_DS_DELETE_CHILD: u32 = 0x00000002;
    pub const ADS_RIGHT_DS_READ_PROP: u32 = 0x00000010;
    pub const ADS_RIGHT_DS_WRITE_PROP: u32 = 0x00000020;
    pub const ADS_RIGHT_DS_SELF: u32 = 0x00000008;
    pub const OBJECT_SPECIFIC_RIGHTS_MASK: u32 = 0x0000FFFF;

    pub fn new(mask: u32) -> (r: AccessMask)
        ensures
            r.0 == mask,
    {
        AccessMask(mask)
    }

    pub fn as_u32(&self) -> (r: u32)
        ensures
            r == self.0,
    {
        self.0
    }

    /// Whether every bit of `flag` is set.
    pub open spec fn spec_has_flag(&self, flag: u32) -> bool {
        self.0 & flag == flag
    }

    pub fn has_flag(&self, flag: u32) -> (r: bool)
        ensures
            r == self.spec_has_flag(flag),
    {
        self.0 & flag == flag
    }

    pub fn set_flag(&mut self, flag: u32)
        ensures
            final(self).0 == old(self).0 | flag,
    {
        self.0 = self.0 | flag;
    }

    pub fn clear_flag(&mut self, flag: u32)
        ensures
            final(self).0 == old(self).0 & !flag,
    {
        self.0 = self.0 & !flag;
    }

    /// The generic and standard rights that are set.
    pub fn get_rights_generic(&self) -> (r: Vec<u32>)
        ensures
            r@ == flags_set(self.0, generic_rights()),
    {
        let list = generic_rights_vec();
        select_flags(self.0, &list)
    }

    /// The directory-service, generic and standard rights that are set.
    pub fn get_rights_ad(&self) -> (r: Vec<u32>)
        ensures
            r@ == flags_set(self.0, ad_rights()),
    {
        let list = ad_rights_vec();
        select_flags(self.0, &list)
    }

    /// An iterator-like walk over the generic and standard rights that are set.
    pub fn into_iter(self) -> (r: AccessMaskIter)
        ensures
            r.mask == self.0,
            r.index == 0,
    {
        AccessMaskIter { mask: self.0, index: 0 }
    }
}

impl From<AccessMask> for u32 {
    fn from(m: AccessMask) -> (r: u32) {
        m.0
    }
}

impl vstd::std_specs::convert::FromSpecImpl<AccessMask> for u32 {
    open spec fn obeys_from_spec() -> bool {
        true
    }

    open spec fn from_spec(m: AccessMask) -> u32 {
        m.0
    }
}

impl From<u32> for AccessMask {
    fn from(m: u32) -> (r: AccessMask) {
        AccessMask(m)
    }
}

impl vstd::std_specs::convert::FromSpecImpl<u32> for AccessMask {
    open spec fn obeys_from_spec() -> bool {
        true
    }

    open spec fn from_spec(m: u32) -> AccessMask {
        AccessMask(m)
    }
}

/// Walks the generic and standard rights set in `mask`, from position `index`.
pub struct AccessMaskIter {
    pub mask: u32,
    pub index: usize,
}

impl AccessMaskIter {
    /// The next right of the list that is set, at or after `index`.
    pub fn next(&mut self) -> (r: Option<u32>)
        ensures
            final(self).mask == old(self).mask,
            forall|j: int|
                old(self).index <= j < final(self).index - (if r is Some {
                    1int
                } else {
                    0int
                }) && j < 11 ==> old(self).mask & #[trigger] generic_rights()[j]
                    != generic_rights()[j],
            match r {
                Some(f) => {
                    let k = final(self).index - 1;
                    old(self).index <= k < 11 && f == generic_rights()[k] && old(self).mask & f == f
                },
                None => final(self).index >= 11,
            },
    {
        let list = generic_rights_vec();
        while self.index < list.len()
            invariant
                list@ == generic_rights(),
                self.mask == old(self).mask,
                old(self).index <= self.index,
                forall|j: int|
                    old(self).index <= j < self.index && j < 11 ==> old(self).mask
                        & #[trigger] generic_rights()[j] != generic_rights()[j],
            decreases list@.len() - self.index,
        {
            let right = list[self.index];
            self.index = self.index + 1;
            if self.mask & right == right {
                return Some(right);
            }
        }
        None
    }
}

} // verus!
