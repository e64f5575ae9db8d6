//! The control flags of a security descriptor header.

use vstd::prelude::*;

verus! {

/// One control flag of a security descriptor.
#[derive(Debug, Clone, Copy, PartialEq, Eq, Structural)]
pub enum ControlFlag {
    SR,
    RM,
    PS,
    PD,
    SI,
    DI,
    SC,
    DC,
    SS,
    DT,
    SD,
    SP,
    DD,
    DP,
    GD,
    OD,
}

/// The bit of each flag.
pub open spec fn flag_bit(f: ControlFlag) -> u16 {
    match f {
        ControlFlag::SR => 0x8000,
        ControlFlag::RM => 0x4000,
        ControlFlag::PS => 0x2000,
        ControlFlag::PD => 0x1000,
        ControlFlag::SI => 0x0800,
        ControlFlag::DI => 0x0400,
        ControlFlag::SC => 0x0200,
        ControlFlag::DC => 0x0100,
        ControlFlag::SS => 0x0080,
        ControlFlag::DT => 0x0040,
        ControlFlag::SD => 0x0020,
        ControlFlag::SP => 0x0010,
        ControlFlag::DD => 0x0008,
        ControlFlag::DP => 0x0004,
        ControlFlag::GD => 0x0002,
        ControlFlag::OD => 0x0001,
    }
}

/// All flags, from the highest bit down.
pub open spec fn all_flags() -> Seq<ControlFlag> {
    seq![
        ControlFlag::SR,
        ControlFlag::RM,
        ControlFlag::PS,
        ControlFlag::PD,
        ControlFlag::SI,
        ControlFlag::DI,
        ControlFlag::SC,
        ControlFlag::DC,
        ControlFlag::SS,
        ControlFlag::DT,
        ControlFlag::SD,
        ControlFlag::SP,
        ControlFlag::DD,
        ControlFlag::DP,
        ControlFlag::GD,
        ControlFlag::OD,
    ]
}

/// The flags of `list` that are set in `v`, in the order of `list`.
pub open spec fn control_flags_set(v: u16, list: Seq<ControlFlag>) -> Seq<ControlFlag>
    decreases list.len(),
{
    if list.len() == 0 {
        Seq::empty()
    } else {
        let prev = control_flags_set(v, list.drop_last());
        if v & flag_bit(list.last()) != 0 {
            prev.push(list.last())
        } else {
            prev
        }
    }
}

impl ControlFlag {
    pub fn bit(&self) -> (r: u16)
        ensures
            r == flag_bit(*self),
    {
        match self {
            ControlFlag::SR => 0x8000,
            ControlFlag::RM => 0x4000,
            ControlFlag::PS => 0x2000,
            ControlFlag::PD => 0x1000,
            ControlFlag::SI => 0x0800,
            ControlFlag::DI => 0x0400,
            ControlFlag::SC => 0x0200,
            ControlFlag::DC => 0x0100,
            ControlFlag::SS => 0x0080,
            ControlFlag::DT => 0x0040,
            ControlFlag::SD => 0x0020,
            ControlFlag::SP => 0x0010,
            ControlFlag::DD => 0x0008,
            ControlFlag::DP => 0x0004,
            ControlFlag::GD => 0x0002,
            ControlFlag::OD => 0x0001,
        }
    }
}

/// The 16-bit control field of a security descriptor.
#[derive(Debug, Clone, Copy, PartialEq, Eq, Structural)]
pub struct ControlFlags(pub u16);

impl ControlFlags {
    pub fn new(value: u16) -> (r: ControlFlags)
        ensures
            r.0 == value,
    {
        ControlFlags(value)
    }

    /// Whether `flag` is set.
    pub open spec fn spec_is_set(&self, flag: ControlFlag) -> bool {
        self.0 & flag_bit(flag) != 0
    }

    pub fn is_set(&self, flag: ControlFlag) -> (r: bool)
        ensures
            r == self.spec_is_set(flag),
    {
        self.0 & flag.bit() != 0
    }

    pub fn as_u16(&self) -> (r: u16)
        ensures
            r == self.0,
    {
        self.0
    }

    /// The flags that are set, from the highest bit down.
    pub fn get_flags(&self) -> (r: Vec<ControlFlag>)
        ensures
            r@ == control_flags_set(self.0, all_flags()),
    {
        let list: Vec<ControlFlag> = vec![
            ControlFlag::SR,
            ControlFlag::RM,
            ControlFlag::PS,
            ControlFlag::PD,
            ControlFlag::SI,
            ControlFlag::DI,
            ControlFlag::SC,
            ControlFlag::DC,
            ControlFlag::SS,
            ControlFlag::DT,
            ControlFlag::SD,
            ControlFlag::SP,
            ControlFlag::DD,
            ControlFlag::DP,
            ControlFlag::GD,
            ControlFlag::OD,
        ];
        assert(list@ =~= all_flags());
        let mut out: Vec<ControlFlag> = Vec::new();
        let mut i: usize = 0;
        while i < list.len()
            invariant
                i <= list@.len(),
                out@ == control_flags_set(self.0, list@.subrange(0, i as int)),
            decreases list@.len() - i,
        {
            proof {
                assert(list@.subrange(0, i + 1).drop_last() =~= list@.subrange(0, i as int));
            }
            let f = list[i];
            if self.is_set(f) {
                out.push(f);
            }
            i = i + 1;
        }
        proof {
            assert(list@.subrange(0, i as int) =~= list@);
        }
        out
    }
}

} // verus!
