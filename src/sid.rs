//! Security identifiers.

use vstd::prelude::*;
use crate::bytes::{fits, read_u32, u32_at};
use crate::text::{dec_str, push_dec, push_str, string_from_chars};

verus! {

/// A security identifier: revision, 48-bit identifier authority and up to
/// fifteen sub-authorities.
#[derive(Debug, Clone, Hash)]
pub struct SID {
    pub revision: u8,
    pub identifier_authority: u64,
    pub sub_authorities: Vec<u32>,
}

impl PartialEq for SID {
    fn eq(&self, o: &SID) -> (r: bool) {
        if self.revision != o.revision || self.identifier_authority != o.identifier_authority
            || self.sub_authorities.len() != o.sub_authorities.len() {
            return false;
        }
        let mut i: usize = 0;
        while i < self.sub_authorities.len()
            invariant
                self.sub_authorities@.len() == o.sub_authorities@.len(),
                i <= self.sub_authorities@.len(),
                forall|j: int| 0 <= j < i ==> self.sub_authorities@[j] == o.sub_authorities@[j],
            decreases self.sub_authorities@.len() - i,
        {
            if self.sub_authorities[i] != o.sub_authorities[i] {
                return false;
            }
            i = i + 1;
        }
        proof {
            assert(self.sub_authorities@ =~= o.sub_authorities@);
        }
        true
    }
}

impl vstd::std_specs::cmp::PartialEqSpecImpl for SID {
    open spec fn obeys_eq_spec() -> bool {
        true
    }

    open spec fn eq_spec(&self, o: &SID) -> bool {
        self.revision == o.revision && self.identifier_authority == o.identifier_authority
            && self.sub_authorities@ == o.sub_authorities@
    }
}

impl Eq for SID {

}

/// The big-endian 48-bit number of the six bytes at `p`.
pub open spec fn be48_at(s: Seq<u8>, p: int) -> int {
    s[p] as int * 0x100_0000_0000 + s[p + 1] as int * 0x1_0000_0000 + s[p + 2] as int
        * 0x100_0000 + s[p + 3] as int * 0x1_0000 + s[p + 4] as int * 0x100 + s[p + 5] as int
}

/// The number of bytes of the SID at `p`, when its header can be read.
pub open spec fn sid_size_at(s: Seq<u8>, p: int) -> int {
    8 + 4 * s[p + 1] as int
}

/// Whether a SID can be decoded at `p`.
pub open spec fn sid_ok_at(s: Seq<u8>, p: int) -> bool {
    fits(s, p, 2) && s[p + 1] <= 15 && fits(s, p, sid_size_at(s, p))
}

/// Whether `x` is the SID held by the bytes at `p`.
pub open spec fn sid_at(s: Seq<u8>, p: int, x: SID) -> bool {
    &&& x.revision == s[p]
    &&& x.identifier_authority == be48_at(s, p + 2)
    &&& x.sub_authorities@.len() == s[p + 1]
    &&& forall|i: int|
        0 <= i < x.sub_authorities@.len() ==> #[trigger] x.sub_authorities@[i] == u32_at(
            s,
            p + 8 + 4 * i,
        )
}

/// `-sub1-sub2-...` for the given sub-authorities.
pub open spec fn subs_string(subs: Seq<u32>) -> Seq<char>
    decreases subs.len(),
{
    if subs.len() == 0 {
        Seq::empty()
    } else {
        subs_string(subs.drop_last()) + seq!['-'] + dec_str(subs.last() as nat)
    }
}

/// The canonical form `S-{revision}-{authority}-{sub1}-...`.
pub open spec fn sid_string(x: SID) -> Seq<char> {
    seq!['S', '-'] + dec_str(x.revision as nat) + seq!['-'] + dec_str(
        x.identifier_authority as nat,
    ) + subs_string(x.sub_authorities@)
}

/// Decodes the SID at `pos`; returns it with the position after it.
pub fn read_sid_at(data: &[u8], pos: usize) -> (r: Option<(SID, usize)>)
    ensures
        match r {
            Some((x, end)) => sid_ok_at(data@, pos as int) && x.wf() && sid_at(
                data@,
                pos as int,
                x,
            ) && end == pos + sid_size_at(data@, pos as int),
            None => !sid_ok_at(data@, pos as int),
        },
{
    if !(pos <= data.len() && data.len() - pos >= 8) {
        if pos <= data.len() && data.len() - pos >= 2 && data[pos + 1] <= 15 {
            assert(!fits(data@, pos as int, sid_size_at(data@, pos as int)));
        }
        return None;
    }
    let revision = data[pos];
    let count = data[pos + 1];
    if count > 15 {
        return None;
    }
    let size: usize = 8 + 4 * (count as usize);
    if data.len() - pos < size {
        return None;
    }
    let identifier_authority: u64 = (data[pos + 2] as u64) * 0x100_0000_0000 + (data[pos
        + 3] as u64) * 0x1_0000_0000 + (data[pos + 4] as u64) * 0x100_0000 + (data[pos
        + 5] as u64) * 0x1_0000 + (data[pos + 6] as u64) * 0x100 + (data[pos + 7] as u64);
    let mut subs: Vec<u32> = Vec::new();
    let mut i: usize = 0;
    while i < count as usize
        invariant
            fits(data@, pos as int, size as int),
            data@.len() <= usize::MAX,
            size == 8 + 4 * (count as int),
            count <= 15,
            i <= count,
            subs@.len() == i,
            forall|j: int| 0 <= j < i ==> #[trigger] subs@[j] == u32_at(data@, pos + 8 + 4 * j),
        decreases count - i,
    {
        let v = read_u32(data, pos + 8 + 4 * i).unwrap();
        subs.push(v);
        i = i + 1;
    }
    let x = SID { revision, identifier_authority, sub_authorities: subs };
    Some((x, pos + size))
}

impl SID {
    /// Validity: a 48-bit authority and at most fifteen sub-authorities.
    pub open spec fn wf(&self) -> bool {
        self.identifier_authority < 0x1_0000_0000_0000 && self.sub_authorities@.len() <= 15
    }

    /// The SID at the start of `input`; `None` when the bytes do not hold one.
    pub fn from_bytes(input: &[u8]) -> (r: Option<SID>)
        ensures
            match r {
                Some(x) => sid_ok_at(input@, 0) && x.wf() && sid_at(input@, 0, x),
                None => !sid_ok_at(input@, 0),
            },
    {
        match read_sid_at(input, 0) {
            Some((x, _)) => Some(x),
            None => None,
        }
    }

    /// The SID at the start of `input`, with the bytes after it.
    pub fn from_next_bytes(input: &[u8]) -> (r: Option<(&[u8], SID)>)
        ensures
            match r {
                Some((rest, x)) => sid_ok_at(input@, 0) && x.wf() && sid_at(input@, 0, x) && rest@
                    == input@.subrange(sid_size_at(input@, 0), input@.len() as int),
                None => !sid_ok_at(input@, 0),
            },
    {
        match read_sid_at(input, 0) {
            Some((x, end)) => {
                let (_, rest) = input.split_at(end);
                Some((rest, x))
            },
            None => None,
        }
    }

    /// A copy of this SID.
    pub fn clone_sid(&self) -> (r: SID)
        ensures
            r.revision == self.revision,
            r.identifier_authority == self.identifier_authority,
            r.sub_authorities@ == self.sub_authorities@,
    {
        let mut subs: Vec<u32> = Vec::new();
        let mut i: usize = 0;
        while i < self.sub_authorities.len()
            invariant
                i <= self.sub_authorities@.len(),
                subs@ == self.sub_authorities@.subrange(0, i as int),
            decreases self.sub_authorities@.len() - i,
        {
            subs.push(self.sub_authorities[i]);
            i = i + 1;
            proof {
                assert(subs@ =~= self.sub_authorities@.subrange(0, i as int));
            }
        }
        proof {
            assert(subs@ =~= self.sub_authorities@);
        }
        SID {
            revision: self.revision,
            identifier_authority: self.identifier_authority,
            sub_authorities: subs,
        }
    }

    pub fn sub_authority_count(&self) -> (r: usize)
        ensures
            r == self.sub_authorities@.len(),
    {
        self.sub_authorities.len()
    }

    pub fn to_string(&self) -> (r: String)
        ensures
            r@ == sid_string(*self),
    {
        let mut out: Vec<char> = Vec::new();
        proof {
            reveal_strlit("S-");
            reveal_strlit("-");
        }
        push_str(&mut out, "S-");
        push_dec(&mut out, self.revision as u64);
        push_str(&mut out, "-");
        push_dec(&mut out, self.identifier_authority);
        let mut i: usize = 0;
        proof {
            assert(subs_string(self.sub_authorities@.subrange(0, 0)) =~= Seq::<char>::empty());
            assert(out@ =~= seq!['S', '-'] + dec_str(self.revision as nat) + seq!['-'] + dec_str(
                self.identifier_authority as nat,
            ) + subs_string(self.sub_authorities@.subrange(0, 0)));
        }
        while i < self.sub_authorities.len()
            invariant
                i <= self.sub_authorities@.len(),
                out@ == seq!['S', '-'] + dec_str(self.revision as nat) + seq!['-'] + dec_str(
                    self.identifier_authority as nat,
                ) + subs_string(self.sub_authorities@.subrange(0, i as int)),
            decreases self.sub_authorities@.len() - i,
        {
            proof {
                reveal_strlit("-");
                let next = self.sub_authorities@.subrange(0, i + 1);
                assert(next.drop_last() =~= self.sub_authorities@.subrange(0, i as int));
            }
            push_str(&mut out, "-");
            push_dec(&mut out, self.sub_authorities[i] as u64);
            i = i + 1;
        }
        proof {
            reveal_strlit("S-");
            reveal_strlit("-");
            assert(self.sub_authorities@.subrange(0, i as int) =~= self.sub_authorities@);
        }
        string_from_chars(&out)
    }
}

} // verus!

verus! {

/// Whether `t` is the canonical text of the SID at the start of `o`.
pub open spec fn sid_text_of(o: Seq<u8>, t: Seq<char>) -> bool {
    sid_ok_at(o, 0) && exists|x: SID| x.wf() && sid_at(o, 0, x) && sid_string(x) == t
}

} // verus!

verus! {

/// Two SIDs decoded from the same bytes have the same text.
pub proof fn lemma_sid_at_unique(s: Seq<u8>, p: int, x: SID, y: SID)
    requires
        sid_at(s, p, x),
        sid_at(s, p, y),
    ensures
        sid_string(x) == sid_string(y),
{
    assert(x.sub_authorities@ =~= y.sub_authorities@);
}

} // verus!
