//! Access-control lists.

use vstd::prelude::*;
use crate::bytes::{fits, u16_at, read_u16};
use crate::error::ParseError;
use crate::security_descriptor::ace::{
    ace_at, ace_ok_at, ace_record_ok, ace_size_at, handled_type, parse_ace, ACE,
};

verus! {

/// An ACL header and the ACEs of handled kinds that it holds, in order.
#[derive(Debug, Clone, PartialEq, Eq)]
pub struct ACL {
    pub acl_revision: u8,
    pub sbz1: u8,
    pub acl_size: u16,
    pub ace_count: u16,
    pub sbz2: u16,
    pub aces: Vec<ACE>,
}

/// The sum of the declared sizes of the first `k` ACE records from `q0`.
pub open spec fn ace_sizes_sum(s: Seq<u8>, q0: int, k: nat) -> int
    decreases k,
{
    if k == 0 {
        0
    } else {
        let prev = ace_sizes_sum(s, q0, (k - 1) as nat);
        prev + ace_size_at(s, q0 + prev)
    }
}

/// Where the `k`-th ACE record from `q0` starts.
pub open spec fn ace_pos(s: Seq<u8>, q0: int, k: nat) -> int {
    q0 + ace_sizes_sum(s, q0, k)
}

/// Whether each of the first `k` records is whole, and decodes where it is handled.
pub open spec fn records_ok(s: Seq<u8>, q0: int, k: nat) -> bool {
    forall|j: nat|
        j < k ==> ace_record_ok(s, #[trigger] ace_pos(s, q0, j)) && (handled_type(
            s[ace_pos(s, q0, j)],
        ) ==> ace_ok_at(s, ace_pos(s, q0, j)))
}

/// Whether `aces` are the handled ACEs among the first `k` records, in order.
pub open spec fn kept_aces(s: Seq<u8>, q0: int, k: nat, aces: Seq<ACE>) -> bool
    decreases k,
{
    if k == 0 {
        aces.len() == 0
    } else {
        let q = ace_pos(s, q0, (k - 1) as nat);
        if handled_type(s[q]) {
            aces.len() > 0 && ace_at(s, q, aces.last()) && kept_aces(
                s,
                q0,
                (k - 1) as nat,
                aces.drop_last(),
            )
        } else {
            kept_aces(s, q0, (k - 1) as nat, aces)
        }
    }
}

/// Whether the ACL at `p` decodes: a valid header and `ace_count` whole records
/// that fill exactly `acl_size` bytes.
pub open spec fn acl_ok_at(s: Seq<u8>, p: int) -> bool {
    &&& fits(s, p, 8)
    &&& (s[p] == 2 || s[p] == 4)
    &&& s[p + 1] == 0
    &&& u16_at(s, p + 6) == 0
    &&& records_ok(s, p + 8, u16_at(s, p + 4) as nat)
    &&& ace_sizes_sum(s, p + 8, u16_at(s, p + 4) as nat) == u16_at(s, p + 2) - 8
}

/// Whether `a` is the ACL decoded at `p`.
pub open spec fn acl_at(s: Seq<u8>, p: int, a: ACL) -> bool {
    &&& a.acl_revision == s[p]
    &&& a.sbz1 == s[p + 1]
    &&& a.acl_size == u16_at(s, p + 2)
    &&& a.ace_count == u16_at(s, p + 4)
    &&& a.sbz2 == u16_at(s, p + 6)
    &&& kept_aces(s, p + 8, a.ace_count as nat, a.aces@)
}

/// Decodes the ACL at `p`. ACEs of unhandled kinds are skipped; every other
/// defect gives `MalformedInput`.
pub fn parse_acl(data: &[u8], p: usize) -> (r: Result<ACL, ParseError>)
    ensures
        match r {
            Ok(a) => acl_ok_at(data@, p as int) && acl_at(data@, p as int, a)
                && ace_sizes_sum(data@, p + 8, a.ace_count as nat) == a.acl_size - 8,
            Err(e) => e == ParseError::MalformedInput && !acl_ok_at(data@, p as int),
        },
{
    if !(p <= data.len() && data.len() - p >= 8) {
        return Err(ParseError::MalformedInput);
    }
    let acl_revision = data[p];
    let sbz1 = data[p + 1];
    let acl_size = read_u16(data, p + 2).unwrap();
    let ace_count = read_u16(data, p + 4).unwrap();
    let sbz2 = read_u16(data, p + 6).unwrap();
    if !(acl_revision == 2 || acl_revision == 4) || sbz1 != 0 || sbz2 != 0 {
        return Err(ParseError::MalformedInput);
    }
    let ghost s = data@;
    let ghost q0 = p + 8;
    let mut q: usize = p + 8;
    let mut aces: Vec<ACE> = Vec::new();
    let mut k: u16 = 0;
    while k < ace_count
        invariant
            s == data@,
            data@.len() <= usize::MAX,
            q0 == p + 8,
            fits(s, p as int, 8),
            ace_count == u16_at(s, p + 4),
            acl_size == u16_at(s, p + 2),
            sbz2 == u16_at(s, p + 6),
            acl_revision == s[p as int],
            sbz1 == s[p + 1],
            acl_revision == 2 || acl_revision == 4,
            sbz1 == 0,
            sbz2 == 0,
            k <= ace_count,
            q == ace_pos(s, q0, k as nat),
            q0 <= q <= data@.len(),
            records_ok(s, q0, k as nat),
            kept_aces(s, q0, k as nat, aces@),
        decreases ace_count - k,
    {
        proof {
            assert(ace_pos(s, q0, (k + 1) as nat) == q + ace_size_at(s, q as int));
        }
        match parse_ace(data, q) {
            Ok(a) => {
                proof {
                    assert(aces@.push(a).drop_last() =~= aces@);
                }
                aces.push(a);
            },
            Err(ParseError::UnsupportedAceType) => {},
            Err(_) => {
                proof {
                    assert(ace_count == u16_at(s, p + 4));
                    if records_ok(s, q0, ace_count as nat) {
                        let j = k as nat;
                        assert(j < ace_count as nat);
                        assert(ace_record_ok(s, ace_pos(s, q0, j)));
                        assert(handled_type(s[ace_pos(s, q0, j)]) ==> ace_ok_at(
                            s,
                            ace_pos(s, q0, j),
                        ));
                        assert(false);
                    }
                    assert(!acl_ok_at(data@, p as int));
                }
                return Err(ParseError::MalformedInput);
            },
        }
        let size = read_u16(data, q + 2).unwrap();
        q = q + size as usize;
        proof {
            assert forall|j: nat| j < k + 1 implies ace_record_ok(
                s,
                #[trigger] ace_pos(s, q0, j),
            ) && (handled_type(s[ace_pos(s, q0, j)]) ==> ace_ok_at(s, ace_pos(s, q0, j))) by {
                if j < k {
                } else {
                    assert(j == k);
                }
            }
        }
        k = k + 1;
    }
    if acl_size < 8 || q - (p + 8) != (acl_size - 8) as usize {
        return Err(ParseError::MalformedInput);
    }
    Ok(ACL { acl_revision, sbz1, acl_size, ace_count, sbz2, aces })
}

/// The sum of the declared sizes of a list of ACEs.
pub open spec fn aces_size_sum(aces: Seq<ACE>) -> int
    decreases aces.len(),
{
    if aces.len() == 0 {
        0
    } else {
        aces_size_sum(aces.drop_last()) + aces.last().spec_header().ace_size
    }
}

/// When each of the first `k` records is of a handled kind, the decoded ACEs
/// are all of them, and their declared sizes sum to the records' sizes.
pub proof fn lemma_kept_all(s: Seq<u8>, q0: int, k: nat, aces: Seq<ACE>)
    requires
        kept_aces(s, q0, k, aces),
        forall|j: nat| j < k ==> handled_type(#[trigger] s[ace_pos(s, q0, j)]),
    ensures
        aces.len() == k,
        aces_size_sum(aces) == ace_sizes_sum(s, q0, k),
    decreases k,
{
    if k > 0 {
        let j = (k - 1) as nat;
        assert(handled_type(s[ace_pos(s, q0, j)]));
        lemma_kept_all(s, q0, j, aces.drop_last());
    }
}

/// For a decoded ACL whose ACEs are all of handled kinds, there is one ACE
/// per record and the ACEs' sizes sum to the ACL size less its 8-byte header.
pub proof fn lemma_acl_sizes(s: Seq<u8>, p: int, a: ACL)
    requires
        acl_ok_at(s, p),
        acl_at(s, p, a),
        forall|j: nat| j < a.ace_count ==> handled_type(#[trigger] s[ace_pos(s, p + 8, j)]),
    ensures
        a.aces@.len() == a.ace_count,
        aces_size_sum(a.aces@) == a.acl_size - 8,
{
    lemma_kept_all(s, p + 8, a.ace_count as nat, a.aces@);
}

} // verus!
