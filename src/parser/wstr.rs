//! UTF-16 strings: fixed-width, length-prefixed and NUL-terminated.

use vstd::prelude::*;
use crate::bytes::{fits, u16_at, u32_at, read_u16, read_u32};
use crate::text::{decode_utf16, utf16_lossy};

verus! {

/// The `n` little-endian code units at `p`.
pub open spec fn units_at(s: Seq<u8>, p: int, n: int) -> Seq<u16> {
    Seq::new(n as nat, |i: int| u16_at(s, p + 2 * i))
}

/// The code units before the first U+0000 (all of them when there is none).
pub open spec fn until_nul(u: Seq<u16>) -> Seq<u16>
    decreases u.len(),
{
    if u.len() == 0 {
        u
    } else if u[0] == 0 {
        Seq::empty()
    } else {
        seq![u[0]] + until_nul(u.drop_first())
    }
}

/// The code units of the NUL-terminated string at `p`, when a terminator is reached.
pub open spec fn nt_units(s: Seq<u8>, p: int) -> Option<Seq<u16>>
    decreases s.len() - p,
{
    if !fits(s, p, 2) {
        None
    } else if u16_at(s, p) == 0 {
        Some(Seq::empty())
    } else {
        match nt_units(s, p + 2) {
            Some(r) => Some(seq![u16_at(s, p)] + r),
            None => None,
        }
    }
}

/// The text of a fixed field of `n` code units at `p`.
pub open spec fn fixed_wstr(s: Seq<u8>, p: int, n: int) -> Seq<char> {
    utf16_lossy(until_nul(units_at(s, p, n)))
}

/// Whether a length-prefixed string can be read at `p`.
pub open spec fn pstr_ok(s: Seq<u8>, p: int) -> bool {
    fits(s, p, 4) && fits(s, p + 4, u32_at(s, p) as int)
}

/// The position after the length-prefixed string at `p`.
pub open spec fn pstr_end(s: Seq<u8>, p: int) -> int {
    p + 4 + u32_at(s, p)
}

/// The text of the length-prefixed string at `p`.
pub open spec fn pstr(s: Seq<u8>, p: int) -> Seq<char> {
    fixed_wstr(s, p + 4, u32_at(s, p) as int / 2)
}

proof fn lemma_until_nul_prefix(u: Seq<u16>, k: int)
    requires
        0 <= k <= u.len(),
        forall|i: int| 0 <= i < k ==> u[i] != 0,
        k == u.len() || u[k] == 0,
    ensures
        until_nul(u) == u.subrange(0, k),
    decreases u.len(),
{
    if u.len() == 0 {
        assert(u.subrange(0, k) =~= u);
    } else if k == 0 {
        assert(u.subrange(0, k) =~= Seq::<u16>::empty());
    } else {
        let t = u.drop_first();
        assert forall|i: int| 0 <= i < k - 1 implies t[i] != 0 by {
            assert(t[i] == u[i + 1]);
        }
        lemma_until_nul_prefix(t, k - 1);
        assert(seq![u[0]] + t.subrange(0, k - 1) =~= u.subrange(0, k));
    }
}

/// Reads `n` code units at `pos` and decodes those before the first U+0000.
pub fn read_wstring_fixed(data: &[u8], pos: usize, n: usize) -> (r: Option<String>)
    ensures
        match r {
            Some(x) => fits(data@, pos as int, 2 * n) && x@ == fixed_wstr(data@, pos as int, n as int),
            None => !fits(data@, pos as int, 2 * n),
        },
{
    if !(pos <= data.len() && (data.len() - pos) / 2 >= n) {
        return None;
    }
    let ghost all = units_at(data@, pos as int, n as int);
    let mut units: Vec<u16> = Vec::new();
    let mut k: usize = 0;
    while k < n
        invariant
            fits(data@, pos as int, 2 * n),
            data@.len() <= usize::MAX,
            all == units_at(data@, pos as int, n as int),
            k <= n,
            units@ == all.subrange(0, k as int),
            forall|i: int| 0 <= i < k ==> all[i] != 0,
        ensures
            k <= n,
            units@ == all.subrange(0, k as int),
            forall|i: int| 0 <= i < k ==> all[i] != 0,
            k == n || all[k as int] == 0,
        decreases n - k,
    {
        let w = read_u16(data, pos + 2 * k).unwrap();
        if w == 0 {
            proof {
                assert(all[k as int] == 0);
            }
            break;
        }
        units.push(w);
        k = k + 1;
        proof {
            assert(units@ =~= all.subrange(0, k as int));
        }
    }
    proof {
        lemma_until_nul_prefix(all, k as int);
    }
    Some(decode_utf16(units.as_slice()))
}

/// Reads a length in bytes and that many bytes, decoded up to the first U+0000;
/// returns the text and the position after the bytes.
pub fn read_wstring_prefixed(data: &[u8], pos: usize) -> (r: Option<(String, usize)>)
    ensures
        match r {
            Some((x, end)) => pstr_ok(data@, pos as int) && x@ == pstr(data@, pos as int) && end
                == pstr_end(data@, pos as int),
            None => !pstr_ok(data@, pos as int),
        },
{
    let len = match read_u32(data, pos) {
        Some(l) => l,
        None => return None,
    };
    if data.len() - (pos + 4) < len as usize {
        return None;
    }
    let x = read_wstring_fixed(data, pos + 4, (len / 2) as usize).unwrap();
    Some((x, pos + 4 + len as usize))
}

/// Reads code units until U+0000; returns the decoded text and the position
/// after the terminator.
pub fn read_wstring_nt(data: &[u8], pos: usize) -> (r: Option<(String, usize)>)
    ensures
        match r {
            Some((x, end)) => nt_units(data@, pos as int) is Some && x@ == utf16_lossy(
                nt_units(data@, pos as int)->0,
            ) && end == pos + 2 * (nt_units(data@, pos as int)->0).len() + 2,
            None => nt_units(data@, pos as int) is None,
        },
{
    let ghost s = data@;
    let total = data.len();
    assert(data@.len() <= usize::MAX);
    let mut units: Vec<u16> = Vec::new();
    let mut q: usize = pos;
    while q <= data.len() && data.len() - q >= 2 && read_u16(data, q).unwrap() != 0
        invariant
            s == data@,
            data@.len() <= usize::MAX,
            pos <= q,
            q == pos + 2 * units@.len(),
            nt_units(s, pos as int) == (match nt_units(s, q as int) {
                Some(rest) => Some(units@ + rest),
                None => None,
            }),
        decreases data@.len() + 2 - q,
    {
        let w = read_u16(data, q).unwrap();
        proof {
            let old_units = units@;
            match nt_units(s, q + 2) {
                Some(rest) => {
                    assert(old_units + (seq![w] + rest) =~= old_units.push(w) + rest);
                },
                None => {},
            }
        }
        units.push(w);
        q = q + 2;
    }
    if !(q <= data.len() && data.len() - q >= 2) {
        return None;
    }
    proof {
        assert(units@ + Seq::<u16>::empty() =~= units@);
    }
    Some((decode_utf16(units.as_slice()), q + 2))
}

} // verus!
