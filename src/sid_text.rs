//! Reading a SID back from its canonical text, and the lemmas that show the
//! text determines the SID.

use vstd::prelude::*;
use crate::sid::{sid_string, subs_string, SID};
use crate::text::{chars_of, dec_str, owned, str_eq};

verus! {

/// The parts of `s` between occurrences of `c`.
pub open spec fn split_on(s: Seq<char>, c: char) -> Seq<Seq<char>>
    decreases s.len(),
{
    if s.len() == 0 {
        seq![Seq::empty()]
    } else {
        let prev = split_on(s.drop_last(), c);
        if s.last() == c {
            prev.push(Seq::empty())
        } else {
            prev.update(prev.len() - 1, prev.last().push(s.last()))
        }
    }
}

/// Whether `c` is an ASCII decimal digit.
pub open spec fn is_digit(c: char) -> bool {
    '0' <= c <= '9'
}

/// The value of a string of decimal digits.
pub open spec fn dec_value(d: Seq<char>) -> nat
    decreases d.len(),
{
    if d.len() == 0 {
        0
    } else {
        dec_value(d.drop_last()) * 10 + ((d.last() as int - 48) as nat)
    }
}

/// The decimal texts of a list of numbers.
pub open spec fn dec_parts(v: Seq<u32>) -> Seq<Seq<char>>
    decreases v.len(),
{
    if v.len() == 0 {
        Seq::empty()
    } else {
        dec_parts(v.drop_last()).push(dec_str(v.last() as nat))
    }
}

proof fn lemma_split_nonempty(s: Seq<char>, c: char)
    ensures
        split_on(s, c).len() >= 1,
    decreases s.len(),
{
    if s.len() > 0 {
        lemma_split_nonempty(s.drop_last(), c);
    }
}

/// Splitting around one separator splits each side.
proof fn lemma_split_concat(a: Seq<char>, b: Seq<char>, c: char)
    ensures
        split_on(a + seq![c] + b, c) == split_on(a, c) + split_on(b, c),
    decreases b.len(),
{
    let ab = a + seq![c] + b;
    if b.len() == 0 {
        assert(ab =~= (a + seq![c]));
        assert((a + seq![c]).drop_last() =~= a);
        assert(split_on(b, c) =~= seq![Seq::<char>::empty()]);
        assert(split_on(a, c).push(Seq::empty()) =~= split_on(a, c) + seq![Seq::<char>::empty()]);
    } else {
        let b2 = b.drop_last();
        let x = b.last();
        lemma_split_concat(a, b2, c);
        lemma_split_nonempty(b2, c);
        assert(ab.drop_last() =~= a + seq![c] + b2);
        assert(ab.last() == x);
        let sa = split_on(a, c);
        let sb = split_on(b2, c);
        if x == c {
            assert((sa + sb).push(Seq::empty()) =~= sa + sb.push(Seq::empty()));
        } else {
            let s = sa + sb;
            assert(s.update(s.len() - 1, s.last().push(x)) =~= sa + sb.update(
                sb.len() - 1,
                sb.last().push(x),
            ));
        }
    }
}

/// A text without the separator is one part.
proof fn lemma_split_single(d: Seq<char>, c: char)
    requires
        forall|i: int| 0 <= i < d.len() ==> d[i] != c,
    ensures
        split_on(d, c) == seq![d],
    decreases d.len(),
{
    if d.len() == 0 {
        assert(d =~= Seq::<char>::empty());
        assert(split_on(d, c) =~= seq![d]);
    } else {
        lemma_split_single(d.drop_last(), c);
        assert(d.last() != c);
        assert(d.drop_last().push(d.last()) =~= d);
        assert(seq![d.drop_last()].update(0, d.drop_last().push(d.last())) =~= seq![d]);
    }
}

/// Decimal texts are non-empty digit strings whose value is the number.
proof fn lemma_dec_str(n: nat)
    ensures
        dec_str(n).len() >= 1,
        forall|i: int| 0 <= i < dec_str(n).len() ==> is_digit(#[trigger] dec_str(n)[i]),
        dec_value(dec_str(n)) == n,
    decreases n,
{
    if n < 10 {
        assert(dec_str(n).drop_last() =~= Seq::<char>::empty());
        assert(((n + 48) as char) as int == n + 48);
        assert(dec_value(Seq::<char>::empty()) == 0);
        assert(dec_value(dec_str(n)) == dec_value(dec_str(n).drop_last()) * 10 + n);
    } else {
        assert(((n % 10 + 48) as char) as int == n % 10 + 48);
        assert(dec_value(dec_str(n)) == dec_value(dec_str(n).drop_last()) * 10 + n % 10);
        lemma_dec_str(n / 10);
        let p = dec_str(n / 10);
        assert(dec_str(n).drop_last() =~= p);
        assert forall|i: int| 0 <= i < dec_str(n).len() implies is_digit(
            #[trigger] dec_str(n)[i],
        ) by {
            if i < p.len() {
                assert(dec_str(n)[i] == p[i]);
            }
        }
    }
}

/// The parts of a SID's text: `S`, the revision, the authority, then each
/// sub-authority, all in decimal.
proof fn lemma_sid_parts(x: SID)
    ensures
        split_on(sid_string(x), '-') == seq![seq!['S'], dec_str(x.revision as nat), dec_str(
            x.identifier_authority as nat,
        )] + dec_parts(x.sub_authorities@),
{
    let r = dec_str(x.revision as nat);
    let a = dec_str(x.identifier_authority as nat);
    lemma_dec_str(x.revision as nat);
    lemma_dec_str(x.identifier_authority as nat);
    lemma_split_single(seq!['S'], '-');
    lemma_split_single(r, '-');
    lemma_split_single(a, '-');
    lemma_split_concat(seq!['S'], r, '-');
    let q1 = seq!['S'] + seq!['-'] + r;
    lemma_split_concat(q1, a, '-');
    let q2 = q1 + seq!['-'] + a;
    assert(split_on(q2, '-') =~= seq![seq!['S'], r, a]);
    lemma_subs_parts(q2, x.sub_authorities@);
    assert(sid_string(x) =~= q2 + subs_string(x.sub_authorities@));
}

proof fn lemma_subs_parts(q: Seq<char>, subs: Seq<u32>)
    ensures
        split_on(q + subs_string(subs), '-') == split_on(q, '-') + dec_parts(subs),
    decreases subs.len(),
{
    if subs.len() == 0 {
        assert(q + subs_string(subs) =~= q);
        assert(split_on(q, '-') + dec_parts(subs) =~= split_on(q, '-'));
    } else {
        let pre = subs.drop_last();
        let d = dec_str(subs.last() as nat);
        lemma_subs_parts(q, pre);
        lemma_dec_str(subs.last() as nat);
        lemma_split_single(d, '-');
        lemma_split_concat(q + subs_string(pre), d, '-');
        assert(q + subs_string(subs) =~= (q + subs_string(pre)) + seq!['-'] + d);
        assert(split_on(q, '-') + dec_parts(pre) + seq![d] =~= split_on(q, '-') + dec_parts(
            subs,
        ));
    }
}

proof fn lemma_dec_parts_len(v: Seq<u32>)
    ensures
        dec_parts(v).len() == v.len(),
        forall|i: int| 0 <= i < v.len() ==> #[trigger] dec_parts(v)[i] == dec_str(v[i] as nat),
    decreases v.len(),
{
    if v.len() > 0 {
        lemma_dec_parts_len(v.drop_last());
        assert forall|i: int| 0 <= i < v.len() implies #[trigger] dec_parts(v)[i] == dec_str(
            v[i] as nat,
        ) by {
            if i < v.len() - 1 {
                assert(dec_parts(v)[i] == dec_parts(v.drop_last())[i]);
            }
        }
    }
}

/// The text of a valid SID determines it: two valid SIDs with the same text
/// have the same revision, authority and sub-authorities.
pub proof fn lemma_sid_string_injective(x: SID, y: SID)
    requires
        x.wf(),
        y.wf(),
        sid_string(x) == sid_string(y),
    ensures
        x.revision == y.revision,
        x.identifier_authority == y.identifier_authority,
        x.sub_authorities@ == y.sub_authorities@,
{
    lemma_sid_parts(x);
    lemma_sid_parts(y);
    let px = split_on(sid_string(x), '-');
    lemma_dec_parts_len(x.sub_authorities@);
    lemma_dec_parts_len(y.sub_authorities@);
    lemma_dec_str(x.revision as nat);
    lemma_dec_str(y.revision as nat);
    lemma_dec_str(x.identifier_authority as nat);
    lemma_dec_str(y.identifier_authority as nat);
    assert(px[1] == dec_str(x.revision as nat));
    assert(px[1] == dec_str(y.revision as nat));
    assert(px[2] == dec_str(x.identifier_authority as nat));
    assert(px[2] == dec_str(y.identifier_authority as nat));
    assert(px.len() == 3 + x.sub_authorities@.len());
    assert(px.len() == 3 + y.sub_authorities@.len());
    assert forall|i: int| 0 <= i < x.sub_authorities@.len() implies x.sub_authorities@[i]
        == y.sub_authorities@[i] by {
        assert(px[3 + i] == dec_str(x.sub_authorities@[i] as nat));
        assert(px[3 + i] == dec_str(y.sub_authorities@[i] as nat));
        lemma_dec_str(x.sub_authorities@[i] as nat);
        lemma_dec_str(y.sub_authorities@[i] as nat);
    }
    assert(x.sub_authorities@ =~= y.sub_authorities@);
}

/// Splits a character sequence at each `c`.
fn split_chars(s: &Vec<char>, c: char) -> (r: Vec<Vec<char>>)
    ensures
        r@.map_values(|p: Vec<char>| p@) == split_on(s@, c),
{
    let mut parts: Vec<Vec<char>> = Vec::new();
    parts.push(Vec::new());
    let mut i: usize = 0;
    proof {
        assert(s@.subrange(0, 0) =~= Seq::<char>::empty());
        assert(parts@.map_values(|p: Vec<char>| p@) =~= split_on(s@.subrange(0, 0), c));
    }
    while i < s.len()
        invariant
            i <= s@.len(),
            parts@.len() >= 1,
            parts@.map_values(|p: Vec<char>| p@) == split_on(s@.subrange(0, i as int), c),
        decreases s@.len() - i,
    {
        let x = s[i];
        let ghost before = parts@.map_values(|p: Vec<char>| p@);
        proof {
            assert(s@.subrange(0, i + 1).drop_last() =~= s@.subrange(0, i as int));
        }
        if x == c {
            parts.push(Vec::new());
            proof {
                assert(parts@.map_values(|p: Vec<char>| p@) =~= before.push(Seq::empty()));
            }
        } else {
            let last = parts.len() - 1;
            let mut cur = parts.remove(last);
            cur.push(x);
            parts.push(cur);
            proof {
                assert(parts@.map_values(|p: Vec<char>| p@) =~= before.update(
                    before.len() - 1,
                    before.last().push(x),
                ));
            }
        }
        i = i + 1;
    }
    proof {
        assert(s@.subrange(0, i as int) =~= s@);
    }
    parts
}

/// The value of a non-empty digit string, when it is at most `bound`.
fn parse_decimal(d: &Vec<char>, bound: u64) -> (r: Option<u64>)
    ensures
        match r {
            Some(v) => v as nat == dec_value(d@) && v <= bound,
            None => !(d@.len() >= 1 && (forall|i: int| 0 <= i < d@.len() ==> is_digit(#[trigger] d@[i]))
                && dec_value(d@) <= bound),
        },
{
    if d.len() == 0 {
        return None;
    }
    let mut acc: u64 = 0;
    let mut i: usize = 0;
    while i < d.len()
        invariant
            i <= d@.len(),
            acc as nat == dec_value(d@.subrange(0, i as int)),
            acc <= bound,
            forall|j: int| 0 <= j < i ==> is_digit(#[trigger] d@[j]),
        decreases d@.len() - i,
    {
        let c = d[i];
        proof {
            assert(d@.subrange(0, i + 1).drop_last() =~= d@.subrange(0, i as int));
        }
        if !('0' <= c && c <= '9') {
            return None;
        }
        let digit = (c as u32 - 48) as u64;
        proof {
            assert(dec_value(d@.subrange(0, i + 1)) == acc * 10 + digit);
        }
        if digit > bound || acc > (bound - digit) / 10 {
            proof {
                if digit <= bound {
                    assert(acc * 10 + digit > bound) by (nonlinear_arith)
                        requires
                            acc > (bound - digit) / 10,
                            digit <= bound,
                    {
                    }
                }
                if forall|j: int| 0 <= j < d@.len() ==> is_digit(#[trigger] d@[j]) {
                    lemma_prefix_value_le(d@, i + 1);
                }
            }
            return None;
        }
        acc = acc * 10 + digit;
        i = i + 1;
    }
    proof {
        assert(d@.subrange(0, i as int) =~= d@);
    }
    Some(acc)
}

/// The value of a prefix of a digit string is at most the value of the whole.
proof fn lemma_prefix_value_le(d: Seq<char>, k: int)
    requires
        0 <= k <= d.len(),
        forall|i: int| 0 <= i < d.len() ==> is_digit(#[trigger] d[i]),
    ensures
        dec_value(d.subrange(0, k)) <= dec_value(d),
    decreases d.len() - k,
{
    if k < d.len() {
        lemma_prefix_value_le(d, k + 1);
        assert(d.subrange(0, k + 1).drop_last() =~= d.subrange(0, k));
    } else {
        assert(d.subrange(0, k) =~= d);
    }
}

impl SID {
    /// Reads a SID from its canonical text `S-{revision}-{authority}-{sub}...`;
    /// `None` exactly when the text is not the canonical text of a valid SID.
    pub fn from_text(s: &str) -> (r: Option<SID>)
        ensures
            match r {
                Some(x) => x.wf() && sid_string(x) == s@,
                None => forall|y: SID| y.wf() ==> sid_string(y) != s@,
            },
    {
        let chars = chars_of(s);
        let parts = split_chars(&chars, '-');
        let ghost pv = parts@.map_values(|p: Vec<char>| p@);
        let ghost canon = exists|y: SID| y.wf() && sid_string(y) == s@;
        let ghost y = choose|y: SID| y.wf() && sid_string(y) == s@;
        proof {
            if canon {
                lemma_sid_parts(y);
                lemma_dec_parts_len(y.sub_authorities@);
                lemma_dec_str(y.revision as nat);
                lemma_dec_str(y.identifier_authority as nat);
                assert(pv.len() == 3 + y.sub_authorities@.len());
                assert(pv[0] == seq!['S']);
                assert(pv[1] == dec_str(y.revision as nat));
                assert(pv[2] == dec_str(y.identifier_authority as nat));
            }
        }
        if parts.len() < 3 || parts.len() > 18 || parts[0].len() != 1 || parts[0][0] != 'S' {
            return None;
        }
        proof {
            if canon {
                assert(parts@[1]@ == pv[1]);
                assert(parts@[2]@ == pv[2]);
            }
        }
        let revision = match parse_decimal(&parts[1], 255) {
            Some(v) => v as u8,
            None => return None,
        };
        let identifier_authority = match parse_decimal(&parts[2], 0xFFFF_FFFF_FFFF) {
            Some(v) => v,
            None => return None,
        };
        let mut subs: Vec<u32> = Vec::new();
        let mut i: usize = 3;
        while i < parts.len()
            invariant
                pv == parts@.map_values(|p: Vec<char>| p@),
                canon == (exists|y: SID| y.wf() && sid_string(y) == s@),
                canon ==> y.wf() && sid_string(y) == s@,
                canon ==> revision == y.revision && identifier_authority == y.identifier_authority,
                3 <= i <= parts@.len(),
                parts@.len() <= 18,
                subs@.len() == i - 3,
                canon ==> pv.len() == 3 + y.sub_authorities@.len() && forall|j: int|
                    3 <= j < pv.len() ==> pv[j] == dec_str(y.sub_authorities@[j - 3] as nat),
                canon ==> forall|j: int|
                    0 <= j < subs@.len() ==> subs@[j] == y.sub_authorities@[j],
            decreases parts@.len() - i,
        {
            proof {
                if canon {
                    let v = y.sub_authorities@[i - 3];
                    lemma_dec_str(v as nat);
                    assert(parts@[i as int]@ == pv[i as int]);
                    assert(pv[i as int] == dec_str(v as nat));
                    assert(forall|k: int|
                        0 <= k < parts@[i as int]@.len() ==> is_digit(
                            #[trigger] parts@[i as int]@[k],
                        ));
                    assert(dec_value(parts@[i as int]@) <= 0xFFFF_FFFF);
                }
            }
            match parse_decimal(&parts[i], 0xFFFF_FFFF) {
                Some(v) => subs.push(v as u32),
                None => return None,
            }
            i = i + 1;
        }
        let x = SID { revision, identifier_authority, sub_authorities: subs };
        proof {
            if canon {
                lemma_dec_str(y.revision as nat);
                lemma_dec_str(y.identifier_authority as nat);
                assert(parts@[1]@ == pv[1]);
                assert(parts@[2]@ == pv[2]);
                assert(x.sub_authorities@ =~= y.sub_authorities@);
                assert(sid_string(x) == sid_string(y));
            }
        }
        let text = x.to_string();
        if str_eq(text.as_str(), s) {
            Some(x)
        } else {
            None
        }
    }
}

impl core::str::FromStr for SID {
    type Err = String;

    fn from_str(s: &str) -> Result<SID, String> {
        match SID::from_text(s) {
            Some(x) => Ok(x),
            None => Err(owned("Invalid SID format")),
        }
    }
}

} // verus!
