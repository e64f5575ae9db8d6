//! Group-policy links of the `gPLink` attribute:
//! `[LDAP://cn={GUID},...;0][LDAP://cn={GUID},...;2]`.

use vstd::prelude::*;
use crate::text::{chars_of, find, find_char, substring, to_upper, upper_of};

verus! {

/// One link: the policy's GUID in upper case, and whether it is enforced.
#[derive(Debug, Clone)]
pub struct Link {
    pub is_enforced: bool,
    pub guid: String,
}

/// Whether `c` equals the lower-case ASCII `t`, ignoring ASCII case.
pub open spec fn ci_eq(c: char, t: char) -> bool {
    c == t || ('a' <= t <= 'z' && c as u32 + 32 == t as u32)
}

/// The tag that opens each entry, after its bracket.
pub open spec fn ldap_tag() -> Seq<char> {
    seq!['l', 'd', 'a', 'p', ':', '/', '/', 'c', 'n', '=']
}

/// Whether the tag stands at `p`, ignoring ASCII case.
pub open spec fn tag_at(s: Seq<char>, p: int) -> bool {
    p + 10 <= s.len() && forall|i: int| 0 <= i < 10 ==> #[trigger] ci_eq(s[p + i], ldap_tag()[i])
}

/// The entry at `p`: the raw GUID text, whether it is enforced, and the
/// position after its closing bracket. After the GUID come one or more
/// characters other than `;`, then `;2` (enforced), `;0` or nothing.
pub open spec fn entry_at(s: Seq<char>, p: int) -> Option<(Seq<char>, bool, int)> {
    let n = s.len() as int;
    if !(0 <= p && p + 12 <= n && s[p] == '[' && tag_at(s, p + 1) && s[p + 11] == '{') {
        None
    } else {
        let g0 = p + 12;
        let ge = find(s, '}', g0, n);
        if ge == g0 || ge >= n {
            None
        } else {
            let q = ge + 1;
            let semi = find(s, ';', q, n);
            if semi == q {
                None
            } else {
                let enforced = semi + 2 <= n && s[semi + 1] == '2';
                let k = if semi + 2 <= n && (s[semi + 1] == '2' || s[semi + 1] == '0') {
                    semi + 2
                } else {
                    semi
                };
                if k < n && s[k] == ']' {
                    Some((s.subrange(g0, ge), enforced, k + 1))
                } else {
                    None
                }
            }
        }
    }
}

/// The links from position `p` on, entry after entry, until one does not parse.
pub open spec fn links_from(s: Seq<char>, p: int, fuel: nat) -> Seq<(Seq<char>, bool)>
    decreases fuel,
{
    if fuel == 0 {
        Seq::empty()
    } else {
        match entry_at(s, p) {
            Some((g, e, end)) => seq![(upper_of(g), e)] + links_from(s, end, (fuel - 1) as nat),
            None => Seq::empty(),
        }
    }
}

/// The links of a `gPLink` value.
pub open spec fn links_of(s: Seq<char>) -> Seq<(Seq<char>, bool)> {
    links_from(s, 0, s.len())
}

/// The links as plain values.
pub open spec fn links_view(v: Seq<Link>) -> Seq<(Seq<char>, bool)> {
    v.map_values(|l: Link| (l.guid@, l.is_enforced))
}

fn parse_entry(s: &Vec<char>, p: usize) -> (r: Option<(String, bool, usize)>)
    requires
        p <= s@.len(),
    ensures
        match r {
            Some((g, e, end)) => entry_at(s@, p as int) == Some((g@, e, end as int)) && p < end
                <= s@.len(),
            None => entry_at(s@, p as int) is None,
        },
{
    let n = s.len();
    if !(n - p >= 12 && s[p] == '[' && s[p + 11] == '{') {
        return None;
    }
    let tag: [char; 10] = ['l', 'd', 'a', 'p', ':', '/', '/', 'c', 'n', '='];
    let mut i: usize = 0;
    while i < 10
        invariant
            n == s@.len(),
            p + 12 <= n,
            tag@ == ldap_tag(),
            i <= 10,
            forall|j: int| 0 <= j < i ==> #[trigger] ci_eq(s@[p + 1 + j], ldap_tag()[j]),
        decreases 10 - i,
    {
        let c = s[p + 1 + i];
        let t = tag[i];
        if !(c == t || ('a' <= t && t <= 'z' && (c as u32) == (t as u32) - 32)) {
            proof {
                assert(!ci_eq(s@[p + 1 + i], ldap_tag()[i as int]));
            }
            return None;
        }
        i = i + 1;
    }
    let g0 = p + 12;
    let ge = find_char(s, '}', g0, n);
    if ge == g0 || ge >= n {
        return None;
    }
    let q = ge + 1;
    let semi = find_char(s, ';', q, n);
    if semi == q {
        return None;
    }
    let enforced = n - semi >= 2 && s[semi + 1] == '2';
    let k = if n - semi >= 2 && (s[semi + 1] == '2' || s[semi + 1] == '0') {
        semi + 2
    } else {
        semi
    };
    if k < n && s[k] == ']' {
        Some((substring(s, g0, ge), enforced, k + 1))
    } else {
        None
    }
}

impl Link {
    /// The links of a `gPLink` value, read entry after entry until one does not
    /// parse; GUIDs are upper-cased.
    pub fn from_gplink(gplink: &str) -> (r: Vec<Link>)
        ensures
            links_view(r@) == links_of(gplink@),
    {
        let s = chars_of(gplink);
        let mut out: Vec<Link> = Vec::new();
        let mut p: usize = 0;
        let mut fuel: usize = s.len();
        let ghost all = links_of(s@);
        proof {
            assert(links_view(out@) + links_from(s@, 0, s@.len()) =~= all);
        }
        while fuel > 0
            invariant
                s@ == gplink@,
                all == links_of(s@),
                p <= s@.len(),
                fuel as int >= s@.len() - p,
                links_view(out@) + links_from(s@, p as int, fuel as nat) == all,
            decreases fuel,
        {
            match parse_entry(&s, p) {
                Some((g, e, end)) => {
                    let ghost before = links_view(out@);
                    let guid = to_upper(g.as_str());
                    out.push(Link { is_enforced: e, guid });
                    proof {
                        assert(links_view(out@) =~= before.push((upper_of(g@), e)));
                        assert(links_view(out@) + links_from(s@, end as int, (fuel - 1) as nat)
                            =~= before + links_from(s@, p as int, fuel as nat));
                    }
                    p = end;
                    fuel = fuel - 1;
                },
                None => {
                    proof {
                        assert(links_from(s@, p as int, fuel as nat) =~= Seq::<
                            (Seq<char>, bool),
                        >::empty());
                        assert(links_view(out@) =~= all);
                    }
                    return out;
                },
            }
        }
        proof {
            assert(links_view(out@) =~= all);
        }
        out
    }
}

} // verus!
