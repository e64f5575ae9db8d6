//! Indexes derived from a decoded snapshot: by SID, distinguished name, host
//! name, class name and position, plus the domain and certificate-template
//! tables and the list of domain controllers.

use vstd::prelude::*;
use vstd::hash_map::StringHashMap;
use crate::guid::GUID;
use crate::parser::attribute::AttributeValue;
use crate::parser::object::{strs_view, Object};
use crate::parser::snapshot::Snapshot;
use crate::sid::{lemma_sid_at_unique, sid_string, sid_text_of, SID};
use crate::sid_text::lemma_sid_string_injective;
use crate::text::{chars_of, find, find_char, lower_of, str_eq, substring, to_lower, to_upper, upper_of};

verus! {

/// A keyed lookup table.
pub trait Cache<K, V> {
    fn get(&self, key: &K) -> Option<&V>;

    fn insert(&mut self, key: K, value: V);
}

/// Objects by SID, keyed by the SID's canonical text.
pub struct SIDCache {
    pub cache: StringHashMap<usize>,
}

impl SIDCache {
    pub fn lookup(&self, key: &SID) -> (r: Option<&usize>)
        ensures
            match r {
                Some(v) => self.cache@.contains_key(sid_string(*key)) && *v == self.cache@[sid_string(
                    *key,
                )],
                None => !self.cache@.contains_key(sid_string(*key)),
            },
    {
        let k = key.to_string();
        self.cache.get(k.as_str())
    }

    pub fn store(&mut self, key: SID, value: usize)
        ensures
            final(self).cache@ == old(self).cache@.insert(sid_string(key), value),
    {
        let k = key.to_string();
        self.cache.insert(k, value);
    }
}

impl Cache<SID, usize> for SIDCache {
    fn get(&self, key: &SID) -> Option<&usize> {
        self.lookup(key)
    }

    fn insert(&mut self, key: SID, value: usize) {
        self.store(key, value);
    }
}

/// Objects by distinguished name, compared without regard to case.
/// `entries` lists every insertion, so that the table can be scanned.
pub struct DNCache {
    pub cache: StringHashMap<usize>,
    pub entries: Vec<(String, usize)>,
}

/// Whether the scan list of a DN table covers its map.
pub open spec fn entries_cover(m: Map<Seq<char>, usize>, e: Seq<(String, usize)>) -> bool {
    &&& forall|k: Seq<char>|
        #[trigger] m.contains_key(k) ==> exists|i: int|
            0 <= i < e.len() && (#[trigger] e[i]).0@ == k && e[i].1 == m[k]
    &&& forall|i: int| 0 <= i < e.len() ==> m.contains_key((#[trigger] e[i]).0@)
}

/// Whether `s` ends with `suffix`.
pub open spec fn ends_with(s: Seq<char>, suffix: Seq<char>) -> bool {
    suffix.len() <= s.len() && s.subrange(s.len() - suffix.len(), s.len() as int) == suffix
}

/// The number of commas in `s`.
pub open spec fn comma_count(s: Seq<char>) -> nat
    decreases s.len(),
{
    if s.len() == 0 {
        0
    } else {
        comma_count(s.drop_last()) + if s.last() == ',' {
            1nat
        } else {
            0nat
        }
    }
}

/// Whether the normalized DN `dn` lies exactly one RDN below the normalized
/// `parent`: a non-empty RDN without commas, a comma, then `parent`.
pub open spec fn is_child_dn(dn: Seq<char>, parent: Seq<char>) -> bool {
    dn.len() >= parent.len() + 2 && ends_with(dn, seq![','] + parent) && comma_count(
        dn.subrange(0, dn.len() - parent.len()),
    ) <= 1
}

impl DNCache {
    pub open spec fn wf(&self) -> bool {
        entries_cover(self.cache@, self.entries@)
    }

    /// The index stored for a DN, compared without regard to case.
    pub open spec fn spec_get(&self, key: Seq<char>) -> Option<usize> {
        if self.cache@.contains_key(upper_of(key)) {
            Some(self.cache@[upper_of(key)])
        } else {
            None
        }
    }

    pub fn new() -> (r: DNCache)
        ensures
            r.wf(),
            r.cache@ == Map::<Seq<char>, usize>::empty(),
    {
        DNCache { cache: StringHashMap::new(), entries: Vec::new() }
    }

    pub fn get(&self, key: &String) -> (r: Option<&usize>)
        ensures
            match r {
                Some(v) => self.spec_get(key@) == Some(*v),
                None => self.spec_get(key@) is None,
            },
    {
        let k = to_upper(key.as_str());
        self.cache.get(k.as_str())
    }

    pub fn insert(&mut self, key: String, value: usize)
        requires
            old(self).wf(),
        ensures
            final(self).wf(),
            final(self).cache@ == old(self).cache@.insert(upper_of(key@), value),
    {
        let k = to_upper(key.as_str());
        let k2 = k.clone();
        let ghost e0 = self.entries@;
        let ghost m0 = self.cache@;
        self.cache.insert(k, value);
        self.entries.push((k2, value));
        proof {
            let m = self.cache@;
            let e = self.entries@;
            assert(e[e.len() - 1].0@ == upper_of(key@));
            assert forall|kk: Seq<char>| #[trigger] m.contains_key(kk) implies exists|i: int|
                0 <= i < e.len() && (#[trigger] e[i]).0@ == kk && e[i].1 == m[kk] by {
                if kk == upper_of(key@) {
                    assert(e[e.len() - 1].0@ == kk);
                } else {
                    let i0 = choose|i: int| 0 <= i < e0.len() && (#[trigger] e0[i]).0@ == kk && e0[i].1 == m0[kk];
                    assert(e[i0] == e0[i0]);
                }
            }
            assert forall|i: int| 0 <= i < e.len() implies m.contains_key((#[trigger] e[i]).0@) by {
                if i < e0.len() {
                    assert(e[i] == e0[i]);
                }
            }
        }
    }

    /// The indexes whose DN lies exactly one RDN below `ou_dn` (compared
    /// without regard to case), each once.
    pub fn get_ou_children(&self, ou_dn: &str) -> (r: Vec<usize>)
        requires
            self.wf(),
        ensures
            forall|v: usize|
                r@.contains(v) <==> exists|k: Seq<char>|
                    #[trigger] self.cache@.contains_key(k) && self.cache@[k] == v && is_child_dn(
                        k,
                        upper_of(ou_dn@),
                    ),
            r@.no_duplicates(),
    {
        let parent = to_upper(ou_dn);
        let pc = chars_of(parent.as_str());
        let mut out: Vec<usize> = Vec::new();
        let mut i: usize = 0;
        while i < self.entries.len()
            invariant
                self.wf(),
                pc@ == upper_of(ou_dn@),
                i <= self.entries@.len(),
                out@.no_duplicates(),
                forall|v: usize|
                    out@.contains(v) ==> exists|k: Seq<char>|
                        #[trigger] self.cache@.contains_key(k) && self.cache@[k] == v
                            && is_child_dn(k, pc@),
                forall|j: int|
                    0 <= j < i && self.cache@[(#[trigger] self.entries@[j]).0@]
                        == self.entries@[j].1 && is_child_dn(self.entries@[j].0@, pc@)
                        ==> out@.contains(self.entries@[j].1),
            decreases self.entries@.len() - i,
        {
            let key = &self.entries[i].0;
            let v = self.entries[i].1;
            let current = self.cache.get(key.as_str());
            let live = match current {
                Some(c) => *c == v,
                None => false,
            };
            let ghost o0 = out@;
            let ghost ek = self.entries@[i as int].0@;
            proof {
                assert(self.cache@.contains_key(ek));
            }
            if live && child_of(key.as_str(), &pc) && !contains_index(&out, v) {
                out.push(v);
                proof {
                    assert forall|w: usize| out@.contains(w) implies exists|k: Seq<char>|
                        #[trigger] self.cache@.contains_key(k) && self.cache@[k] == w
                            && is_child_dn(k, pc@) by {
                        let t = choose|t: int| 0 <= t < out@.len() && out@[t] == w;
                        if t < o0.len() {
                            assert(o0[t] == w);
                            assert(o0.contains(w));
                        } else {
                            assert(self.cache@.contains_key(ek));
                        }
                    }
                    assert forall|a: int, b: int|
                        0 <= a < out@.len() && 0 <= b < out@.len() && a != b implies out@[a]
                        != out@[b] by {
                        if a < o0.len() && b < o0.len() {
                        } else if a < o0.len() {
                            assert(o0.contains(out@[a]));
                        } else if b < o0.len() {
                            assert(o0.contains(out@[b]));
                        }
                    }
                }
            }
            proof {
                assert forall|w: usize| o0.contains(w) implies out@.contains(w) by {
                    let t = choose|t: int| 0 <= t < o0.len() && o0[t] == w;
                    assert(out@[t] == w);
                }
                if out@.len() > o0.len() {
                    assert(out@[o0.len() as int] == v);
                }
            }
            i = i + 1;
        }
        proof {
            assert forall|v: usize| exists|k: Seq<char>|
                #[trigger] self.cache@.contains_key(k) && self.cache@[k] == v && is_child_dn(
                    k,
                    pc@,
                ) implies out@.contains(v) by {
                let k = choose|k: Seq<char>|
                    #[trigger] self.cache@.contains_key(k) && self.cache@[k] == v && is_child_dn(
                        k,
                        pc@,
                    );
                let j = choose|j: int|
                    0 <= j < self.entries@.len() && (#[trigger] self.entries@[j]).0@ == k
                        && self.entries@[j].1 == self.cache@[k];
                assert(self.entries@[j].0@ == k);
            }
        }
        out
    }
}

fn contains_index(v: &Vec<usize>, x: usize) -> (r: bool)
    ensures
        r == v@.contains(x),
{
    let mut i: usize = 0;
    while i < v.len()
        invariant
            i <= v@.len(),
            forall|j: int| 0 <= j < i ==> v@[j] != x,
        decreases v@.len() - i,
    {
        if v[i] == x {
            return true;
        }
        i = i + 1;
    }
    false
}

/// Whether `dn` lies exactly one RDN below `parent`.
fn child_of(dn: &str, parent: &Vec<char>) -> (r: bool)
    ensures
        r == is_child_dn(dn@, parent@),
{
    let d = chars_of(dn);
    let n = d.len();
    let m = parent.len();
    if m >= n {
        proof {
            if d@.len() >= m + 1 {
            }
        }
        return false;
    }
    if n - m < 2 {
        return false;
    }
    // the character before the suffix must be a comma, and the suffix must match
    if d[n - m - 1] != ',' {
        proof {
            let suf = seq![','] + parent@;
            if ends_with(d@, suf) {
                assert(d@.subrange(n - m - 1, n as int)[0] == suf[0]);
            }
        }
        return false;
    }
    let mut i: usize = 0;
    while i < m
        invariant
            d@ == dn@,
            d@[n - m - 1] == ',',
            m == parent@.len(),
            n == d@.len(),
            m < n,
            i <= m,
            forall|j: int| 0 <= j < i ==> d@[n - m + j] == parent@[j],
        decreases m - i,
    {
        if d[n - m + i] != parent[i] {
            proof {
                let suf = seq![','] + parent@;
                assert(suf.len() == m + 1);
                assert(suf[i + 1] == parent@[i as int]);
                assert(d@.subrange(n - m - 1, n as int)[i + 1] == d@[n - m + i]);
                if ends_with(d@, suf) {
                    assert(d@.subrange(d@.len() - suf.len(), d@.len() as int) == suf);
                    assert(d@.subrange(n - m - 1, n as int)[i + 1] == suf[i + 1]);
                }
            }
            return false;
        }
        i = i + 1;
    }
    proof {
        assert(d@.subrange(n - m - 1, n as int) =~= seq![','] + parent@);
    }
    // count the commas of the part above the suffix
    let mut commas: usize = 0;
    let mut k: usize = 0;
    while k < n - m
        invariant
            d@ == dn@,
            ends_with(d@, seq![','] + parent@),
            n == d@.len(),
            m == parent@.len(),
            m < n,
            k <= n - m,
            commas == comma_count(d@.subrange(0, k as int)),
            commas <= k,
        decreases n - m - k,
    {
        proof {
            assert(d@.subrange(0, k + 1).drop_last() =~= d@.subrange(0, k as int));
        }
        if d[k] == ',' {
            commas = commas + 1;
        }
        k = k + 1;
    }
    commas <= 1
}

/// Computers by host name and by name, compared without regard to case.
pub struct ComputerCache {
    pub cache: StringHashMap<usize>,
}

impl ComputerCache {
    pub fn get(&self, key: &String) -> (r: Option<&usize>)
        ensures
            match r {
                Some(v) => self.cache@.contains_key(upper_of(key@)) && *v == self.cache@[upper_of(
                    key@,
                )],
                None => !self.cache@.contains_key(upper_of(key@)),
            },
    {
        let k = to_upper(key.as_str());
        self.cache.get(k.as_str())
    }

    pub fn insert(&mut self, key: String, value: usize)
        ensures
            final(self).cache@ == old(self).cache@.insert(upper_of(key@), value),
    {
        let k = to_upper(key.as_str());
        self.cache.insert(k, value);
    }

    pub fn contains_key(&self, key: &String) -> (r: bool)
        ensures
            r == self.cache@.contains_key(upper_of(key@)),
    {
        let k = to_upper(key.as_str());
        self.cache.contains_key(k.as_str())
    }
}

/// Schema GUIDs by position: classes first, then properties over the same positions.
pub struct ObjectTypeGUIDCache {
    pub cache: Vec<GUID>,
}

impl ObjectTypeGUIDCache {
    pub fn lookup(&self, key: &usize) -> (r: Option<&GUID>)
        ensures
            match r {
                Some(g) => *key < self.cache@.len() && *g == self.cache@[*key as int],
                None => *key >= self.cache@.len(),
            },
    {
        if *key < self.cache.len() {
            Some(&self.cache[*key])
        } else {
            None
        }
    }
}

/// Classes by name, by DN and by the value of the DN's first RDN, compared
/// without regard to case.
pub struct ClassCache {
    pub cache: StringHashMap<usize>,
}

impl ClassCache {
    /// The class stored under `key`, compared without regard to case.
    pub fn lookup(&self, key: &String) -> (r: Option<&usize>)
        ensures
            match r {
                Some(v) => self.cache@.contains_key(upper_of(key@)) && *v == self.cache@[upper_of(
                    key@,
                )],
                None => !self.cache@.contains_key(upper_of(key@)),
            },
    {
        let k = to_upper(key.as_str());
        self.cache.get(k.as_str())
    }

    /// Stores a class under the upper-cased `key`.
    pub fn store(&mut self, key: String, value: usize)
        ensures
            final(self).cache@ == old(self).cache@.insert(upper_of(key@), value),
    {
        let k = to_upper(key.as_str());
        self.cache.insert(k, value);
    }
}

impl Cache<String, usize> for ClassCache {
    fn get(&self, key: &String) -> Option<&usize> {
        self.lookup(key)
    }

    fn insert(&mut self, key: String, value: usize) {
        self.store(key, value);
    }
}

/// Domains by DN, compared without regard to case: the primary domain, and
/// the forest's other domains.
pub struct DomainCache {
    pub domains: StringHashMap<usize>,
}

impl DomainCache {
    pub fn new() -> (r: DomainCache)
        ensures
            r.domains@ == Map::<Seq<char>, usize>::empty(),
    {
        DomainCache { domains: StringHashMap::new() }
    }

    /// Records a domain under its upper-cased DN.
    pub fn insert_domain(&mut self, dn: String, idx: usize)
        ensures
            final(self).domains@ == old(self).domains@.insert(upper_of(dn@), idx),
    {
        let k = to_upper(dn.as_str());
        self.domains.insert(k, idx);
    }

    /// Records a forest domain unless the DN is already known (ignoring case).
    pub fn insert_forest_domain(&mut self, ncname: String, idx: usize)
        ensures
            final(self).domains@ == if old(self).domains@.contains_key(upper_of(ncname@)) {
                old(self).domains@
            } else {
                old(self).domains@.insert(upper_of(ncname@), idx)
            },
    {
        let k = to_upper(ncname.as_str());
        if !self.domains.contains_key(k.as_str()) {
            self.domains.insert(k, idx);
        }
    }

    /// The domain recorded under `dn`, compared without regard to case.
    pub fn get(&self, dn: &str) -> (r: Option<&usize>)
        ensures
            match r {
                Some(v) => self.domains@.contains_key(upper_of(dn@)) && *v == self.domains@[upper_of(
                    dn@,
                )],
                None => !self.domains@.contains_key(upper_of(dn@)),
            },
    {
        let k = to_upper(dn);
        self.domains.get(k.as_str())
    }
}

/// For each certificate template, the enrollment services that offer it.
pub struct CertificateTemplateCache {
    pub templates: StringHashMap<Vec<String>>,
}

impl CertificateTemplateCache {
    pub fn new() -> (r: CertificateTemplateCache)
        ensures
            r.templates@ == Map::<Seq<char>, Vec<String>>::empty(),
    {
        CertificateTemplateCache { templates: StringHashMap::new() }
    }

    /// Adds `name` to the services of `template` (upper-cased), once.
    pub fn insert(&mut self, template: String, name: String)
        ensures
            final(self).templates@.dom() == old(self).templates@.dom().insert(upper_of(template@)),
            forall|t: Seq<char>|
                t != upper_of(template@) && #[trigger] old(self).templates@.contains_key(t)
                    ==> final(self).templates@[t] == old(self).templates@[t],
            strs_view(final(self).templates@[upper_of(template@)]@).to_set() == (if old(self).templates@.contains_key(upper_of(template@)) {
                strs_view(old(self).templates@[upper_of(template@)]@).to_set()
            } else {
                Set::empty()
            }).insert(name@),
    {
        let template = to_upper(template.as_str());
        let mut names: Vec<String> = match self.templates.get(template.as_str()) {
            Some(v) => v.clone(),
            None => Vec::new(),
        };
        let ghost before = strs_view(names@);
        proof {
            if !old(self).templates@.contains_key(template@) {
                assert(before =~= Seq::<Seq<char>>::empty());
            }
        }
        let mut present = false;
        let mut i: usize = 0;
        while i < names.len()
            invariant
                before == strs_view(names@),
                i <= names@.len(),
                present ==> before.contains(name@),
            decreases names@.len() - i,
        {
            if str_eq(names[i].as_str(), name.as_str()) {
                present = true;
                proof {
                    assert(before[i as int] == name@);
                }
            }
            i = i + 1;
        }
        if !present {
            names.push(name);
        }
        proof {
            let after = strs_view(names@);
            if present {
                assert(before.to_set().insert(name@) =~= before.to_set());
            } else {
                assert(after =~= before.push(name@));
                assert forall|x: Seq<char>| after.contains(x) <==> (before.contains(x) || x
                    == name@) by {
                    if after.contains(x) {
                        let t = choose|t: int| 0 <= t < after.len() && after[t] == x;
                        if t < before.len() {
                            assert(before[t] == x);
                        }
                    }
                    if before.contains(x) {
                        let t = choose|t: int| 0 <= t < before.len() && before[t] == x;
                        assert(after[t] == x);
                    }
                    if x == name@ {
                        assert(after[before.len() as int] == x);
                    }
                }
                assert(after.to_set() =~= before.to_set().insert(name@));
            }
        }
        self.templates.insert(template, names);
    }

    /// The services of `template`, compared without regard to case.
    pub fn get(&self, template: &str) -> (r: Option<&Vec<String>>)
        ensures
            match r {
                Some(v) => self.templates@.contains_key(upper_of(template@)) && *v
                    == self.templates@[upper_of(template@)],
                None => !self.templates@.contains_key(upper_of(template@)),
            },
    {
        let k = to_upper(template);
        self.templates.get(k.as_str())
    }
}


/// The SAM account type of computer accounts.
pub const SAM_MACHINE_ACCOUNT: u32 = 805306369;

/// Whether `t` is the SID text of the object's first `objectSid` value.
pub open spec fn obj_sid_key(o: &Object, t: Seq<char>) -> bool {
    match o.spec_first("objectSid"@) {
        Some(AttributeValue::OctetString(b)) => sid_text_of(b@, t),
        _ => false,
    }
}

/// The first value of a string attribute.
pub open spec fn first_string(o: &Object, name: Seq<char>) -> Option<Seq<char>> {
    match o.spec_first(name) {
        Some(AttributeValue::String(x)) => Some(x@),
        _ => None,
    }
}

/// The object's distinguished name.
pub open spec fn obj_dn(o: &Object) -> Option<Seq<char>> {
    first_string(o, "distinguishedName"@)
}

/// Whether the object's `userAccountControl` marks a domain controller.
pub open spec fn is_dc(o: &Object) -> bool {
    o.first_integer("userAccountControl"@) is Some && o.first_integer("userAccountControl"@)->0
        & 0x2000 == 0x2000
}

/// The indexes among the first `n` objects that are domain controllers, in order.
pub open spec fn dc_indexes(objs: Seq<Object>, n: nat) -> Seq<usize>
    decreases n,
{
    if n == 0 {
        Seq::empty()
    } else {
        let prev = dc_indexes(objs, (n - 1) as nat);
        if is_dc(&objs[n - 1]) {
            prev.push((n - 1) as usize)
        } else {
            prev
        }
    }
}

/// The value of the first RDN of a DN: the text after its first `=`, up to the
/// next `=` or the end of the RDN.
pub open spec fn first_rdn_value(dn: Seq<char>) -> Option<Seq<char>> {
    let ce = find(dn, ',', 0, dn.len() as int);
    let e = find(dn, '=', 0, ce);
    if e >= ce {
        None
    } else {
        Some(dn.subrange(e + 1, find(dn, '=', e + 1, ce)))
    }
}

/// The value of the first RDN of `dn`, when it has one.
pub fn rdn_value(dn: &str) -> (r: Option<String>)
    ensures
        match r {
            Some(x) => first_rdn_value(dn@) == Some(x@),
            None => first_rdn_value(dn@) is None,
        },
{
    let d = chars_of(dn);
    let ce = find_char(&d, ',', 0, d.len());
    let e = find_char(&d, '=', 0, ce);
    if e >= ce {
        return None;
    }
    let ve = find_char(&d, '=', e + 1, ce);
    Some(substring(&d, e + 1, ve))
}

/// Whether one of `classes`, lower-cased, is `name`.
fn has_class_lower(classes: &Vec<String>, name: &str) -> (r: bool)
    ensures
        r == exists|i: int| 0 <= i < classes@.len() && lower_of((#[trigger] classes@[i])@) == name@,
{
    let mut i: usize = 0;
    while i < classes.len()
        invariant
            i <= classes@.len(),
            forall|j: int| 0 <= j < i ==> lower_of((#[trigger] classes@[j])@) != name@,
        decreases classes@.len() - i,
    {
        let l = to_lower(classes[i].as_str());
        if str_eq(l.as_str(), name) {
            return true;
        }
        i = i + 1;
    }
    false
}

fn first_string_of(o: &Object, name: &str) -> (r: Option<String>)
    ensures
        match r {
            Some(x) => first_string(o, name@) == Some(x@),
            None => first_string(o, name@) is None,
        },
{
    match o.get_first(name) {
        Some(AttributeValue::String(x)) => Some(x.clone()),
        _ => None,
    }
}

fn first_integer_of(o: &Object, name: &str) -> (r: Option<u32>)
    ensures
        r == o.first_integer(name@),
{
    match o.get_first(name) {
        Some(AttributeValue::Integer(i)) => Some(*i),
        _ => None,
    }
}

/// Records `name` as an enrollment service of each template of the object.
fn record_templates(cache: &mut CertificateTemplateCache, obj: &Object, name: &String)
    ensures
        template_sets(final(cache).templates@) == add_service(
            template_sets(old(cache).templates@),
            match obj.spec_get("certificateTemplates"@) {
                Some(v) => crate::parser::object::string_values(v),
                None => Seq::empty(),
            },
            name@,
        ),
{
    match obj.get("certificateTemplates") {
        Some(values) => {
            let ghost start = template_sets(cache.templates@);
            let mut t: usize = 0;
            proof {
                assert(values@.subrange(0, 0) =~= Seq::<AttributeValue>::empty());
                assert(crate::parser::object::string_values(values@.subrange(0, 0)) =~= Seq::<Seq<char>>::empty());
            }
            while t < values.len()
                invariant
                    t <= values@.len(),
                    template_sets(cache.templates@) == add_service(
                        start,
                        crate::parser::object::string_values(values@.subrange(0, t as int)),
                        name@,
                    ),
                decreases values@.len() - t,
            {
                proof {
                    assert(values@.subrange(0, t + 1).drop_last() =~= values@.subrange(0, t as int));
                }
                let ghost before = cache.templates@;
                let ghost sv0 = crate::parser::object::string_values(values@.subrange(0, t as int));
                let ghost sv1 = crate::parser::object::string_values(
                    values@.subrange(0, t + 1),
                );
                match &values[t] {
                    AttributeValue::String(template) => {
                        cache.insert(template.clone(), name.clone());
                        proof {
                            lemma_template_insert(before, cache.templates@, upper_of(template@), name@);
                            assert(values@.subrange(0, t + 1).last() == values@[t as int]);
                            assert(sv1 == sv0.push(template@));
                            assert(sv1.drop_last() =~= sv0);
                        }
                    },
                    _ => {
                        proof {
                            assert(values@.subrange(0, t + 1).last() == values@[t as int]);
                            assert(sv1 == sv0);
                        }
                    },
                }
                t = t + 1;
            }
            proof {
                assert(values@.subrange(0, t as int) =~= values@);
            }
        },
        None => {
            proof {
                assert(template_sets(cache.templates@) =~= add_service(
                    template_sets(cache.templates@),
                    Seq::empty(),
                    name@,
                ));
            }
        },
    }
}

/// The services of each template, as sets.
pub open spec fn template_sets(m: Map<Seq<char>, Vec<String>>) -> Map<Seq<char>, Set<Seq<char>>> {
    Map::new(|k: Seq<char>| m.contains_key(k), |k: Seq<char>| strs_view(m[k]@).to_set())
}

/// The table after `service` is recorded for each of `templates` (upper-cased), in order.
pub open spec fn add_service(
    m: Map<Seq<char>, Set<Seq<char>>>,
    templates: Seq<Seq<char>>,
    service: Seq<char>,
) -> Map<Seq<char>, Set<Seq<char>>>
    decreases templates.len(),
{
    if templates.len() == 0 {
        m
    } else {
        let prev = add_service(m, templates.drop_last(), service);
        let t = upper_of(templates.last());
        prev.insert(
            t,
            (if prev.contains_key(t) {
                prev[t]
            } else {
                Set::empty()
            }).insert(service),
        )
    }
}

proof fn lemma_template_insert(
    before: Map<Seq<char>, Vec<String>>,
    after: Map<Seq<char>, Vec<String>>,
    template: Seq<char>,
    service: Seq<char>,
)
    requires
        after.dom() == before.dom().insert(template),
        forall|t: Seq<char>|
            t != template && #[trigger] before.contains_key(t) ==> after[t] == before[t],
        strs_view(after[template]@).to_set() == (if before.contains_key(template) {
            strs_view(before[template]@).to_set()
        } else {
            Set::empty()
        }).insert(service),
    ensures
        template_sets(after) == template_sets(before).insert(
            template,
            (if template_sets(before).contains_key(template) {
                template_sets(before)[template]
            } else {
                Set::empty()
            }).insert(service),
        ),
{
    let a = template_sets(after);
    let b = template_sets(before).insert(
        template,
        (if template_sets(before).contains_key(template) {
            template_sets(before)[template]
        } else {
            Set::empty()
        }).insert(service),
    );
    assert forall|k: Seq<char>| a.contains_key(k) <==> b.contains_key(k) by {
        assert(after.dom().contains(k) == before.dom().insert(template).contains(k));
    }
    assert forall|k: Seq<char>| #[trigger] a.contains_key(k) implies a[k] == b[k] by {
        if k != template {
            assert(after.dom().contains(k) == before.dom().insert(template).contains(k));
        }
    }
    assert(a =~= b);
}

/// Whether one of the object's classes, lower-cased, is `name`.
pub open spec fn has_lower_class(o: &Object, name: Seq<char>) -> bool {
    o.spec_classes() is Some && exists|i: int|
        0 <= i < (o.spec_classes()->0).len() && lower_of(
            #[trigger] (o.spec_classes()->0)[i],
        ) == name
}

/// The last of the first `n` objects with the class `domain` (in any case).
pub open spec fn last_domain(objs: Seq<Object>, n: nat) -> Option<int>
    decreases n,
{
    if n == 0 {
        None
    } else if has_lower_class(&objs[n - 1], "domain"@) {
        Some(n - 1)
    } else {
        last_domain(objs, (n - 1) as nat)
    }
}

/// The texts of an optional string.
pub open spec fn opt_text(o: Option<String>) -> Option<Seq<char>> {
    match o {
        Some(d) => Some(d@),
        None => None,
    }
}

/// What the primary-domain fields hold for the first `n` objects: the
/// position, DN and SID of the last object with the class `domain`.
pub open spec fn primary_domain(
    index: Option<usize>,
    root: Option<String>,
    sid: Option<SID>,
    objs: Seq<Object>,
    n: nat,
) -> bool {
    match last_domain(objs, n) {
        Some(j) => index == Some(j as usize) && opt_text(root) == obj_dn(&objs[j]) && match sid {
            Some(x) => obj_sid_key(&objs[j], sid_string(x)),
            None => forall|t: Seq<char>| !obj_sid_key(&objs[j], t),
        },
        None => index is None && root is None && sid is None,
    }
}

/// The domain table after a primary-domain object at `j` is recorded.
pub open spec fn primary_step(m: Map<Seq<char>, usize>, o: &Object, j: int) -> Map<
    Seq<char>,
    usize,
> {
    if has_lower_class(o, "domain"@) && obj_dn(o) is Some {
        m.insert(upper_of(obj_dn(o)->0), j as usize)
    } else {
        m
    }
}

/// The domain table after a cross-reference at `j` is recorded: a forest
/// domain is added under its upper-cased `nCName` unless that key is already present.
pub open spec fn forest_step(m: Map<Seq<char>, usize>, o: &Object, j: int) -> Map<
    Seq<char>,
    usize,
> {
    let nc = first_string(o, "nCName"@);
    if has_lower_class(o, "crossref"@) && o.first_integer("systemFlags"@) is Some
        && o.first_integer("systemFlags"@)->0 & 2 == 2 && nc is Some && !m.contains_key(
        upper_of(nc->0),
    ) {
        m.insert(upper_of(nc->0), j as usize)
    } else {
        m
    }
}

/// The domain table after the first `n` objects.
pub open spec fn domains_after(objs: Seq<Object>, n: nat) -> Map<Seq<char>, usize>
    decreases n,
{
    if n == 0 {
        Map::empty()
    } else {
        let j = n - 1;
        forest_step(primary_step(domains_after(objs, j as nat), &objs[j], j), &objs[j], j)
    }
}

/// The certificate-template table after the first `n` objects: each
/// enrollment service with a name is recorded for each of its templates.
pub open spec fn templates_after(objs: Seq<Object>, n: nat) -> Map<Seq<char>, Set<Seq<char>>>
    decreases n,
{
    if n == 0 {
        Map::empty()
    } else {
        let prev = templates_after(objs, (n - 1) as nat);
        let o = &objs[n - 1];
        if has_lower_class(o, "pkienrollmentservice"@) && first_string(o, "name"@) is Some {
            add_service(
                prev,
                match o.spec_get("certificateTemplates"@) {
                    Some(v) => crate::parser::object::string_values(v),
                    None => Seq::empty(),
                },
                first_string(o, "name"@)->0,
            )
        } else {
            prev
        }
    }
}

/// Whether one of the object's classes, lower-cased, is `name`.
fn object_has_lower_class(obj: &Object, name: &str) -> (r: bool)
    ensures
        r == has_lower_class(obj, name@),
{
    let classes = match obj.get_attribute_classes() {
        Some(c) => c,
        None => return false,
    };
    let r = has_class_lower(&classes, name);
    proof {
        let cs = obj.spec_classes()->0;
        assert(strs_view(classes@) == cs);
        if r {
            let i = choose|i: int|
                0 <= i < classes@.len() && lower_of((#[trigger] classes@[i])@) == name@;
            assert(cs[i] == classes@[i]@);
        }
        if has_lower_class(obj, name@) {
            let i = choose|i: int| 0 <= i < cs.len() && lower_of(#[trigger] cs[i]) == name@;
            assert(cs[i] == classes@[i]@);
        }
    }
    r
}

/// Whether the object is a computer account.
pub open spec fn is_machine(o: &Object) -> bool {
    o.first_integer("sAMAccountType"@) == Some(SAM_MACHINE_ACCOUNT)
}

/// Whether `k` is the upper-cased host name or name of the object.
pub open spec fn computer_key(o: &Object, k: Seq<char>) -> bool {
    (first_string(o, "dNSHostName"@) is Some && upper_of(first_string(o, "dNSHostName"@)->0) == k)
        || (first_string(o, "name"@) is Some && upper_of(first_string(o, "name"@)->0) == k)
}

/// Whether `k` is the upper-cased DN of the object.
pub open spec fn dn_key(o: &Object, k: Seq<char>) -> bool {
    obj_dn(o) is Some && upper_of(obj_dn(o)->0) == k
}

/// What the SID index holds for the first `n` objects: each key maps to the
/// last of them whose SID has that text, and every SID text is a key.
pub open spec fn sids_indexed(m: Map<Seq<char>, usize>, objs: Seq<Object>, n: int) -> bool {
    &&& forall|k: Seq<char>|
        #[trigger] m.contains_key(k) ==> m[k] < n && obj_sid_key(&objs[m[k] as int], k) && forall|
            j: int,
        | m[k] < j < n ==> !#[trigger] obj_sid_key(&objs[j], k)
    &&& forall|j: int, t: Seq<char>|
        0 <= j < n && #[trigger] obj_sid_key(&objs[j], t) ==> m.contains_key(t)
}

/// What the DN index holds for the first `n` objects: each key maps to the
/// last of them whose upper-cased DN it is, and every such DN is a key.
pub open spec fn dns_indexed(m: Map<Seq<char>, usize>, objs: Seq<Object>, n: int) -> bool {
    &&& forall|k: Seq<char>|
        #[trigger] m.contains_key(k) ==> m[k] < n && dn_key(&objs[m[k] as int], k) && forall|
            j: int,
        | m[k] < j < n ==> !#[trigger] dn_key(&objs[j], k)
    &&& forall|j: int, k: Seq<char>| 0 <= j < n && #[trigger] dn_key(&objs[j], k) ==> m.contains_key(k)
}

/// An object's SID has one text.
proof fn lemma_obj_sid_key_unique(o: &Object, t1: Seq<char>, t2: Seq<char>)
    requires
        obj_sid_key(o, t1),
        obj_sid_key(o, t2),
    ensures
        t1 == t2,
{
    let b = match o.spec_first("objectSid"@) {
        Some(AttributeValue::OctetString(b)) => b@,
        _ => Seq::empty(),
    };
    let y1 = choose|y: SID| y.wf() && crate::sid::sid_at(b, 0, y) && sid_string(y) == t1;
    let y2 = choose|y: SID| y.wf() && crate::sid::sid_at(b, 0, y) && sid_string(y) == t2;
    lemma_sid_at_unique(b, 0, y1, y2);
}

/// What the computer index holds for the first `n` objects.
pub open spec fn computers_indexed(m: Map<Seq<char>, usize>, objs: Seq<Object>, n: int) -> bool {
    &&& forall|k: Seq<char>|
        #[trigger] m.contains_key(k) ==> m[k] < n && is_machine(&objs[m[k] as int])
            && computer_key(&objs[m[k] as int], k) && forall|j: int|
            m[k] < j < n ==> !(is_machine(&objs[j]) && #[trigger] computer_key(&objs[j], k))
    &&& forall|j: int|
        0 <= j < n && #[trigger] is_machine(&objs[j]) ==> (first_string(
            &objs[j],
            "dNSHostName"@,
        ) is Some ==> m.contains_key(upper_of(first_string(&objs[j], "dNSHostName"@)->0))) && (
        first_string(&objs[j], "name"@) is Some ==> m.contains_key(
            upper_of(first_string(&objs[j], "name"@)->0),
        ))
}

/// Whether `k` is a key under which the class is indexed: its name, its DN
/// or the value of its DN's first RDN, upper-cased.
pub open spec fn class_key(c: crate::parser::schema::Class, k: Seq<char>) -> bool {
    upper_of(c.class_name@) == k || upper_of(c.dn@) == k || (first_rdn_value(c.dn@) is Some
        && upper_of(first_rdn_value(c.dn@)->0) == k)
}

/// What the class index holds for the first `n` classes.
pub open spec fn classes_indexed(
    m: Map<Seq<char>, usize>,
    classes: Seq<crate::parser::schema::Class>,
    n: int,
) -> bool {
    &&& forall|k: Seq<char>|
        #[trigger] m.contains_key(k) ==> m[k] < n && class_key(classes[m[k] as int], k)
    &&& forall|j: int|
        0 <= j < n ==> m.contains_key(upper_of((#[trigger] classes[j]).class_name@))
            && m.contains_key(upper_of(classes[j].dn@)) && (first_rdn_value(classes[j].dn@) is Some
            ==> m.contains_key(upper_of(first_rdn_value(classes[j].dn@)->0)))
}

/// The indexes of one snapshot.
pub struct Caches {
    pub root_domain: Option<String>,
    pub root_domain_index: Option<usize>,
    pub domain_sid: Option<SID>,
    pub sid_cache: SIDCache,
    pub dn_cache: DNCache,
    pub computer_cache: ComputerCache,
    pub object_type_guid_cache: ObjectTypeGUIDCache,
    pub class_cache: ClassCache,
    pub domain_cache: DomainCache,
    pub domain_controllers: Vec<usize>,
    pub certificate_template_cache: CertificateTemplateCache,
}

impl Caches {
    /// What the SID and DN indexes and the domain-controller list hold for
    /// the objects `objs`: every key maps to an object that carries it, every
    /// object's SID text and upper-cased DN is a key, and the controllers are
    /// listed in object order.
    pub open spec fn indexes_objects(&self, objs: Seq<Object>) -> bool {
        &&& self.dn_cache.wf()
        &&& sids_indexed(self.sid_cache.cache@, objs, objs.len() as int)
        &&& dns_indexed(self.dn_cache.cache@, objs, objs.len() as int)
        &&& self.domain_controllers@ == dc_indexes(objs, objs.len())
        &&& primary_domain(
            self.root_domain_index,
            self.root_domain,
            self.domain_sid,
            objs,
            objs.len(),
        )
        &&& self.domain_cache.domains@ == domains_after(objs, objs.len())
        &&& template_sets(self.certificate_template_cache.templates@) == templates_after(
            objs,
            objs.len(),
        )
    }

    pub fn new() -> (r: Caches)
        ensures
            r.dn_cache.wf(),
            r.sid_cache.cache@ == Map::<Seq<char>, usize>::empty(),
            r.dn_cache.cache@ == Map::<Seq<char>, usize>::empty(),
            r.domain_controllers@.len() == 0,
            r.root_domain is None,
            r.root_domain_index is None,
            r.object_type_guid_cache.cache@.len() == 0,
            r.domain_sid is None,
            r.domain_cache.domains@ == Map::<Seq<char>, usize>::empty(),
            r.certificate_template_cache.templates@ == Map::<Seq<char>, Vec<String>>::empty(),
            r.computer_cache.cache@ == Map::<Seq<char>, usize>::empty(),
            r.class_cache.cache@ == Map::<Seq<char>, usize>::empty(),
    {
        Caches {
            root_domain: None,
            root_domain_index: None,
            domain_sid: None,
            sid_cache: SIDCache { cache: StringHashMap::new() },
            dn_cache: DNCache::new(),
            computer_cache: ComputerCache { cache: StringHashMap::new() },
            object_type_guid_cache: ObjectTypeGUIDCache { cache: Vec::new() },
            class_cache: ClassCache { cache: StringHashMap::new() },
            domain_cache: DomainCache::new(),
            domain_controllers: Vec::new(),
            certificate_template_cache: CertificateTemplateCache::new(),
        }
    }

    /// Whether these are the indexes of `snapshot`.
    pub open spec fn built_from(&self, snapshot: &Snapshot) -> bool {
        &&& self.indexes_objects(snapshot.objects@)
        &&& computers_indexed(
            self.computer_cache.cache@,
            snapshot.objects@,
            snapshot.objects@.len() as int,
        )
        &&& classes_indexed(self.class_cache.cache@, snapshot.classes@, snapshot.classes@.len() as int)
        &&& self.object_type_guid_cache.cache@.len() == (if snapshot.classes@.len()
            > snapshot.properties@.len() {
            snapshot.classes@.len()
        } else {
            snapshot.properties@.len()
        })
        &&& forall|i: int|
            0 <= i < self.object_type_guid_cache.cache@.len() ==> #[trigger] self.object_type_guid_cache.cache@[i]
                == if i < snapshot.properties@.len() {
                snapshot.properties@[i].schema_id_guid
            } else {
                snapshot.classes@[i].schema_id_guid
            }
    }

    /// Replaces the indexes with those of `snapshot`.
    pub fn build_caches(&mut self, snapshot: &Snapshot)
        ensures
            final(self).built_from(snapshot),
    {
        *self = Self::build(snapshot);
    }

    /// Builds every index of `snapshot`.
    pub fn build(snapshot: &Snapshot) -> (r: Caches)
        ensures
            r.built_from(snapshot),
    {
        let mut c = Caches::new();
        c.object_type_guid_cache = Self::build_object_type_guid_cache(snapshot);
        c.build_class_cache(snapshot);
        c.build_object_caches(snapshot);
        c
    }

    fn build_object_type_guid_cache(snapshot: &Snapshot) -> (r: ObjectTypeGUIDCache)
        ensures
            r.cache@.len() == (if snapshot.classes@.len() > snapshot.properties@.len() {
                snapshot.classes@.len()
            } else {
                snapshot.properties@.len()
            }),
            forall|i: int|
                0 <= i < r.cache@.len() ==> #[trigger] r.cache@[i] == if i
                    < snapshot.properties@.len() {
                    snapshot.properties@[i].schema_id_guid
                } else {
                    snapshot.classes@[i].schema_id_guid
                },
    {
        let np = snapshot.properties.len();
        let nc = snapshot.classes.len();
        let n = if nc > np {
            nc
        } else {
            np
        };
        let mut v: Vec<GUID> = Vec::new();
        let mut i: usize = 0;
        while i < n
            invariant
                np == snapshot.properties@.len(),
                nc == snapshot.classes@.len(),
                n == (if nc > np { nc } else { np }),
                i <= n,
                v@.len() == i,
                forall|j: int|
                    0 <= j < i ==> #[trigger] v@[j] == if j < np {
                        snapshot.properties@[j].schema_id_guid
                    } else {
                        snapshot.classes@[j].schema_id_guid
                    },
            decreases n - i,
        {
            if i < np {
                v.push(snapshot.properties[i].schema_id_guid);
            } else {
                v.push(snapshot.classes[i].schema_id_guid);
            }
            i = i + 1;
        }
        ObjectTypeGUIDCache { cache: v }
    }

    fn build_class_cache(&mut self, snapshot: &Snapshot)
        requires
            old(self).class_cache.cache@ == Map::<Seq<char>, usize>::empty(),
        ensures
            classes_indexed(
                final(self).class_cache.cache@,
                snapshot.classes@,
                snapshot.classes@.len() as int,
            ),
            final(self).computer_cache == old(self).computer_cache,
            final(self).root_domain == old(self).root_domain,
            final(self).root_domain_index == old(self).root_domain_index,
            final(self).domain_sid == old(self).domain_sid,
            final(self).domain_cache == old(self).domain_cache,
            final(self).certificate_template_cache == old(self).certificate_template_cache,
            final(self).object_type_guid_cache == old(self).object_type_guid_cache,
            final(self).dn_cache == old(self).dn_cache,
            final(self).sid_cache == old(self).sid_cache,
            final(self).domain_controllers == old(self).domain_controllers,
    {
        let mut i: usize = 0;
        while i < snapshot.classes.len()
            invariant
                self.dn_cache == old(self).dn_cache,
                self.sid_cache == old(self).sid_cache,
                self.domain_controllers == old(self).domain_controllers,
                self.object_type_guid_cache == old(self).object_type_guid_cache,
                self.computer_cache == old(self).computer_cache,
                self.root_domain == old(self).root_domain,
                self.root_domain_index == old(self).root_domain_index,
                self.domain_sid == old(self).domain_sid,
                self.domain_cache == old(self).domain_cache,
                self.certificate_template_cache == old(self).certificate_template_cache,
                i <= snapshot.classes@.len(),
                classes_indexed(self.class_cache.cache@, snapshot.classes@, i as int),
            decreases snapshot.classes@.len() - i,
        {
            let class = &snapshot.classes[i];
            let ghost m0 = self.class_cache.cache@;
            self.class_cache.store(class.class_name.clone(), i);
            self.class_cache.store(class.dn.clone(), i);
            let cn = rdn_value(class.dn.as_str());
            match cn {
                Some(cn) => self.class_cache.store(cn, i),
                None => {},
            }
            proof {
                let m = self.class_cache.cache@;
                let cs = snapshot.classes@;
                assert forall|k: Seq<char>| #[trigger] m.contains_key(k) implies m[k] < i + 1
                    && class_key(cs[m[k] as int], k) by {
                    if !class_key(cs[i as int], k) {
                        assert(m0.contains_key(k));
                    }
                }
            }
            i = i + 1;
        }
    }

    fn build_object_caches(&mut self, snapshot: &Snapshot)
        requires
            old(self).computer_cache.cache@ == Map::<Seq<char>, usize>::empty(),
            old(self).dn_cache.wf(),
            old(self).sid_cache.cache@ == Map::<Seq<char>, usize>::empty(),
            old(self).dn_cache.cache@ == Map::<Seq<char>, usize>::empty(),
            old(self).domain_controllers@.len() == 0,
            old(self).root_domain is None,
            old(self).root_domain_index is None,
            old(self).domain_sid is None,
            old(self).domain_cache.domains@ == Map::<Seq<char>, usize>::empty(),
            old(self).certificate_template_cache.templates@ == Map::<
                Seq<char>,
                Vec<String>,
            >::empty(),
        ensures
            final(self).indexes_objects(snapshot.objects@),
            computers_indexed(
                final(self).computer_cache.cache@,
                snapshot.objects@,
                snapshot.objects@.len() as int,
            ),
            final(self).class_cache == old(self).class_cache,
            final(self).object_type_guid_cache == old(self).object_type_guid_cache,
    {
        let ghost objs = snapshot.objects@;
        let mut idx: usize = 0;
        proof {
            assert(self.domain_controllers@ =~= dc_indexes(objs, 0));
        }
        while idx < snapshot.objects.len()
            invariant
                objs == snapshot.objects@,
                self.object_type_guid_cache == old(self).object_type_guid_cache,
                self.class_cache == old(self).class_cache,
                computers_indexed(self.computer_cache.cache@, objs, idx as int),
                idx <= objs.len(),
                self.dn_cache.wf(),
                sids_indexed(self.sid_cache.cache@, objs, idx as int),
                dns_indexed(self.dn_cache.cache@, objs, idx as int),
                self.domain_controllers@ == dc_indexes(objs, idx as nat),
                primary_domain(
                    self.root_domain_index,
                    self.root_domain,
                    self.domain_sid,
                    objs,
                    idx as nat,
                ),
                self.domain_cache.domains@ == domains_after(objs, idx as nat),
                template_sets(self.certificate_template_cache.templates@) == templates_after(
                    objs,
                    idx as nat,
                ),
            decreases objs.len() - idx,
        {
            let obj = &snapshot.objects[idx];
            // SID index
            let sid = match obj.get_first("objectSid") {
                Some(v) => v.as_sid(),
                None => None,
            };
            let ghost s0 = self.sid_cache.cache@;
            match &sid {
                Some(x) => {
                    self.sid_cache.store(x.clone_sid(), idx);
                    proof {
                        let m = self.sid_cache.cache@;
                        let key = sid_string(*x);
                        let b = match obj.spec_first("objectSid"@) {
                            Some(AttributeValue::OctetString(b)) => b@,
                            _ => Seq::empty(),
                        };
                        assert(obj_sid_key(obj, key));
                        assert forall|j: int, t: Seq<char>|
                            0 <= j < idx + 1 && #[trigger] obj_sid_key(&objs[j], t)
                                implies m.contains_key(t) by {
                            if j == idx {
                                lemma_obj_sid_key_unique(obj, key, t);
                            }
                        }
                        assert forall|k: Seq<char>| #[trigger] m.contains_key(k) implies m[k] < idx + 1
                            && obj_sid_key(&objs[m[k] as int], k) && forall|j: int|
                            m[k] < j < idx + 1 ==> !#[trigger] obj_sid_key(&objs[j], k) by {
                            if k != key {
                                assert(s0.contains_key(k));
                                assert forall|j: int| m[k] < j < idx + 1 implies !#[trigger] obj_sid_key(
                                    &objs[j],
                                    k,
                                ) by {
                                    if j == idx && obj_sid_key(&objs[j], k) {
                                        lemma_obj_sid_key_unique(obj, key, k);
                                    }
                                }
                            }
                        }
                    }
                },
                None => {
                    proof {
                        assert forall|j: int, t: Seq<char>|
                            0 <= j < idx + 1 && #[trigger] obj_sid_key(&objs[j], t)
                                implies self.sid_cache.cache@.contains_key(t) by {
                            if j == idx {
                                assert(!obj_sid_key(&objs[j], t));
                            }
                        }
                        let m = self.sid_cache.cache@;
                        assert forall|k: Seq<char>| #[trigger] m.contains_key(k) implies m[k] < idx + 1
                            && obj_sid_key(&objs[m[k] as int], k) && forall|j: int|
                            m[k] < j < idx + 1 ==> !#[trigger] obj_sid_key(&objs[j], k) by {
                            assert forall|j: int| m[k] < j < idx + 1 implies !#[trigger] obj_sid_key(
                                &objs[j],
                                k,
                            ) by {
                                if j == idx {
                                    assert(!obj_sid_key(&objs[j], k));
                                }
                            }
                        }
                    }
                },
            }
            // DN index
            let dn = first_string_of(obj, "distinguishedName");
            let ghost n0 = self.dn_cache.cache@;
            match &dn {
                Some(d) => {
                    self.dn_cache.insert(d.clone(), idx);
                },
                None => {},
            }
            proof {
                let m = self.dn_cache.cache@;
                assert forall|j: int, k: Seq<char>|
                    0 <= j < idx + 1 && #[trigger] dn_key(&objs[j], k) implies m.contains_key(k) by {
                    if j < idx {
                        assert(n0.contains_key(k));
                    }
                }
                assert forall|k: Seq<char>| #[trigger] m.contains_key(k) implies m[k] < idx + 1
                    && dn_key(&objs[m[k] as int], k) && forall|j: int|
                    m[k] < j < idx + 1 ==> !#[trigger] dn_key(&objs[j], k) by {
                    if !dn_key(obj, k) {
                        assert(n0.contains_key(k));
                        assert forall|j: int| m[k] < j < idx + 1 implies !#[trigger] dn_key(
                            &objs[j],
                            k,
                        ) by {
                            if j == idx {
                                assert(!dn_key(obj, k));
                            }
                        }
                    }
                }
            }
            // domains, forest domains and certificate templates
            let is_domain = object_has_lower_class(obj, "domain");
            let ghost d0 = self.domain_cache.domains@;
            if is_domain {
                self.root_domain_index = Some(idx);
                self.root_domain = match &dn {
                    Some(d) => Some(d.clone()),
                    None => None,
                };
                self.domain_sid = match &sid {
                    Some(x) => Some(x.clone_sid()),
                    None => None,
                };
                match &dn {
                    Some(d) => self.domain_cache.insert_domain(d.clone(), idx),
                    None => {},
                }
                proof {
                    match sid {
                        Some(x) => {
                            assert(obj_sid_key(obj, sid_string(x)));
                        },
                        None => {},
                    }
                }
            }
            proof {
                assert(self.domain_cache.domains@ == primary_step(d0, obj, idx as int));
            }
            let ghost d1 = self.domain_cache.domains@;
            if object_has_lower_class(obj, "crossref") {
                match first_integer_of(obj, "systemFlags") {
                    Some(flags) => {
                        if flags & 2 == 2 {
                            match first_string_of(obj, "nCName") {
                                Some(nc) => self.domain_cache.insert_forest_domain(nc, idx),
                                None => {},
                            }
                        }
                    },
                    None => {},
                }
            }
            proof {
                assert(self.domain_cache.domains@ == forest_step(d1, obj, idx as int));
                assert(domains_after(objs, (idx + 1) as nat) == forest_step(
                    primary_step(domains_after(objs, idx as nat), &objs[idx as int], idx as int),
                    &objs[idx as int],
                    idx as int,
                ));
            }
            if object_has_lower_class(obj, "pkienrollmentservice") {
                match first_string_of(obj, "name") {
                    Some(name) => {
                        record_templates(&mut self.certificate_template_cache, obj, &name);
                    },
                    None => {},
                }
            }
            proof {
                assert(objs[idx as int] == *obj);
            }
            // computers by host name and by name
            let ghost c0 = self.computer_cache.cache@;
            if first_integer_of(obj, "sAMAccountType") == Some(SAM_MACHINE_ACCOUNT) {
                match first_string_of(obj, "dNSHostName") {
                    Some(h) => self.computer_cache.insert(h, idx),
                    None => {},
                }
                match first_string_of(obj, "name") {
                    Some(n) => self.computer_cache.insert(n, idx),
                    None => {},
                }
            }
            proof {
                let m = self.computer_cache.cache@;
                assert forall|k: Seq<char>| #[trigger] m.contains_key(k) implies m[k] < idx + 1
                    && is_machine(&objs[m[k] as int]) && computer_key(&objs[m[k] as int], k)
                    && forall|j: int|
                    m[k] < j < idx + 1 ==> !(is_machine(&objs[j]) && #[trigger] computer_key(
                        &objs[j],
                        k,
                    )) by {
                    if !(is_machine(&objs[idx as int]) && computer_key(&objs[idx as int], k)) {
                        assert(c0.contains_key(k));
                        assert forall|j: int| m[k] < j < idx + 1 implies !(is_machine(&objs[j])
                            && #[trigger] computer_key(&objs[j], k)) by {
                            if j == idx {
                            }
                        }
                    }
                }
                assert forall|j: int|
                    0 <= j < idx + 1 && #[trigger] is_machine(&objs[j]) implies (first_string(
                    &objs[j],
                    "dNSHostName"@,
                ) is Some ==> m.contains_key(upper_of(first_string(&objs[j], "dNSHostName"@)->0)))
                    && (first_string(&objs[j], "name"@) is Some ==> m.contains_key(
                    upper_of(first_string(&objs[j], "name"@)->0),
                )) by {
                    if j < idx {
                        if first_string(&objs[j], "dNSHostName"@) is Some {
                            assert(c0.contains_key(upper_of(first_string(&objs[j], "dNSHostName"@)->0)));
                        }
                        if first_string(&objs[j], "name"@) is Some {
                            assert(c0.contains_key(upper_of(first_string(&objs[j], "name"@)->0)));
                        }
                    }
                }
            }
            // domain controllers
            match first_integer_of(obj, "userAccountControl") {
                Some(uac) => {
                    if uac & 0x2000 == 0x2000 {
                        self.domain_controllers.push(idx);
                    }
                },
                None => {},
            }
            idx = idx + 1;
        }
    }
}


/// Every key of the SID index is the text of a valid SID, and that text
/// determines the SID: any valid SID with the same text has the same fields.
/// So reading a key back with `SID::from_text` gives the SID it came from.
pub proof fn lemma_sid_index_round_trip(c: &Caches, objs: Seq<Object>, k: Seq<char>)
    requires
        c.indexes_objects(objs),
        c.sid_cache.cache@.contains_key(k),
    ensures
        exists|x: SID| #[trigger] x.wf() && sid_string(x) == k,
        forall|x: SID, y: SID|
            x.wf() && y.wf() && sid_string(x) == k && sid_string(y) == k ==> x.revision
                == y.revision && x.identifier_authority == y.identifier_authority
                && x.sub_authorities@ == y.sub_authorities@,
{
    let i = c.sid_cache.cache@[k] as int;
    assert(obj_sid_key(&objs[i], k));
    assert forall|x: SID, y: SID|
        x.wf() && y.wf() && sid_string(x) == k && sid_string(y) == k implies x.revision
            == y.revision && x.identifier_authority == y.identifier_authority
            && x.sub_authorities@ == y.sub_authorities@ by {
        lemma_sid_string_injective(x, y);
    }
}


/// DN lookups ignore case: two spellings with the same upper-case form find
/// the same entry.
pub proof fn lemma_dn_lookup_ignores_case(c: &DNCache, a: Seq<char>, b: Seq<char>)
    requires
        upper_of(a) == upper_of(b),
    ensures
        c.spec_get(a) == c.spec_get(b),
{
}

/// After a DN is stored, every spelling with the same upper-case form finds
/// it, however many times it is looked up.
pub proof fn lemma_dn_insert_then_lookup(
    before: &DNCache,
    after: &DNCache,
    key: Seq<char>,
    idx: usize,
    variant: Seq<char>,
)
    requires
        after.cache@ == before.cache@.insert(upper_of(key), idx),
        upper_of(variant) == upper_of(key),
    ensures
        after.spec_get(variant) == Some(idx),
        after.spec_get(key) == after.spec_get(variant),
{
}

} // verus!
