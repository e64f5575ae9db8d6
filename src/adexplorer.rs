//! A decoded snapshot together with its indexes.

use vstd::prelude::*;
use crate::cache::Caches;
use crate::error::ParseError;
use crate::parser::object::Object;
use crate::parser::schema::header_ok;
use crate::parser::schema::Property;
use crate::parser::snapshot::{decoded_from, snapshot_ok_with, Snapshot};
use crate::sid::{sid_string, SID};
use crate::text::upper_of;

verus! {

/// A snapshot and the indexes built from it.
pub struct ADExplorerSnapshot {
    pub snapshot: Snapshot,
    pub caches: Caches,
}

impl ADExplorerSnapshot {
    /// The index that the SID table holds for `sid`.
    pub open spec fn sid_index(&self, sid: SID) -> Option<usize> {
        if self.caches.sid_cache.cache@.contains_key(sid_string(sid)) {
            Some(self.caches.sid_cache.cache@[sid_string(sid)])
        } else {
            None
        }
    }

    /// Whether the SID table resolves `sid` to an object.
    pub open spec fn resolves(&self, sid: SID) -> bool {
        self.sid_index(sid) is Some && (self.sid_index(sid)->0) < self.snapshot.objects@.len()
    }

    /// The object that `sid` resolves to.
    pub open spec fn sid_object(&self, sid: SID) -> Object {
        self.snapshot.objects@[self.sid_index(sid)->0 as int]
    }

    /// Decodes a snapshot held in memory and builds its indexes.
    pub fn snapshot_from_memory(data: &[u8]) -> (r: Result<ADExplorerSnapshot, ParseError>)
        ensures
            match r {
                Ok(a) => decoded_from(data@, &a.snapshot) && a.caches.built_from(&a.snapshot),
                Err(e) => e == ParseError::MalformedInput && forall|props: Seq<Property>|
                    !snapshot_ok_with(data@, props),
            },
            !header_ok(data@) ==> r is Err,
    {
        let snapshot = Snapshot::snapshot_from_memory(data)?;
        let caches = Caches::build(&snapshot);
        Ok(ADExplorerSnapshot { snapshot, caches })
    }

    /// Replaces the indexes.
    pub fn build_caches(&mut self, caches: Caches)
        ensures
            final(self).caches == caches,
            final(self).snapshot == old(self).snapshot,
    {
        self.caches = caches;
    }

    /// The object of the primary domain: the last object with the class
    /// `domain`, by the position the indexes recorded.
    pub fn get_root_domain(&self) -> (r: Option<&Object>)
        ensures
            match r {
                Some(o) => self.caches.root_domain_index is Some
                    && self.caches.root_domain_index->0 < self.snapshot.objects@.len() && *o
                    == self.snapshot.objects@[self.caches.root_domain_index->0 as int],
                None => self.caches.root_domain_index is None || self.caches.root_domain_index->0
                    >= self.snapshot.objects@.len(),
            },
    {
        let idx = match self.caches.root_domain_index {
            Some(i) => i,
            None => return None,
        };
        if idx < self.snapshot.objects.len() {
            Some(&self.snapshot.objects[idx])
        } else {
            None
        }
    }

    /// The object with the given SID.
    pub fn get_sid(&self, sid: &SID) -> (r: Option<&Object>)
        ensures
            match r {
                Some(o) => self.resolves(*sid) && *o == self.sid_object(*sid),
                None => !self.resolves(*sid),
            },
    {
        let idx = match self.caches.sid_cache.lookup(sid) {
            Some(i) => *i,
            None => return None,
        };
        if idx < self.snapshot.objects.len() {
            Some(&self.snapshot.objects[idx])
        } else {
            None
        }
    }

    /// The computer with the given host name or name, compared without regard to case.
    pub fn get_computer(&self, computer: &str) -> (r: Option<&Object>)
        ensures
            match r {
                Some(o) => self.caches.computer_cache.cache@.contains_key(upper_of(computer@))
                    && self.caches.computer_cache.cache@[upper_of(computer@)]
                    < self.snapshot.objects@.len() && *o == self.snapshot.objects@[self.caches.computer_cache.cache@[upper_of(
                    computer@,
                )] as int],
                None => !self.caches.computer_cache.cache@.contains_key(upper_of(computer@))
                    || self.caches.computer_cache.cache@[upper_of(computer@)]
                    >= self.snapshot.objects@.len(),
            },
    {
        let key = crate::text::owned(computer);
        let idx = match self.caches.computer_cache.get(&key) {
            Some(i) => *i,
            None => return None,
        };
        if idx < self.snapshot.objects.len() {
            Some(&self.snapshot.objects[idx])
        } else {
            None
        }
    }

    /// The object with the given DN, compared without regard to case.
    pub fn get_dn(&self, dn: &str) -> (r: Option<&Object>)
        ensures
            match r {
                Some(o) => self.caches.dn_cache.spec_get(dn@) is Some
                    && self.caches.dn_cache.spec_get(dn@)->0 < self.snapshot.objects@.len() && *o
                    == self.snapshot.objects@[self.caches.dn_cache.spec_get(dn@)->0 as int],
                None => self.caches.dn_cache.spec_get(dn@) is None || self.caches.dn_cache.spec_get(
                    dn@,
                )->0 >= self.snapshot.objects@.len(),
            },
    {
        let key = crate::text::owned(dn);
        let idx = match self.caches.dn_cache.get(&key) {
            Some(i) => *i,
            None => return None,
        };
        if idx < self.snapshot.objects.len() {
            Some(&self.snapshot.objects[idx])
        } else {
            None
        }
    }
}

} // verus!
