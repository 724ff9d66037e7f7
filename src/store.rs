//! The record store: the keys the engine created or adopted, with the
//! fingerprint each had when it was last applied.
use vstd::prelude::*;
use crate::engine::{Action, Entry, fingerprints, keys_unique, has_key, lemma_fingerprint_at};

verus! {

/// Proof that the engine created or adopted a resource.
#[derive(Clone, Debug)]
pub struct ManagedRecord {
    pub key: String,
    pub fingerprint: String,
    pub last_updated: u64,
    pub managed: bool,
}

pub open spec fn records_unique(s: Seq<ManagedRecord>) -> bool {
    forall|i: int, j: int|
        0 <= i < s.len() && 0 <= j < s.len() && #[trigger] s[i].key@ == #[trigger] s[j].key@
            ==> i == j
}

pub open spec fn has_record(s: Seq<ManagedRecord>, k: Seq<char>) -> bool {
    exists|i: int| 0 <= i < s.len() && #[trigger] s[i].key@ == k
}

pub open spec fn record_index(s: Seq<ManagedRecord>, k: Seq<char>) -> int {
    choose|i: int| 0 <= i < s.len() && #[trigger] s[i].key@ == k
}

/// The records as a map from key to recorded fingerprint.
pub open spec fn record_map(s: Seq<ManagedRecord>) -> Map<Seq<char>, Seq<char>> {
    Map::new(|k: Seq<char>| has_record(s, k), |k: Seq<char>| s[record_index(s, k)].fingerprint@)
}

/// The store after one action on `key` succeeded: an applied or adopted
/// descriptor is recorded with its fingerprint, a deleted one forgotten.
pub open spec fn after_outcome(
    m: Map<Seq<char>, Seq<char>>,
    key: Seq<char>,
    action: Action,
    fingerprint: Seq<char>,
) -> Map<Seq<char>, Seq<char>> {
    match action {
        Action::Skip => m,
        Action::Delete => m.remove(key),
        _ => m.insert(key, fingerprint),
    }
}

/// The actions after whose success a record is written.
pub open spec fn records_action(action: Action) -> bool {
    action != Action::Skip && action != Action::Delete
}

proof fn lemma_record_at(s: Seq<ManagedRecord>, i: int)
    requires
        records_unique(s),
        0 <= i < s.len(),
    ensures
        record_map(s).dom().contains(s[i].key@),
        record_map(s)[s[i].key@] == s[i].fingerprint@,
        record_index(s, s[i].key@) == i,
{
    assert(has_record(s, s[i].key@));
    let j = record_index(s, s[i].key@);
    assert(s[j].key@ == s[i].key@);
}

proof fn lemma_push(s: Seq<ManagedRecord>, e: ManagedRecord)
    requires
        records_unique(s),
        !has_record(s, e.key@),
    ensures
        records_unique(s.push(e)),
        record_map(s.push(e)) == record_map(s).insert(e.key@, e.fingerprint@),
{
    let t = s.push(e);
    assert forall|i: int, j: int|
        0 <= i < t.len() && 0 <= j < t.len() && #[trigger] t[i].key@ == #[trigger] t[j].key@
            implies i == j by {
        if i < s.len() && j == s.len() {
            assert(s[i] == t[i]);
            assert(has_record(s, e.key@));
        }
        if j < s.len() && i == s.len() {
            assert(s[j] == t[j]);
            assert(has_record(s, e.key@));
        }
        if i < s.len() && j < s.len() {
            assert(s[i] == t[i] && s[j] == t[j]);
        }
    }
    assert forall|k: Seq<char>| has_record(t, k) <==> (has_record(s, k) || k == e.key@) by {
        if has_record(t, k) {
            let j = choose|j: int| 0 <= j < t.len() && #[trigger] t[j].key@ == k;
            if j < s.len() {
                assert(t[j] == s[j]);
            }
        }
        if has_record(s, k) {
            let j = choose|j: int| 0 <= j < s.len() && #[trigger] s[j].key@ == k;
            assert(t[j] == s[j]);
        }
        if k == e.key@ {
            assert(t[s.len() as int].key@ == k);
        }
    }
    assert forall|k: Seq<char>| #[trigger] record_map(t).dom().contains(k) implies record_map(t)[k]
        == record_map(s).insert(e.key@, e.fingerprint@)[k] by {
        let j = record_index(t, k);
        lemma_record_at(t, j);
        if j < s.len() {
            assert(t[j] == s[j]);
            lemma_record_at(s, j);
        }
    }
    assert(record_map(t) =~= record_map(s).insert(e.key@, e.fingerprint@));
}

proof fn lemma_remove(s: Seq<ManagedRecord>, i: int)
    requires
        records_unique(s),
        0 <= i < s.len(),
    ensures
        records_unique(s.remove(i)),
        record_map(s.remove(i)) == record_map(s).remove(s[i].key@),
{
    let t = s.remove(i);
    let gone = s[i].key@;
    assert forall|a: int| 0 <= a < t.len() implies #[trigger] t[a] == s[if a < i {
        a
    } else {
        a + 1
    }] by {}
    assert forall|a: int, b: int|
        0 <= a < t.len() && 0 <= b < t.len() && #[trigger] t[a].key@ == #[trigger] t[b].key@
            implies a == b by {
        let a2 = if a < i { a } else { a + 1 };
        let b2 = if b < i { b } else { b + 1 };
        assert(t[a] == s[a2] && t[b] == s[b2]);
    }
    assert forall|k: Seq<char>| has_record(t, k) <==> (has_record(s, k) && k != gone) by {
        if has_record(t, k) {
            let a = choose|a: int| 0 <= a < t.len() && #[trigger] t[a].key@ == k;
            let a2 = if a < i { a } else { a + 1 };
            assert(t[a] == s[a2]);
            assert(s[a2].key@ == k);
        }
        if has_record(s, k) && k != gone {
            let a = choose|a: int| 0 <= a < s.len() && #[trigger] s[a].key@ == k;
            assert(a != i);
            let a1 = if a < i { a } else { a - 1 };
            assert(t[a1] == s[a]);
            assert(t[a1].key@ == k);
        }
    }
    assert forall|k: Seq<char>| #[trigger] record_map(t).dom().contains(k) implies record_map(t)[k]
        == record_map(s).remove(gone)[k] by {
        let a = record_index(t, k);
        lemma_record_at(t, a);
        let a2 = if a < i { a } else { a + 1 };
        assert(t[a] == s[a2]);
        lemma_record_at(s, a2);
    }
    assert(record_map(t) =~= record_map(s).remove(gone));
}

/// The records of one domain.
pub struct StateStore {
    records: Vec<ManagedRecord>,
}

impl StateStore {
    /// Keys are unique.
    pub closed spec fn wf(&self) -> bool {
        records_unique(self.records@)
    }

    /// The recorded fingerprint of every managed key.
    pub closed spec fn view(&self) -> Map<Seq<char>, Seq<char>> {
        record_map(self.records@)
    }

    pub closed spec fn spec_records(&self) -> Seq<ManagedRecord> {
        self.records@
    }

    /// An empty store.
    pub fn new() -> (r: StateStore)
        ensures
            r.wf(),
            r.view() == Map::<Seq<char>, Seq<char>>::empty(),
    {
        let r = StateStore { records: Vec::new() };
        proof {
            assert(r.view() =~= Map::<Seq<char>, Seq<char>>::empty());
        }
        r
    }

    /// The records, each key once.
    pub fn records(&self) -> (r: &Vec<ManagedRecord>)
        ensures
            r@ == self.spec_records(),
    {
        &self.records
    }

    fn position(&self, key: &String) -> (r: Option<usize>)
        requires
            self.wf(),
        ensures
            r matches Some(i) ==> i < self.records@.len() && self.records@[i as int].key@ == key@,
            r is None ==> !has_record(self.records@, key@),
    {
        let mut i: usize = 0;
        while i < self.records.len()
            invariant
                i <= self.records@.len(),
                forall|j: int| 0 <= j < i ==> #[trigger] self.records@[j].key@ != key@,
            decreases self.records@.len() - i,
        {
            if self.records[i].key == *key {
                return Some(i);
            }
            i += 1;
        }
        None
    }

    /// The record kept for `key`, if any.
    pub fn get(&self, key: &String) -> (r: Option<&ManagedRecord>)
        requires
            self.wf(),
        ensures
            r is None <==> !self.view().dom().contains(key@),
            r matches Some(rec) ==> rec.key@ == key@ && rec.fingerprint@ == self.view()[key@]
                && has_record(self.spec_records(), key@) && *rec == self.spec_records()[record_index(
                self.spec_records(),
                key@,
            )],
    {
        match self.position(key) {
            Some(i) => {
                proof {
                    lemma_record_at(self.records@, i as int);
                }
                Some(&self.records[i])
            },
            None => None,
        }
    }

    /// The record of `key` is managed and was last updated at `now`.
    pub open spec fn stamped(&self, key: Seq<char>, now: u64) -> bool {
        &&& has_record(self.spec_records(), key)
        &&& self.spec_records()[record_index(self.spec_records(), key)].last_updated == now
        &&& self.spec_records()[record_index(self.spec_records(), key)].managed
    }

    /// Whether `key` has a record.
    pub fn is_recorded(&self, key: &String) -> (r: bool)
        requires
            self.wf(),
        ensures
            r == self.view().dom().contains(key@),
    {
        self.position(key).is_some()
    }

    /// Records `key` as applied with `fingerprint` at time `now`.
    pub fn upsert(&mut self, key: &String, fingerprint: &String, now: u64)
        requires
            old(self).wf(),
        ensures
            final(self).wf(),
            final(self).view() == old(self).view().insert(key@, fingerprint@),
            has_record(final(self).spec_records(), key@),
            final(self).spec_records()[record_index(final(self).spec_records(), key@)].last_updated
                == now,
            final(self).spec_records()[record_index(final(self).spec_records(), key@)].managed,
    {
        self.forget(key);
        let rec = ManagedRecord {
            key: key.clone(),
            fingerprint: fingerprint.clone(),
            last_updated: now,
            managed: true,
        };
        proof {
            lemma_push(self.records@, rec);
        }
        self.records.push(rec);
        proof {
            lemma_record_at(self.records@, self.records@.len() - 1);
        }
    }

    /// Forgets `key`.
    pub fn forget(&mut self, key: &String)
        requires
            old(self).wf(),
        ensures
            final(self).wf(),
            final(self).view() == old(self).view().remove(key@),
            !has_record(final(self).spec_records(), key@),
    {
        match self.position(key) {
            Some(i) => {
                proof {
                    lemma_remove(self.records@, i as int);
                }
                let _ = self.records.remove(i);
                proof {
                    assert(!record_map(self.records@).dom().contains(key@));
                }
            },
            None => {
                proof {
                    assert(self.view() =~= self.view().remove(key@));
                }
            },
        }
    }

    /// Brings the store up to date after `action` on `key` succeeded; the
    /// fingerprint is that of the descriptor just applied or adopted.
    pub fn record_outcome(&mut self, key: &String, action: Action, fingerprint: &String, now: u64)
        requires
            old(self).wf(),
        ensures
            final(self).wf(),
            final(self).view() == after_outcome(old(self).view(), key@, action, fingerprint@),
            records_action(action) ==> final(self).stamped(key@, now),
    {
        match action {
            Action::Skip => {},
            Action::Delete => self.forget(key),
            _ => self.upsert(key, fingerprint, now),
        }
    }

    /// The recorded fingerprints, as the `prior` input of a plan.
    pub fn prior_entries(&self) -> (r: Vec<Entry>)
        requires
            self.wf(),
        ensures
            keys_unique(r@),
            fingerprints(r@) == self.view(),
    {
        let mut r: Vec<Entry> = Vec::new();
        let mut i: usize = 0;
        while i < self.records.len()
            invariant
                i <= self.records@.len(),
                r@.len() == i,
                self.wf(),
                forall|j: int|
                    0 <= j < i ==> #[trigger] r@[j].key@ == self.records@[j].key@
                        && r@[j].fingerprint@ == self.records@[j].fingerprint@,
            decreases self.records@.len() - i,
        {
            r.push(
                Entry {
                    key: self.records[i].key.clone(),
                    fingerprint: self.records[i].fingerprint.clone(),
                },
            );
            i += 1;
        }
        proof {
            assert(keys_unique(r@)) by {
                assert forall|a: int, b: int|
                    0 <= a < r@.len() && 0 <= b < r@.len() && #[trigger] r@[a].key@
                        == #[trigger] r@[b].key@ implies a == b by {
                    assert(self.records@[a].key@ == self.records@[b].key@);
                }
            }
            assert forall|k: Seq<char>| has_key(r@, k) <==> has_record(self.records@, k) by {
                if has_key(r@, k) {
                    let a = choose|a: int| 0 <= a < r@.len() && #[trigger] r@[a].key@ == k;
                    assert(self.records@[a].key@ == k);
                }
                if has_record(self.records@, k) {
                    let a = choose|a: int| 0 <= a < self.records@.len() && #[trigger] self.records@[a].key@ == k;
                    assert(r@[a].key@ == k);
                }
            }
            assert forall|k: Seq<char>| #[trigger] fingerprints(r@).dom().contains(k) implies fingerprints(r@)[k]
                == self.view()[k] by {
                let a = choose|a: int| 0 <= a < r@.len() && #[trigger] r@[a].key@ == k;
                lemma_fingerprint_at(r@, a);
                lemma_record_at(self.records@, a);
            }
            assert(fingerprints(r@) =~= self.view());
        }
        r
    }
}

} // verus!
