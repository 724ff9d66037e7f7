//! The reconciliation core: classification of one key and of whole domains.
use vstd::prelude::*;

verus! {

/// The engine's decision for one key before any confirmation is consulted.
#[derive(Clone, Copy, Debug, PartialEq, Eq, Structural)]
pub enum Verdict {
    /// Declared, present, and already matching its record.
    Skip,
    /// Declared but absent from the machine.
    Create,
    /// Declared and present, but not known to match; changed in place.
    Update,
    /// Declared and present, but not known to match; removed and created anew.
    Recreate,
    /// Recorded as managed but no longer declared: a deletion candidate.
    Orphan,
    /// Present on the machine, never declared and never managed.
    Undeclared,
}

/// The action finally taken for one key in one run.
#[derive(Clone, Copy, Debug, PartialEq, Eq, Structural)]
pub enum Action {
    Skip,
    Create,
    Update,
    Recreate,
    Delete,
    AdoptIntoConfig,
}

/// Classification of one key from its declared fingerprint, its observed
/// fingerprint and its recorded fingerprint (`None` where the key is absent).
pub open spec fn verdict_of(
    declared: Option<Seq<char>>,
    current: Option<Seq<char>>,
    prior: Option<Seq<char>>,
    in_place: bool,
) -> Verdict {
    match declared {
        Some(d) => match current {
            None => Verdict::Create,
            Some(c) => if prior == Some(d) && c == d {
                Verdict::Skip
            } else if in_place {
                Verdict::Update
            } else {
                Verdict::Recreate
            },
        },
        None => if prior is Some {
            Verdict::Orphan
        } else if current is Some {
            Verdict::Undeclared
        } else {
            Verdict::Skip
        },
    }
}

pub open spec fn view_opt(o: Option<&String>) -> Option<Seq<char>> {
    match o {
        Some(s) => Some(s@),
        None => None,
    }
}

/// Classifies one key. `in_place` says whether the resource kind can be
/// changed in place; where it cannot, a change is a recreation.
pub fn classify(
    declared: Option<&String>,
    current: Option<&String>,
    prior: Option<&String>,
    in_place: bool,
) -> (r: Verdict)
    ensures
        r == verdict_of(view_opt(declared), view_opt(current), view_opt(prior), in_place),
{
    match declared {
        Some(d) => match current {
            None => Verdict::Create,
            Some(c) => {
                let matches_record = match prior {
                    Some(p) => *p == *d,
                    None => false,
                };
                if matches_record && *c == *d {
                    Verdict::Skip
                } else if in_place {
                    Verdict::Update
                } else {
                    Verdict::Recreate
                }
            },
        },
        None => if prior.is_some() {
            Verdict::Orphan
        } else if current.is_some() {
            Verdict::Undeclared
        } else {
            Verdict::Skip
        },
    }
}


/// Container overrides from the command line: recreate what exists, or
/// recreate nothing. Forcing wins where both are given.
pub open spec fn overridden(v: Verdict, force_recreate: bool, no_recreate: bool) -> Verdict {
    match v {
        Verdict::Skip | Verdict::Update | Verdict::Recreate => if force_recreate {
            Verdict::Recreate
        } else if no_recreate {
            Verdict::Skip
        } else {
            v
        },
        _ => v,
    }
}

/// Applies the container overrides to a verdict. A new resource is still
/// created; keys that are not declared are left to the confirmation path.
pub fn apply_overrides(v: Verdict, force_recreate: bool, no_recreate: bool) -> (r: Verdict)
    ensures
        r == overridden(v, force_recreate, no_recreate),
{
    match v {
        Verdict::Skip | Verdict::Update | Verdict::Recreate => if force_recreate {
            Verdict::Recreate
        } else if no_recreate {
            Verdict::Skip
        } else {
            v
        },
        _ => v,
    }
}

/// A question put to the confirmation policy.
#[derive(Clone, Copy, Debug, PartialEq, Eq, Structural)]
pub enum Question {
    /// Write the observed descriptor back into the configuration?
    Adopt,
    /// Delete the resource from the machine?
    Delete,
}

/// The action for a verdict, given the answers to both questions. An orphan
/// is deleted only on a yes; an undeclared resource is adopted on a yes, else
/// deleted on a yes, else left alone.
pub open spec fn action_of(v: Verdict, adopt: bool, delete: bool) -> Action {
    match v {
        Verdict::Skip => Action::Skip,
        Verdict::Create => Action::Create,
        Verdict::Update => Action::Update,
        Verdict::Recreate => Action::Recreate,
        Verdict::Orphan => if delete {
            Action::Delete
        } else {
            Action::Skip
        },
        Verdict::Undeclared => if adopt {
            Action::AdoptIntoConfig
        } else if delete {
            Action::Delete
        } else {
            Action::Skip
        },
    }
}

/// Where the resolution of a verdict stands: a question to ask, or the action.
#[derive(Clone, Copy, Debug, PartialEq, Eq, Structural)]
pub enum Step {
    Ask(Question),
    Done(Action),
}

/// Resolves a verdict from the answers received so far (`None`: not asked yet).
pub fn resolve_step(v: Verdict, adopt: Option<bool>, delete: Option<bool>) -> (r: Step)
    ensures
        v == Verdict::Orphan ==> r == match delete {
            None => Step::Ask(Question::Delete),
            Some(dl) => Step::Done(action_of(v, false, dl)),
        },
        v == Verdict::Undeclared ==> r == match adopt {
            None => Step::Ask(Question::Adopt),
            Some(true) => Step::Done(Action::AdoptIntoConfig),
            Some(false) => match delete {
                None => Step::Ask(Question::Delete),
                Some(dl) => Step::Done(action_of(v, false, dl)),
            },
        },
        v != Verdict::Orphan && v != Verdict::Undeclared ==> r == Step::Done(
            action_of(v, false, false),
        ),
{
    match v {
        Verdict::Skip => Step::Done(Action::Skip),
        Verdict::Create => Step::Done(Action::Create),
        Verdict::Update => Step::Done(Action::Update),
        Verdict::Recreate => Step::Done(Action::Recreate),
        Verdict::Orphan => match delete {
            None => Step::Ask(Question::Delete),
            Some(dl) => Step::Done(resolve(v, false, dl)),
        },
        Verdict::Undeclared => match adopt {
            None => Step::Ask(Question::Adopt),
            Some(true) => Step::Done(Action::AdoptIntoConfig),
            Some(false) => match delete {
                None => Step::Ask(Question::Delete),
                Some(dl) => Step::Done(resolve(v, false, dl)),
            },
        },
    }
}

/// The action for a verdict once both answers are known.
pub fn resolve(v: Verdict, adopt: bool, delete: bool) -> (r: Action)
    ensures
        r == action_of(v, adopt, delete),
{
    match v {
        Verdict::Skip => Action::Skip,
        Verdict::Create => Action::Create,
        Verdict::Update => Action::Update,
        Verdict::Recreate => Action::Recreate,
        Verdict::Orphan => if delete {
            Action::Delete
        } else {
            Action::Skip
        },
        Verdict::Undeclared => if adopt {
            Action::AdoptIntoConfig
        } else if delete {
            Action::Delete
        } else {
            Action::Skip
        },
    }
}

/// A key with the fingerprint of a descriptor: declared, observed or recorded.
#[derive(Clone, Debug)]
pub struct Entry {
    pub key: String,
    pub fingerprint: String,
}

/// No two entries share a key.
pub open spec fn keys_unique(s: Seq<Entry>) -> bool {
    forall|i: int, j: int|
        0 <= i < s.len() && 0 <= j < s.len() && #[trigger] s[i].key@ == #[trigger] s[j].key@
            ==> i == j
}

pub open spec fn has_key(s: Seq<Entry>, k: Seq<char>) -> bool {
    exists|i: int| 0 <= i < s.len() && #[trigger] s[i].key@ == k
}

/// The entries as a map from key to fingerprint.
pub open spec fn fingerprints(s: Seq<Entry>) -> Map<Seq<char>, Seq<char>> {
    Map::new(
        |k: Seq<char>| has_key(s, k),
        |k: Seq<char>| s[choose|i: int| 0 <= i < s.len() && #[trigger] s[i].key@ == k].fingerprint@,
    )
}

pub open spec fn get(m: Map<Seq<char>, Seq<char>>, k: Seq<char>) -> Option<Seq<char>> {
    if m.dom().contains(k) {
        Some(m[k])
    } else {
        None
    }
}

/// Classification of `k` over three domain maps.
pub open spec fn verdict_in(
    declared: Map<Seq<char>, Seq<char>>,
    current: Map<Seq<char>, Seq<char>>,
    prior: Map<Seq<char>, Seq<char>>,
    k: Seq<char>,
    in_place: bool,
) -> Verdict {
    verdict_of(get(declared, k), get(current, k), get(prior, k), in_place)
}

pub proof fn lemma_fingerprint_at(s: Seq<Entry>, i: int)
    requires
        keys_unique(s),
        0 <= i < s.len(),
    ensures
        fingerprints(s).dom().contains(s[i].key@),
        fingerprints(s)[s[i].key@] == s[i].fingerprint@,
{
    let k = s[i].key@;
    assert(has_key(s, k));
    let j = choose|j: int| 0 <= j < s.len() && #[trigger] s[j].key@ == k;
    assert(s[j].key@ == s[i].key@);
}

/// Finds the entry with key `k`.
pub fn lookup<'a>(s: &'a Vec<Entry>, k: &String) -> (r: Option<&'a String>)
    requires
        keys_unique(s@),
    ensures
        view_opt(r) == get(fingerprints(s@), k@),
{
    let mut i: usize = 0;
    while i < s.len()
        invariant
            i <= s.len(),
            keys_unique(s@),
            forall|j: int| 0 <= j < i ==> #[trigger] s@[j].key@ != k@,
        decreases s.len() - i,
    {
        if s[i].key == *k {
            proof {
                lemma_fingerprint_at(s@, i as int);
            }
            return Some(&s[i].fingerprint);
        }
        i += 1;
    }
    proof {
        assert(!has_key(s@, k@));
    }
    None
}

/// One line of a plan: a key and its verdict.
#[derive(Clone, Debug)]
pub struct PlanItem {
    pub key: String,
    pub verdict: Verdict,
}

pub open spec fn plan_keys_unique(s: Seq<PlanItem>) -> bool {
    forall|i: int, j: int|
        0 <= i < s.len() && 0 <= j < s.len() && #[trigger] s[i].key@ == #[trigger] s[j].key@
            ==> i == j
}

pub open spec fn plan_has_key(s: Seq<PlanItem>, k: Seq<char>) -> bool {
    exists|i: int| 0 <= i < s.len() && #[trigger] s[i].key@ == k
}

fn push_new(r: &mut Vec<PlanItem>, key: &String, v: Verdict)
    requires
        plan_keys_unique(old(r)@),
        !plan_has_key(old(r)@, key@),
    ensures
        final(r)@.len() == old(r)@.len() + 1,
        forall|j: int| 0 <= j < old(r)@.len() ==> #[trigger] final(r)@[j] == old(r)@[j],
        final(r)@.last().key@ == key@,
        final(r)@.last().verdict == v,
        plan_keys_unique(final(r)@),
        forall|k: Seq<char>| plan_has_key(final(r)@, k) <==> (plan_has_key(old(r)@, k) || k == key@),
{
    let ghost before = r@;
    r.push(PlanItem { key: key.clone(), verdict: v });
    proof {
        assert forall|a: int, b: int|
            0 <= a < r.len() && 0 <= b < r.len() && #[trigger] r@[a].key@ == #[trigger] r@[b].key@
                implies a == b by {
            if a < before.len() {
                assert(before[a] == r@[a]);
            }
            if b < before.len() {
                assert(before[b] == r@[b]);
            }
            if a < before.len() && b == before.len() {
                assert(plan_has_key(before, r@[a].key@));
            }
            if b < before.len() && a == before.len() {
                assert(plan_has_key(before, r@[b].key@));
            }
        }
        assert forall|k: Seq<char>|
            plan_has_key(r@, k) <==> (plan_has_key(before, k) || k == key@) by {
            if plan_has_key(r@, k) {
                let j = choose|j: int| 0 <= j < r.len() && #[trigger] r@[j].key@ == k;
                if j < before.len() {
                    assert(before[j] == r@[j]);
                }
            }
            if plan_has_key(before, k) {
                let j = choose|j: int| 0 <= j < before.len() && #[trigger] before[j].key@ == k;
                assert(before[j] == r@[j]);
            }
            if k == key@ {
                assert(r@[before.len() as int].key@ == k);
            }
        }
    }
}

/// Classifies every key of a domain: each declared key, then each recorded key
/// that is no longer declared, then each observed key that is neither.
pub fn plan(declared: &Vec<Entry>, current: &Vec<Entry>, prior: &Vec<Entry>, in_place: bool) -> (r:
    Vec<PlanItem>)
    requires
        keys_unique(declared@),
        keys_unique(current@),
        keys_unique(prior@),
    ensures
        plan_keys_unique(r@),
        forall|k: Seq<char>|
            plan_has_key(r@, k) <==> (has_key(declared@, k) || has_key(current@, k) || has_key(
                prior@,
                k,
            )),
        forall|i: int|
            0 <= i < r.len() ==> #[trigger] r@[i].verdict == verdict_in(
                fingerprints(declared@),
                fingerprints(current@),
                fingerprints(prior@),
                r@[i].key@,
                in_place,
            ),
{
    let ghost d = fingerprints(declared@);
    let ghost c = fingerprints(current@);
    let ghost p = fingerprints(prior@);
    let mut r: Vec<PlanItem> = Vec::new();
    let mut i: usize = 0;
    while i < declared.len()
        invariant
            i <= declared.len(),
            r.len() == i,
            keys_unique(declared@),
            keys_unique(current@),
            keys_unique(prior@),
            d == fingerprints(declared@),
            c == fingerprints(current@),
            p == fingerprints(prior@),
            forall|j: int| 0 <= j < i ==> #[trigger] r@[j].key@ == declared@[j].key@,
            forall|j: int|
                0 <= j < r.len() ==> #[trigger] r@[j].verdict == verdict_in(
                    d,
                    c,
                    p,
                    r@[j].key@,
                    in_place,
                ),
        decreases declared.len() - i,
    {
        let key = &declared[i].key;
        let v = classify(
            Some(&declared[i].fingerprint),
            lookup(current, key),
            lookup(prior, key),
            in_place,
        );
        proof {
            lemma_fingerprint_at(declared@, i as int);
        }
        r.push(PlanItem { key: key.clone(), verdict: v });
        i += 1;
    }
    assert forall|k: Seq<char>| plan_has_key(r@, k) <==> has_key(declared@, k) by {
        if plan_has_key(r@, k) {
            let j = choose|j: int| 0 <= j < r.len() && #[trigger] r@[j].key@ == k;
            assert(declared@[j].key@ == k);
        }
        if has_key(declared@, k) {
            let j = choose|j: int| 0 <= j < declared.len() && #[trigger] declared@[j].key@ == k;
            assert(r@[j].key@ == k);
        }
    }
    let mut i: usize = 0;
    while i < prior.len()
        invariant
            i <= prior.len(),
            keys_unique(declared@),
            keys_unique(current@),
            keys_unique(prior@),
            d == fingerprints(declared@),
            c == fingerprints(current@),
            p == fingerprints(prior@),
            plan_keys_unique(r@),
            forall|k: Seq<char>|
                plan_has_key(r@, k) <==> (has_key(declared@, k) || exists|j: int|
                    0 <= j < i && #[trigger] prior@[j].key@ == k),
            forall|j: int|
                0 <= j < r.len() ==> #[trigger] r@[j].verdict == verdict_in(
                    d,
                    c,
                    p,
                    r@[j].key@,
                    in_place,
                ),
        decreases prior.len() - i,
    {
        let key = &prior[i].key;
        proof {
            lemma_fingerprint_at(prior@, i as int);
            assert(prior@[i as int].key@ == key@);
        }
        if lookup(declared, key).is_none() {
            let v = classify(None, lookup(current, key), Some(&prior[i].fingerprint), in_place);
            proof {
                assert(!plan_has_key(r@, key@)) by {
                    if exists|j: int| 0 <= j < i && #[trigger] prior@[j].key@ == key@ {
                        let j = choose|j: int| 0 <= j < i && #[trigger] prior@[j].key@ == key@;
                        assert(prior@[j].key@ == prior@[i as int].key@);
                    }
                }
            }
            push_new(&mut r, key, v);
        }
        i += 1;
    }
    let mut i: usize = 0;
    while i < current.len()
        invariant
            i <= current.len(),
            keys_unique(declared@),
            keys_unique(current@),
            keys_unique(prior@),
            d == fingerprints(declared@),
            c == fingerprints(current@),
            p == fingerprints(prior@),
            plan_keys_unique(r@),
            forall|k: Seq<char>|
                plan_has_key(r@, k) <==> (has_key(declared@, k) || has_key(prior@, k) || exists|
                    j: int,
                | 0 <= j < i && #[trigger] current@[j].key@ == k),
            forall|j: int|
                0 <= j < r.len() ==> #[trigger] r@[j].verdict == verdict_in(
                    d,
                    c,
                    p,
                    r@[j].key@,
                    in_place,
                ),
        decreases current.len() - i,
    {
        let key = &current[i].key;
        proof {
            lemma_fingerprint_at(current@, i as int);
            assert(current@[i as int].key@ == key@);
        }
        if lookup(declared, key).is_none() && lookup(prior, key).is_none() {
            let v = classify(None, Some(&current[i].fingerprint), None, in_place);
            proof {
                assert(!plan_has_key(r@, key@)) by {
                    if exists|j: int| 0 <= j < i && #[trigger] current@[j].key@ == key@ {
                        let j = choose|j: int| 0 <= j < i && #[trigger] current@[j].key@ == key@;
                        assert(current@[j].key@ == current@[i as int].key@);
                    }
                }
            }
            push_new(&mut r, key, v);
        }
        i += 1;
    }
    r
}

/// The observed entry of a key whose observation is compared with its
/// declaration attribute by attribute rather than through a fingerprint: it
/// carries the declared fingerprint exactly where the two agree.
pub fn observed_entry(key: &String, declared_fingerprint: &String, agrees: bool) -> (r: Entry)
    ensures
        r.key@ == key@,
        (r.fingerprint@ == declared_fingerprint@) <==> agrees,
{
    let fingerprint = if agrees {
        declared_fingerprint.clone()
    } else {
        let mut f = declared_fingerprint.clone();
        f.append("~");
        proof {
            reveal_strlit("~");
            assert(f@.len() == declared_fingerprint@.len() + 1);
        }
        f
    };
    Entry { key: key.clone(), fingerprint }
}

/// The recorded keys that are no longer declared: exactly the keys whose
/// verdict is `Orphan`, in record order.
pub fn orphans(declared: &Vec<Entry>, prior: &Vec<Entry>) -> (r: Vec<String>)
    requires
        keys_unique(declared@),
    ensures
        forall|k: Seq<char>|
            (exists|i: int| 0 <= i < r@.len() && #[trigger] r@[i]@ == k) <==> (has_key(prior@, k)
                && !has_key(declared@, k)),
        forall|i: int|
            0 <= i < r@.len() ==> #[trigger] verdict_in(
                fingerprints(declared@),
                Map::empty(),
                fingerprints(prior@),
                r@[i]@,
                true,
            ) == Verdict::Orphan,
{
    let mut r: Vec<String> = Vec::new();
    let mut i: usize = 0;
    while i < prior.len()
        invariant
            i <= prior@.len(),
            keys_unique(declared@),
            forall|k: Seq<char>|
                (exists|j: int| 0 <= j < r@.len() && #[trigger] r@[j]@ == k) <==> ((exists|j: int|
                    0 <= j < i && #[trigger] prior@[j].key@ == k) && !has_key(declared@, k)),
            forall|j: int| 0 <= j < r@.len() ==> has_key(prior@, #[trigger] r@[j]@) && !has_key(declared@, r@[j]@),
        decreases prior@.len() - i,
    {
        let key = &prior[i].key;
        let ghost before = r@;
        if lookup_key(declared, key) {
            proof {
                assert forall|k: Seq<char>|
                    (exists|j: int| 0 <= j < r@.len() && #[trigger] r@[j]@ == k) <==> ((exists|j: int|
                        0 <= j < i + 1 && #[trigger] prior@[j].key@ == k) && !has_key(declared@, k)) by {
                    if (exists|j: int| 0 <= j < i + 1 && #[trigger] prior@[j].key@ == k) && !has_key(declared@, k) {
                        let j = choose|j: int| 0 <= j < i + 1 && #[trigger] prior@[j].key@ == k;
                        assert(j != i);
                    }
                }
            }
        } else {
            r.push(key.clone());
            proof {
                assert(has_key(prior@, key@)) by {
                    assert(prior@[i as int].key@ == key@);
                }
                assert forall|j: int| 0 <= j < r@.len() implies has_key(prior@, #[trigger] r@[j]@) && !has_key(declared@, r@[j]@) by {
                    if j < before.len() {
                        assert(r@[j] == before[j]);
                    }
                }
                assert forall|k: Seq<char>|
                    (exists|j: int| 0 <= j < r@.len() && #[trigger] r@[j]@ == k) <==> ((exists|j: int|
                        0 <= j < i + 1 && #[trigger] prior@[j].key@ == k) && !has_key(declared@, k)) by {
                    if exists|j: int| 0 <= j < r@.len() && #[trigger] r@[j]@ == k {
                        let j = choose|j: int| 0 <= j < r@.len() && #[trigger] r@[j]@ == k;
                        if j < before.len() {
                            assert(before[j]@ == k);
                        } else {
                            assert(prior@[i as int].key@ == k);
                        }
                    }
                    if (exists|j: int| 0 <= j < i + 1 && #[trigger] prior@[j].key@ == k) && !has_key(declared@, k) {
                        let j = choose|j: int| 0 <= j < i + 1 && #[trigger] prior@[j].key@ == k;
                        if j < i {
                            let m = choose|m: int| 0 <= m < before.len() && #[trigger] before[m]@ == k;
                            assert(r@[m] == before[m]);
                        } else {
                            assert(r@[before.len() as int]@ == k);
                        }
                    }
                }
            }
        }
        i += 1;
    }
    proof {
        assert forall|k: Seq<char>|
            (exists|j: int| 0 <= j < r@.len() && #[trigger] r@[j]@ == k) <==> (has_key(prior@, k)
                && !has_key(declared@, k)) by {
            if has_key(prior@, k) && !has_key(declared@, k) {
                let j = choose|j: int| 0 <= j < prior@.len() && #[trigger] prior@[j].key@ == k;
                assert(exists|j2: int| 0 <= j2 < prior@.len() && #[trigger] prior@[j2].key@ == k);
            }
        }
    }
    r
}

fn lookup_key(s: &Vec<Entry>, k: &String) -> (r: bool)
    ensures
        r == has_key(s@, k@),
{
    let mut i: usize = 0;
    while i < s.len()
        invariant
            i <= s@.len(),
            forall|j: int| 0 <= j < i ==> #[trigger] s@[j].key@ != k@,
        decreases s@.len() - i,
    {
        if s[i].key == *k {
            return true;
        }
        i += 1;
    }
    false
}

} // verus!
