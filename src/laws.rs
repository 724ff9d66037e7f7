//! Properties that hold across classification, confirmation and the record store.
use vstd::prelude::*;
use crate::engine::{Action, Verdict, action_of, get, overridden, verdict_in};
use crate::store::after_outcome;
use crate::accounts::{CurrentUser, UserSpec, create_user_error, modify_user_error};
use crate::validate::{id_valid, name_valid};
use crate::container::{ContainerSpec, container_preimage, container_verdict_of, flags_text, wants_autostart};
use vstd::utf8::{encode_utf8, encode_utf8_decode_utf8};

verus! {

/// Idempotence: once the action chosen for a declared key has succeeded and
/// been recorded, a second run in which the machine matches the declaration
/// classifies the key as `Skip`, also under the no-recreate override.
pub proof fn lemma_second_run_skips(
    declared: Map<Seq<char>, Seq<char>>,
    current: Map<Seq<char>, Seq<char>>,
    prior: Map<Seq<char>, Seq<char>>,
    key: Seq<char>,
    in_place: bool,
    adopt: bool,
    delete: bool,
    observed_after: Map<Seq<char>, Seq<char>>,
)
    requires
        declared.dom().contains(key),
        get(observed_after, key) == Some(declared[key]),
    ensures
        ({
            let action = action_of(verdict_in(declared, current, prior, key, in_place), adopt, delete);
            let recorded = after_outcome(prior, key, action, declared[key]);
            &&& verdict_in(declared, observed_after, recorded, key, in_place) == Verdict::Skip
            &&& overridden(verdict_in(declared, observed_after, recorded, key, in_place), false, true)
                == Verdict::Skip
        }),
{
}

/// The fingerprint recorded for a key after its action succeeds: the
/// declared one, or for an adopted key the observed one.
pub open spec fn applied_fingerprint(
    declared: Map<Seq<char>, Seq<char>>,
    current: Map<Seq<char>, Seq<char>>,
    key: Seq<char>,
) -> Seq<char> {
    if declared.dom().contains(key) {
        declared[key]
    } else {
        current[key]
    }
}

/// The records after every key of a plan, in order, had its action succeed.
/// The verdicts are those of the plan, taken against the records as they were
/// before the run; `answers` gives the adopt and delete answers per key.
pub open spec fn records_after_run(
    declared: Map<Seq<char>, Seq<char>>,
    current: Map<Seq<char>, Seq<char>>,
    prior: Map<Seq<char>, Seq<char>>,
    keys: Seq<Seq<char>>,
    in_place: bool,
    answers: spec_fn(Seq<char>) -> (bool, bool),
) -> Map<Seq<char>, Seq<char>>
    decreases keys.len(),
{
    if keys.len() == 0 {
        prior
    } else {
        let k = keys.last();
        after_outcome(
            records_after_run(declared, current, prior, keys.drop_last(), in_place, answers),
            k,
            action_of(verdict_in(declared, current, prior, k, in_place), answers(k).0, answers(k).1),
            applied_fingerprint(declared, current, k),
        )
    }
}

proof fn lemma_run_records(
    declared: Map<Seq<char>, Seq<char>>,
    current: Map<Seq<char>, Seq<char>>,
    prior: Map<Seq<char>, Seq<char>>,
    keys: Seq<Seq<char>>,
    in_place: bool,
    answers: spec_fn(Seq<char>) -> (bool, bool),
    key: Seq<char>,
)
    requires
        keys.no_duplicates(),
    ensures
        !keys.contains(key) ==> get(records_after_run(declared, current, prior, keys, in_place, answers), key)
            == get(prior, key),
        keys.contains(key) && declared.dom().contains(key) ==> get(
            records_after_run(declared, current, prior, keys, in_place, answers),
            key,
        ) == Some(declared[key]),
    decreases keys.len(),
{
    if keys.len() > 0 {
        let rest = keys.drop_last();
        assert(rest.no_duplicates()) by {
            assert forall|i: int, j: int| 0 <= i < rest.len() && 0 <= j < rest.len() && i != j implies rest[i]
                != rest[j] by {
                assert(rest[i] == keys[i] && rest[j] == keys[j]);
            }
        }
        lemma_run_records(declared, current, prior, rest, in_place, answers, key);
        if keys.last() != key {
            if keys.contains(key) {
                let i = choose|i: int| 0 <= i < keys.len() && keys[i] == key;
                assert(rest[i] == key);
            }
            if rest.contains(key) {
                let i = choose|i: int| 0 <= i < rest.len() && rest[i] == key;
                assert(keys[i] == key);
            }
        } else {
            assert(!rest.contains(key)) by {
                if rest.contains(key) {
                    let i = choose|i: int| 0 <= i < rest.len() && rest[i] == key;
                    assert(keys[i] == keys[keys.len() - 1]);
                }
            }
        }
    }
}

/// Idempotence over a whole run: after every action of a plan succeeded and
/// was recorded, a second run in which the machine matches the declaration
/// classifies every declared key of the plan as `Skip`.
pub proof fn lemma_run_twice_skips(
    declared: Map<Seq<char>, Seq<char>>,
    current: Map<Seq<char>, Seq<char>>,
    prior: Map<Seq<char>, Seq<char>>,
    keys: Seq<Seq<char>>,
    in_place: bool,
    answers: spec_fn(Seq<char>) -> (bool, bool),
    observed_after: Map<Seq<char>, Seq<char>>,
    key: Seq<char>,
)
    requires
        keys.no_duplicates(),
        keys.contains(key),
        declared.dom().contains(key),
        get(observed_after, key) == Some(declared[key]),
    ensures
        verdict_in(
            declared,
            observed_after,
            records_after_run(declared, current, prior, keys, in_place, answers),
            key,
            in_place,
        ) == Verdict::Skip,
{
    lemma_run_records(declared, current, prior, keys, in_place, answers, key);
}

/// Recording the outcome for one key leaves every other key's record as it was,
/// so the outcomes of a whole run can be taken one key at a time.
pub proof fn lemma_outcome_is_local(
    prior: Map<Seq<char>, Seq<char>>,
    key: Seq<char>,
    action: Action,
    fingerprint: Seq<char>,
    other: Seq<char>,
)
    requires
        other != key,
    ensures
        get(after_outcome(prior, key, action, fingerprint), other) == get(prior, other),
{
}

/// Convergence: a declared key that exists and whose declared fingerprint
/// differs from its recorded one is updated (or recreated), never skipped.
pub proof fn lemma_changed_is_applied(
    declared: Map<Seq<char>, Seq<char>>,
    current: Map<Seq<char>, Seq<char>>,
    prior: Map<Seq<char>, Seq<char>>,
    key: Seq<char>,
    in_place: bool,
)
    requires
        declared.dom().contains(key),
        current.dom().contains(key),
        prior.dom().contains(key),
        prior[key] != declared[key],
    ensures
        verdict_in(declared, current, prior, key, in_place) == (if in_place {
            Verdict::Update
        } else {
            Verdict::Recreate
        }),
        verdict_in(declared, current, prior, key, in_place) != Verdict::Skip,
{
}

/// No silent adoption: a key that is neither declared nor recorded gets a
/// record only when adoption was answered yes.
pub proof fn lemma_no_silent_adoption(
    declared: Map<Seq<char>, Seq<char>>,
    current: Map<Seq<char>, Seq<char>>,
    prior: Map<Seq<char>, Seq<char>>,
    key: Seq<char>,
    in_place: bool,
    adopt: bool,
    delete: bool,
    fingerprint: Seq<char>,
)
    requires
        !declared.dom().contains(key),
        !prior.dom().contains(key),
    ensures
        after_outcome(
            prior,
            key,
            action_of(verdict_in(declared, current, prior, key, in_place), adopt, delete),
            fingerprint,
        ).dom().contains(key) ==> adopt,
{
}

/// Orphan isolation: a resource present on the machine that the engine never
/// recorded is not an orphan, whether or not it was ever declared; it is
/// deleted only where deletion was answered yes and adoption was not.
pub proof fn lemma_unrecorded_is_not_orphan(
    declared: Map<Seq<char>, Seq<char>>,
    current: Map<Seq<char>, Seq<char>>,
    prior: Map<Seq<char>, Seq<char>>,
    key: Seq<char>,
    in_place: bool,
    adopt: bool,
    delete: bool,
)
    requires
        !declared.dom().contains(key),
        !prior.dom().contains(key),
        current.dom().contains(key),
    ensures
        verdict_in(declared, current, prior, key, in_place) == Verdict::Undeclared,
        action_of(verdict_in(declared, current, prior, key, in_place), adopt, delete)
            == Action::Delete ==> delete && !adopt,
        action_of(verdict_in(declared, current, prior, key, in_place), false, false)
            == Action::Skip,
{
}

/// Validation gating for new users: an invalid name or an out-of-range user
/// id always yields an error, so no operation is planned for that user.
pub proof fn lemma_invalid_user_refused(name: String, spec: UserSpec, shells: Seq<String>)
    requires
        !name_valid(name@) || (spec.uid matches Some(u) && !id_valid(u)),
    ensures
        create_user_error(name, spec, shells) is Some,
{
}

/// Validation gating for existing users: an invalid name or a new user id
/// out of range always yields an error, so none of the user's changes is
/// planned.
pub proof fn lemma_invalid_user_change_refused(
    name: String,
    current: CurrentUser,
    desired: UserSpec,
    shells: Seq<String>,
)
    requires
        !name_valid(name@) || (desired.uid matches Some(u) && u != current.uid && !id_valid(u)),
    ensures
        modify_user_error(name, current, desired, shells) is Some,
{
}

proof fn lemma_middle_determined(pre: Seq<u8>, m1: Seq<u8>, m2: Seq<u8>, post: Seq<u8>)
    requires
        pre + m1 + post == pre + m2 + post,
    ensures
        m1 == m2,
{
    let a = pre + m1 + post;
    let b = pre + m2 + post;
    assert(a.len() == b.len());
    assert(m1 =~= a.subrange(pre.len() as int, (pre.len() + m1.len()) as int));
    assert(m2 =~= b.subrange(pre.len() as int, (pre.len() + m2.len()) as int));
}

/// Convergence for containers, on what the fingerprint covers: a container
/// whose declaration changed in one attribute (its image, its flags, or
/// either start setting) is hashed from different bytes.
pub proof fn lemma_container_change_changes_preimage(a: ContainerSpec, b: ContainerSpec)
    requires
        a.name@ == b.name@,
        a.image@ != b.image@ && flags_text(a) == flags_text(b) && a.start_after_creation
            == b.start_after_creation && wants_autostart(a) == wants_autostart(b) || a.image@
            == b.image@ && flags_text(a) != flags_text(b) && a.start_after_creation
            == b.start_after_creation && wants_autostart(a) == wants_autostart(b) || a.image@
            == b.image@ && flags_text(a) == flags_text(b) && a.start_after_creation
            != b.start_after_creation && wants_autostart(a) == wants_autostart(b) || a.image@
            == b.image@ && flags_text(a) == flags_text(b) && a.start_after_creation
            == b.start_after_creation && wants_autostart(a) != wants_autostart(b),
    ensures
        container_preimage(a) != container_preimage(b),
{
    let n = encode_utf8(a.name@);
    let sa = seq![if a.start_after_creation { 1u8 } else { 0u8 }];
    let sb = seq![if b.start_after_creation { 1u8 } else { 0u8 }];
    let aa = seq![if wants_autostart(a) { 1u8 } else { 0u8 }];
    let ab = seq![if wants_autostart(b) { 1u8 } else { 0u8 }];
    let ia = encode_utf8(a.image@);
    let ib = encode_utf8(b.image@);
    let fa = encode_utf8(flags_text(a));
    let fb = encode_utf8(flags_text(b));
    assert(container_preimage(a) == n + ia + fa + sa + aa);
    assert(container_preimage(b) == n + ib + fb + sb + ab);
    if container_preimage(a) == container_preimage(b) {
        let pa = container_preimage(a);
        let pb = container_preimage(b);
        if a.image@ != b.image@ {
            assert(pa =~= n + ia + (fa + sa + aa));
            assert(pb =~= n + ib + (fa + sa + aa));
            lemma_middle_determined(n, ia, ib, fa + sa + aa);
            encode_utf8_decode_utf8(a.image@);
            encode_utf8_decode_utf8(b.image@);
        } else if flags_text(a) != flags_text(b) {
            assert(pa =~= (n + ia) + fa + (sa + aa));
            assert(pb =~= (n + ia) + fb + (sa + aa));
            lemma_middle_determined(n + ia, fa, fb, sa + aa);
            encode_utf8_decode_utf8(flags_text(a));
            encode_utf8_decode_utf8(flags_text(b));
        } else if a.start_after_creation != b.start_after_creation {
            assert(pa[pa.len() - 2] == sa[0]);
            assert(pb[pb.len() - 2] == sb[0]);
        } else {
            assert(pa[pa.len() - 1] == aa[0]);
            assert(pb[pb.len() - 1] == ab[0]);
        }
    }
}

/// Convergence for containers: an existing container whose fingerprint
/// differs from the recorded one is recreated, never skipped, unless the
/// no-recreate override holds it back.
pub proof fn lemma_changed_container_recreated(
    fingerprint: Seq<char>,
    recorded: Seq<char>,
    force_recreate: bool,
)
    requires
        fingerprint != recorded,
    ensures
        container_verdict_of(fingerprint, true, Some(recorded), force_recreate, false)
            == Verdict::Recreate,
        container_verdict_of(fingerprint, true, Some(recorded), false, true) == Verdict::Skip,
{
}

/// A declared key whose observed fingerprint differs from the declared one
/// (a service out of its declared state, an account that drifted) is
/// updated, or recreated, never skipped.
pub proof fn lemma_drift_is_applied(
    declared: Map<Seq<char>, Seq<char>>,
    current: Map<Seq<char>, Seq<char>>,
    prior: Map<Seq<char>, Seq<char>>,
    key: Seq<char>,
    in_place: bool,
)
    requires
        declared.dom().contains(key),
        current.dom().contains(key),
        current[key] != declared[key],
    ensures
        verdict_in(declared, current, prior, key, in_place) == (if in_place {
            Verdict::Update
        } else {
            Verdict::Recreate
        }),
{
}

/// A run with nothing to do asks nothing: where every observed and every
/// recorded key is declared, no key is an orphan or undeclared, so no
/// question is put; where moreover every declared key is observed and
/// recorded with its declared fingerprint, every key is skipped.
pub proof fn lemma_in_sync_asks_nothing(
    declared: Map<Seq<char>, Seq<char>>,
    current: Map<Seq<char>, Seq<char>>,
    prior: Map<Seq<char>, Seq<char>>,
    key: Seq<char>,
    in_place: bool,
)
    requires
        current.dom().subset_of(declared.dom()),
        prior.dom().subset_of(declared.dom()),
    ensures
        verdict_in(declared, current, prior, key, in_place) != Verdict::Orphan,
        verdict_in(declared, current, prior, key, in_place) != Verdict::Undeclared,
        current == declared && prior == declared ==> verdict_in(declared, current, prior, key, in_place)
            == Verdict::Skip,
{
    if !declared.dom().contains(key) {
        assert(!current.dom().contains(key));
        assert(!prior.dom().contains(key));
    }
}

} // verus!
