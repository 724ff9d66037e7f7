use forge_reconcile::container::{
    container_fingerprint, container_ops, container_verdict, create_command, record_container_action,
    start_conflict, ContainerOp, ContainerSpec,
};
use forge_reconcile::engine::{
    apply_overrides, classify, lookup, plan, resolve, resolve_step, Action, Entry, PlanItem, Question,
    Step, Verdict,
};
use forge_reconcile::packages::{package_entries, presence_fingerprint};
use forge_reconcile::store::StateStore;

fn s(x: &str) -> String {
    x.to_string()
}

fn entry(k: &str, f: &str) -> Entry {
    Entry { key: s(k), fingerprint: s(f) }
}

fn verdict_of(p: &[PlanItem], k: &str) -> Option<Verdict> {
    p.iter().find(|i| i.key == k).map(|i| i.verdict)
}

fn web(image: &str) -> ContainerSpec {
    ContainerSpec {
        name: s("web"),
        image: s(image),
        raw_flags: Some(s("-p 8080:80")),
        start_after_creation: true,
        autostart: None,
    }
}

#[test]
fn package_sync_scenario() {
    let declared = package_entries(&vec![s("vim"), s("htop")]);
    let current = package_entries(&vec![s("htop"), s("git")]);
    let prior = vec![Entry { key: s("htop"), fingerprint: presence_fingerprint("htop") }];
    let p = plan(&declared, &current, &prior, true);
    assert_eq!(p.len(), 3);
    assert_eq!(verdict_of(&p, "vim"), Some(Verdict::Create));
    assert_eq!(verdict_of(&p, "htop"), Some(Verdict::Skip));
    assert_eq!(verdict_of(&p, "git"), Some(Verdict::Undeclared));
    assert_eq!(resolve_step(Verdict::Undeclared, None, None), Step::Ask(Question::Adopt));
}

#[test]
fn container_recreate_scenario() {
    let old_spec = web("nginx:1.24");
    let new_spec = web("nginx:1.25");
    let mut store = StateStore::new();
    store.upsert(&s("web"), &container_fingerprint(&old_spec), 10);
    let prior = store.get(&s("web")).unwrap().fingerprint.clone();
    let v = container_verdict(&new_spec, true, Some(&prior), false, false);
    assert_eq!(v, Verdict::Recreate);
    let a = resolve(v, false, false);
    assert_eq!(a, Action::Recreate);
    let ops = container_ops(&new_spec, a);
    assert_eq!(ops, vec![ContainerOp::Remove, ContainerOp::Create { start: true }]);
    // only the remove went through: the old fingerprint stays
    record_container_action(&mut store, &new_spec, a, 1, 20);
    assert_eq!(store.get(&s("web")).unwrap().fingerprint, container_fingerprint(&old_spec));
    record_container_action(&mut store, &new_spec, a, 2, 30);
    let rec = store.get(&s("web")).unwrap();
    assert_eq!(rec.fingerprint, container_fingerprint(&new_spec));
    assert_eq!(rec.last_updated, 30);
    assert!(rec.managed);
}

#[test]
fn container_no_recreate_scenario() {
    let old_spec = web("nginx:1.24");
    let new_spec = web("nginx:1.25");
    let prior = container_fingerprint(&old_spec);
    assert_eq!(container_verdict(&new_spec, true, Some(&prior), false, true), Verdict::Skip);
    assert_eq!(container_ops(&new_spec, Action::Skip), vec![]);
    // a container that does not exist yet is still created
    assert_eq!(container_verdict(&new_spec, false, Some(&prior), false, true), Verdict::Create);
}

#[test]
fn container_force_recreate() {
    let spec = web("nginx:1.25");
    let fp = container_fingerprint(&spec);
    assert_eq!(container_verdict(&spec, true, Some(&fp), false, false), Verdict::Skip);
    assert_eq!(container_verdict(&spec, true, Some(&fp), true, false), Verdict::Recreate);
    assert_eq!(container_verdict(&spec, false, None, true, false), Verdict::Create);
    assert_eq!(container_verdict(&spec, true, None, false, false), Verdict::Recreate);
    assert_eq!(apply_overrides(Verdict::Orphan, true, true), Verdict::Orphan);
}

#[test]
fn container_fingerprint_known_value() {
    // sha256 of the bytes "web" "nginx:1.25" "-p 8080:80" 1 0
    let fp = container_fingerprint(&web("nginx:1.25"));
    assert_eq!(fp, "072f2707affc13d2e49575830815aa01b3e110be758d9b0931efcd48f8864d4a");
    assert_ne!(fp, container_fingerprint(&web("nginx:1.24")));
    let mut other = web("nginx:1.25");
    other.autostart = Some(true);
    assert_ne!(fp, container_fingerprint(&other));
}

#[test]
fn autostart_conflict_creates_without_starting() {
    let mut c = web("nginx:1.25");
    c.autostart = Some(true);
    assert!(start_conflict(&c));
    assert_eq!(container_ops(&c, Action::Create), vec![ContainerOp::Create { start: false }]);
    assert_eq!(container_ops(&c, Action::Delete), vec![ContainerOp::Remove]);
}

#[test]
fn create_command_expands_home() {
    let c = ContainerSpec {
        name: s("db"),
        image: s("postgres:16"),
        raw_flags: Some(s("-v $HOME/pg:/var/lib/pg -e A=$HOME")),
        start_after_creation: false,
        autostart: None,
    };
    assert_eq!(
        create_command(&c, "/home/ada", false),
        "podman create --name=db --label managed-by=fedoraforge -v /home/ada/pg:/var/lib/pg -e A=/home/ada postgres:16"
    );
    let bare = ContainerSpec { raw_flags: None, ..c.clone() };
    assert_eq!(
        create_command(&bare, "/home/ada", true),
        "podman run -d --name=db --label managed-by=fedoraforge postgres:16"
    );
}

#[test]
fn second_run_is_idempotent() {
    let declared = vec![entry("a", "fa"), entry("b", "fb")];
    let current = vec![entry("b", "old")];
    let mut store = StateStore::new();
    let p = plan(&declared, &current, &store.prior_entries(), true);
    for item in &p {
        let a = resolve(item.verdict, false, false);
        let fp = lookup(&declared, &item.key).unwrap().clone();
        store.record_outcome(&item.key, a, &fp, 1);
    }
    // the machine now matches the declaration
    let p2 = plan(&declared, &declared, &store.prior_entries(), true);
    assert!(p2.iter().all(|i| i.verdict == Verdict::Skip));
}

#[test]
fn changed_fingerprint_is_updated() {
    assert_eq!(classify(Some(&s("new")), Some(&s("x")), Some(&s("old")), true), Verdict::Update);
    assert_eq!(classify(Some(&s("new")), Some(&s("x")), Some(&s("old")), false), Verdict::Recreate);
    assert_eq!(classify(Some(&s("f")), Some(&s("f")), None, true), Verdict::Update);
    assert_eq!(classify(Some(&s("f")), Some(&s("g")), Some(&s("f")), true), Verdict::Update);
    assert_eq!(classify(Some(&s("f")), None, Some(&s("f")), true), Verdict::Create);
}

#[test]
fn unrecorded_resource_is_never_orphan() {
    let declared: Vec<Entry> = vec![];
    let current = vec![entry("alice", "f")];
    let prior: Vec<Entry> = vec![];
    let p = plan(&declared, &current, &prior, true);
    assert_eq!(verdict_of(&p, "alice"), Some(Verdict::Undeclared));
    assert_eq!(resolve(Verdict::Undeclared, false, false), Action::Skip);
    let mut store = StateStore::new();
    store.record_outcome(&s("alice"), resolve(Verdict::Undeclared, false, false), &s("f"), 1);
    assert!(store.get(&s("alice")).is_none());
    store.record_outcome(&s("alice"), resolve(Verdict::Undeclared, true, false), &s("f"), 1);
    assert!(store.get(&s("alice")).is_some());
}

#[test]
fn orphan_needs_confirmation() {
    let declared: Vec<Entry> = vec![];
    let prior = vec![entry("old", "f")];
    let p = plan(&declared, &vec![], &prior, true);
    assert_eq!(verdict_of(&p, "old"), Some(Verdict::Orphan));
    assert_eq!(resolve_step(Verdict::Orphan, None, None), Step::Ask(Question::Delete));
    assert_eq!(resolve_step(Verdict::Orphan, None, Some(true)), Step::Done(Action::Delete));
    assert_eq!(resolve_step(Verdict::Orphan, None, Some(false)), Step::Done(Action::Skip));
    assert_eq!(resolve_step(Verdict::Undeclared, Some(false), None), Step::Ask(Question::Delete));
    assert_eq!(resolve_step(Verdict::Undeclared, Some(true), None), Step::Done(Action::AdoptIntoConfig));
    let mut store = StateStore::new();
    store.upsert(&s("old"), &s("f"), 5);
    store.record_outcome(&s("old"), Action::Delete, &s("f"), 6);
    assert!(store.get(&s("old")).is_none());
    assert!(store.records().is_empty());
}

#[test]
fn package_entries_deduplicate() {
    let e = package_entries(&vec![s("vim"), s("vim"), s("git")]);
    assert_eq!(e.len(), 2);
    assert_eq!(lookup(&e, &s("vim")), Some(&presence_fingerprint("vim")));
    assert_eq!(presence_fingerprint("htop"), "275c60bb296f3003c8f70a4893b3d131e437b8a97097bcf45fcced8e4d07b869");
    assert_eq!(lookup(&e, &s("emacs")), None);
}
