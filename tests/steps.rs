use forge_reconcile::accounts::{
    plan_modify_group, plan_modify_user, AccountOp, CurrentGroup, CurrentUser, GroupSpec, UserSpec,
};
use forge_reconcile::container::{container_ops, record_container_action, ContainerSpec};
use forge_reconcile::engine::{orphans, plan, Action, Entry, Verdict};
use forge_reconcile::packages::presence_fingerprint;
use forge_reconcile::service_snapshot::{service_snapshot, strip_service, unit_entry, unit_file_entry};
use forge_reconcile::services::{state_fingerprint, CurrentService, ServiceOp, ServiceState};
use forge_reconcile::steps::{
    group_entry, group_step, package_step, service_entry, service_step, user_entry, user_step, PackageOp,
};
use forge_reconcile::snapshot::{parse_u32, split_fields};
use forge_reconcile::store::StateStore;
use forge_reconcile::validate::ValidationError;

fn s(x: &str) -> String {
    x.to_string()
}

fn bob() -> CurrentUser {
    CurrentUser { uid: 1001, gid: 1001, groups: vec![], home: s("/home/b"), shell: s("/bin/sh"), comment: s("") }
}

fn home_only(h: &str) -> UserSpec {
    UserSpec {
        uid: None,
        gid: None,
        groups: None,
        home: Some(s(h)),
        shell: None,
        comment: None,
        create_home: None,
        system: None,
    }
}

#[test]
fn invalid_name_never_modified() {
    let r = plan_modify_user(&s("Bad Name"), &bob(), &home_only("/srv/b"), &vec![]);
    assert_eq!(r.unwrap_err(), ValidationError::InvalidName);
    assert!(plan_modify_user(&s("bob"), &bob(), &home_only("/srv/b"), &vec![]).is_ok());
    let g = CurrentGroup { gid: 2000, members: vec![] };
    let spec = GroupSpec { gid: Some(2001), members: None, system: None };
    assert_eq!(plan_modify_group(&s("Devs"), &g, &spec).unwrap_err(), ValidationError::InvalidName);
    let r = user_step(Action::Update, &s("Bad"), Some(&home_only("/x")), Some(&bob()), &vec![], false);
    assert_eq!(r.err(), Some(ValidationError::InvalidName));
}

#[test]
fn account_steps() {
    let spec = GroupSpec { gid: Some(2000), members: Some(vec![s("a")]), system: None };
    let st = group_step(Action::Create, &s("devs"), Some(&spec), None).unwrap();
    assert_eq!(st.ops.len(), 2);
    assert!(st.record.is_some() && st.adopt.is_none());
    let gone = group_step(Action::Delete, &s("devs"), None, None).unwrap();
    assert!(gone.ops.is_empty() && gone.record.is_some());
    let cur = CurrentGroup { gid: 2002, members: vec![s("x")] };
    let adopt = group_step(Action::AdoptIntoConfig, &s("ops"), None, Some(&cur)).unwrap();
    let g = adopt.adopt.unwrap();
    assert_eq!(g.gid, Some(2002));
    assert_eq!(g.members, Some(vec![s("x")]));
    let skip = group_step(Action::Skip, &s("devs"), Some(&spec), Some(&cur)).unwrap();
    assert!(skip.ops.is_empty() && skip.record.is_none());
    let del = user_step(Action::Delete, &s("bob"), None, Some(&bob()), &vec![], false).unwrap();
    assert!(matches!(&del.ops[0], AccountOp::DeleteUser { remove_home: false, .. }));
    let u = user_step(Action::AdoptIntoConfig, &s("bob"), None, Some(&bob()), &vec![], false).unwrap();
    assert_eq!(u.adopt.unwrap().home, Some(s("/home/b")));
}

#[test]
fn account_entries_track_drift() {
    let spec = GroupSpec { gid: Some(2000), members: None, system: None };
    let same = group_entry(&s("g"), Some(&spec), &CurrentGroup { gid: 2000, members: vec![] });
    let moved = group_entry(&s("g"), Some(&spec), &CurrentGroup { gid: 2001, members: vec![] });
    assert_eq!(same.fingerprint, forge_reconcile::accounts::group_fingerprint(&spec));
    assert_ne!(moved.fingerprint, same.fingerprint);
    let u = user_entry(&s("bob"), Some(&home_only("/home/b")), &bob());
    assert_eq!(u.fingerprint, forge_reconcile::accounts::user_fingerprint(&home_only("/home/b")));
}

#[test]
fn changed_service_is_updated() {
    let d = ServiceState { enabled: true, started: true };
    let c = CurrentService { exists: true, enabled: true, active: false, is_custom: false };
    let declared = vec![Entry { key: s("sshd"), fingerprint: state_fingerprint(true, true) }];
    let current = vec![service_entry(&s("sshd"), Some(d), c)];
    let prior = declared.clone();
    let p = plan(&declared, &current, &prior, true);
    assert_eq!(p[0].verdict, Verdict::Update);
    let step = service_step(Action::Update, Some(d), Some(c));
    assert_eq!(step.ops, vec![ServiceOp::Start]);
    let ok = CurrentService { active: true, ..c };
    let p = plan(&declared, &vec![service_entry(&s("sshd"), Some(d), ok)], &prior, true);
    assert_eq!(p[0].verdict, Verdict::Skip);
    let del = service_step(Action::Delete, None, Some(ok));
    assert_eq!(del.ops, vec![ServiceOp::Disable, ServiceOp::Stop]);
    let adopt = service_step(Action::AdoptIntoConfig, None, Some(c));
    assert_eq!(adopt.adopt, Some(ServiceState { enabled: true, started: false }));
}

#[test]
fn package_steps() {
    let st = package_step(Action::Create, &s("vim"));
    assert_eq!(st.op, Some(PackageOp::Install));
    assert_eq!(st.record, Some(presence_fingerprint("vim")));
    assert_eq!(package_step(Action::Delete, &s("vim")).op, Some(PackageOp::Remove));
    assert!(package_step(Action::AdoptIntoConfig, &s("vim")).adopt);
    assert!(package_step(Action::Skip, &s("vim")).record.is_none());
}

#[test]
fn unit_listing_lines() {
    assert_eq!(strip_service("sshd.service"), "sshd");
    assert_eq!(strip_service("a.service.service"), "a");
    assert_eq!(strip_service("foo.socket"), "foo.socket");
    let none: Vec<String> = vec![];
    assert_eq!(unit_file_entry("sshd.service enabled disabled", false, &none), Some((s("sshd"), true)));
    assert_eq!(unit_file_entry("cups.service disabled enabled", false, &none), Some((s("cups"), false)));
    assert_eq!(unit_file_entry("UNIT FILE STATE PRESET", false, &none), None);
    assert_eq!(unit_file_entry("systemd-journald.service static -", false, &none), None);
    assert_eq!(unit_file_entry("dbus-:1.2-org.x.service enabled -", false, &none), None);
    assert_eq!(unit_file_entry("app-foo@autostart.service enabled -", false, &none), None);
    assert_eq!(unit_file_entry("uresourced.service enabled -", false, &none), None);
    assert_eq!(unit_file_entry("pipewire.service enabled -", true, &none), None);
    assert_eq!(unit_file_entry("pipewire.service enabled -", false, &none), Some((s("pipewire"), true)));
    assert_eq!(unit_file_entry("gvfs-daemon.service enabled -", true, &none), None);
    assert_eq!(unit_file_entry("xdg-user-dirs.service enabled -", true, &none), Some((s("xdg-user-dirs"), true)));
    assert_eq!(unit_file_entry("web.service enabled -", true, &vec![s("web")]), None);
    assert_eq!(unit_entry("sshd.service loaded active running OpenSSH"), Some((s("sshd"), true)));
    assert_eq!(unit_entry("UNIT LOAD ACTIVE SUB DESCRIPTION"), None);
    assert_eq!(unit_entry("x.service loaded"), None);
}

#[test]
fn service_snapshot_scenario() {
    let files = "UNIT FILE STATE PRESET\nsshd.service enabled disabled\ncups.service disabled enabled\n\
sshd.service disabled disabled\nsystemd-udevd.service static -\n\n";
    let units = "UNIT LOAD ACTIVE SUB DESCRIPTION\ncups.service loaded active running CUPS\n\
cups.service loaded inactive dead CUPS\nsshd.service loaded active running OpenSSH\n";
    let snap = service_snapshot(files, units, false, &vec![], &vec![s("cups")]);
    assert_eq!(snap.len(), 2);
    assert_eq!(snap[0].0, "sshd");
    assert_eq!(snap[0].1, CurrentService { exists: true, enabled: true, active: true, is_custom: false });
    assert_eq!(snap[1].0, "cups");
    assert_eq!(snap[1].1, CurrentService { exists: true, enabled: false, active: false, is_custom: true });
}

#[test]
fn records_are_stamped() {
    let mut store = StateStore::new();
    store.record_outcome(&s("k"), Action::Create, &s("f"), 42);
    let r = store.get(&s("k")).unwrap();
    assert_eq!(r.last_updated, 42);
    assert!(r.managed);
    let c = ContainerSpec { name: s("web"), image: s("i"), raw_flags: None, start_after_creation: false, autostart: None };
    let n = container_ops(&c, Action::Create).len();
    record_container_action(&mut store, &c, Action::Create, n, 77);
    let r = store.get(&s("web")).unwrap();
    assert_eq!((r.last_updated, r.managed), (77, true));
}

#[test]
fn orphans_are_recorded_and_undeclared() {
    let declared = vec![Entry { key: s("a"), fingerprint: s("1") }];
    let prior = vec![Entry { key: s("a"), fingerprint: s("1") }, Entry { key: s("b"), fingerprint: s("2") }];
    assert_eq!(orphans(&declared, &prior), vec![s("b")]);
}

#[test]
fn numbers_and_fields() {
    assert_eq!(parse_u32("1001"), Some(1001));
    assert_eq!(parse_u32("+12"), Some(12));
    assert_eq!(parse_u32("4294967295"), Some(u32::MAX));
    assert_eq!(parse_u32("4294967296"), None);
    assert_eq!(parse_u32("99999999999x"), None);
    assert_eq!(parse_u32(""), None);
    assert_eq!(parse_u32("+"), None);
    assert_eq!(parse_u32("-1"), None);
    assert_eq!(parse_u32("12a"), None);
    assert_eq!(split_fields("a:b::c", ':'), vec![s("a"), s("b"), s(""), s("c")]);
    assert_eq!(split_fields("", ':'), vec![s("")]);
    assert_eq!(split_fields(":", ':'), vec![s(""), s("")]);
}
