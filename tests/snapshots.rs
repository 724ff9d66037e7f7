use forge_reconcile::accounts::{
    group_differs, group_fingerprint, user_differs, user_fingerprint, CurrentGroup, CurrentUser, GroupSpec, UserSpec,
};
use forge_reconcile::dotfiles::{dotfile_ops, needs_consent, DotfileOp};
use forge_reconcile::engine::{observed_entry, Verdict};
use forge_reconcile::quadlet::unit_lines;
use forge_reconcile::container::ContainerSpec;
use forge_reconcile::snapshot::{
    group_in_range, group_line, output_names, passwd_user, supplementary_groups,
};
use forge_reconcile::packages::{pinned_listing, unindented_listing};
use forge_reconcile::store::StateStore;

fn s(x: &str) -> String {
    x.to_string()
}

#[test]
fn passwd_lines() {
    let (name, u) = passwd_user("alice:x:1001:1002:Alice A:/home/alice:/bin/bash").unwrap();
    assert_eq!(name, "alice");
    assert_eq!((u.uid, u.gid), (1001, 1002));
    assert_eq!(u.comment, "Alice A");
    assert_eq!(u.home, "/home/alice");
    assert_eq!(u.shell, "/bin/bash");
    assert!(u.groups.is_empty());
    assert!(passwd_user("root:x:0:0:root:/root:/bin/bash").is_none());
    assert!(passwd_user("nobody:x:65534:65534::/:/sbin/nologin").is_none());
    assert!(passwd_user("short:x:1001").is_none());
    assert!(passwd_user("odd:x:abc:1:::").is_none());
}

#[test]
fn group_lines() {
    let (name, g) = group_line("devs:x:2000:alice,bob").unwrap();
    assert_eq!(name, "devs");
    assert_eq!(g.gid, 2000);
    assert_eq!(g.members, vec![s("alice"), s("bob")]);
    let (_, empty) = group_line("solo:x:2001:").unwrap();
    assert!(empty.members.is_empty());
    assert!(group_line("bad:x").is_none());
    let (_, wheel) = group_line("wheel:x:10:alice").unwrap();
    assert!(!group_in_range(&wheel));
    assert!(group_in_range(&g));
    let all = vec![(s("wheel"), wheel), (s("devs"), g), (s("solo"), empty)];
    assert_eq!(supplementary_groups(&s("alice"), &all), vec![s("wheel"), s("devs")]);
    assert!(supplementary_groups(&s("carol"), &all).is_empty());
}

#[test]
fn command_output_readers() {
    assert_eq!(output_names("  vim \n\nhtop\n"), vec![s("vim"), s("htop")]);
}

#[test]
fn dotfile_steps() {
    assert_eq!(dotfile_ops(Verdict::Create, false), vec![DotfileOp::Copy]);
    assert_eq!(dotfile_ops(Verdict::Update, true), vec![DotfileOp::Backup, DotfileOp::Copy]);
    assert_eq!(dotfile_ops(Verdict::Update, false), vec![]);
    assert_eq!(dotfile_ops(Verdict::Skip, true), vec![]);
    assert!(needs_consent(Verdict::Update));
    assert!(!needs_consent(Verdict::Create));
}

#[test]
fn observed_entries() {
    let same = observed_entry(&s("g"), &s("abc"), true);
    assert_eq!(same.key, "g");
    assert_eq!(same.fingerprint, "abc");
    let drifted = observed_entry(&s("g"), &s("abc"), false);
    assert_ne!(drifted.fingerprint, "abc");
}

#[test]
fn account_fingerprints_and_drift() {
    let g1 = GroupSpec { gid: Some(2000), members: Some(vec![s("a")]), system: None };
    let g2 = GroupSpec { gid: Some(2000), members: Some(vec![s("a")]), system: Some(false) };
    let g3 = GroupSpec { gid: None, members: Some(vec![s("a")]), system: None };
    assert_eq!(group_fingerprint(&g1), "81c4ac301677c8db22781b9d52bbff2d7aae44ebb766cab0697b85de61b331f7");
    assert_ne!(group_fingerprint(&g1), group_fingerprint(&g2));
    assert_ne!(group_fingerprint(&g1), group_fingerprint(&g3));
    let cur = CurrentGroup { gid: 2000, members: vec![s("a"), s("a")] };
    assert!(!group_differs(&cur, &g1));
    assert!(group_differs(&CurrentGroup { gid: 2001, members: vec![s("a")] }, &g1));
    assert!(group_differs(&CurrentGroup { gid: 2000, members: vec![] }, &g1));
    assert!(!group_differs(&CurrentGroup { gid: 5, members: vec![] }, &GroupSpec { gid: None, members: None, system: None }));

    let u = UserSpec {
        uid: Some(1001),
        gid: None,
        groups: None,
        home: None,
        shell: Some(s("/bin/bash")),
        comment: None,
        create_home: None,
        system: None,
    };
    let mut u2 = u.clone();
    u2.shell = Some(s("/bin/zsh"));
    assert_ne!(user_fingerprint(&u), user_fingerprint(&u2));
    let cur = CurrentUser {
        uid: 1001,
        gid: 1001,
        groups: vec![],
        home: s("/home/a"),
        shell: s("/bin/bash"),
        comment: s(""),
    };
    assert!(!user_differs(&cur, &u));
    assert!(user_differs(&cur, &u2));
}

#[test]
fn store_records() {
    let mut store = StateStore::new();
    assert!(!store.is_recorded(&s("k")));
    store.upsert(&s("k"), &s("f1"), 1);
    store.upsert(&s("k"), &s("f2"), 2);
    assert!(store.is_recorded(&s("k")));
    assert_eq!(store.records().len(), 1);
    assert_eq!(store.get(&s("k")).unwrap().fingerprint, "f2");
    store.forget(&s("k"));
    assert!(store.records().is_empty());
    assert_eq!(store.prior_entries().len(), 0);
}

#[test]
fn unit_without_flags() {
    let c = ContainerSpec {
        name: s("x"),
        image: s("img"),
        raw_flags: None,
        start_after_creation: true,
        autostart: Some(true),
    };
    let lines = unit_lines(&c, "/h");
    assert_eq!(lines.len(), 17);
    assert_eq!(lines[7], "Image=img");
    assert_eq!(lines[10], "");
    assert_eq!(lines[16], "WantedBy=default.target");
}

#[test]
fn package_listings() {
    assert_eq!(
        pinned_listing("requests==2.31.0\n\n  black==24.1 \nlocalpkg\na=b==c\n"),
        vec![s("requests"), s("black"), s("localpkg"), s("a=b")]
    );
    assert_eq!(
        unindented_listing("ripgrep v14.1.0:\n    rg\nbat v0.24.0:\n    bat\n\n"),
        vec![s("ripgrep"), s("bat")]
    );
}
