use forge_reconcile::accounts::{
    plan_create_group, plan_create_user, plan_delete_group, plan_delete_user, plan_modify_group,
    plan_modify_user, AccountOp, CurrentGroup, CurrentUser, GroupSpec, UserSpec,
};
use forge_reconcile::container::ContainerSpec;
use forge_reconcile::desktop::{available_desktops, desktop_available, is_supported_manager, session_name};
use forge_reconcile::drives::{crypttab_edit, crypttab_entry, fstab_edit, fstab_entry, mapper_name, TableEdit};
use forge_reconcile::fingerprint::{
    command_fingerprint, fingerprint_bytes, fingerprint_parts, service_fingerprint, to_hex,
};
use forge_reconcile::packages::{detect_distro, flatpak_source, presence_fingerprint, Distro};
use forge_reconcile::policy::{
    answer_echo, answer_from_folded, automatic_answer, confirm_mode, parse_answer, ConfigError,
    ConfirmMode,
};
use forge_reconcile::quadlet::{flag_lines, parse_flag_text, unit_file, FlagKind};
use forge_reconcile::services::{
    adopted_state, is_discoverable, needs_change, service_ops, state_fingerprint, CurrentService,
    ServiceOp, ServiceState,
};
use forge_reconcile::text::join_lines;
use forge_reconcile::validate::{
    parse_shells, validate_gid, validate_groupname, validate_shell, validate_uid, validate_username,
    ValidationError,
};

const SHA_ABC: &str = "ba7816bf8f01cfea414140de5dae2223b00361a396177a9cb410ff61f20015ad";
const SHA_EMPTY: &str = "e3b0c44298fc1c149afbf4c8996fb92427ae41e4649b934ca495991b7852b855";
const SHA_ABCDEF: &str = "bef57ec7f53a6d40beb640a780a639c83bc29ac8a9816f1fc6c5c6dcd93c4721";

fn s(x: &str) -> String {
    x.to_string()
}

#[test]
fn hex_encoding() {
    assert_eq!(to_hex(&[0x00, 0xff, 0x1a, 0x9c]), "00ff1a9c");
    assert_eq!(to_hex(&[]), "");
}

#[test]
fn sha256_fingerprints() {
    assert_eq!(fingerprint_bytes(b"abc"), SHA_ABC);
    assert_eq!(fingerprint_bytes(b""), SHA_EMPTY);
    assert_eq!(presence_fingerprint("abc"), SHA_ABC);
    assert_eq!(fingerprint_parts(&vec![b"ab".to_vec(), vec![], b"c".to_vec()]), SHA_ABC);
}

#[test]
fn trimmed_fingerprints() {
    assert_eq!(command_fingerprint("  abc \n"), SHA_ABC);
    assert_eq!(service_fingerprint(" abc ", Some("def\n")), SHA_ABCDEF);
    assert_eq!(service_fingerprint("abc\n", None), SHA_ABC);
}

#[test]
fn flags_are_read_and_converted() {
    let flags = parse_flag_text(
        "-p 8080:80 --restart always -v $HOME/d:/d --security-opt seccomp=unconfined \
         --security-opt label=disable --foo -e",
    );
    let kinds: Vec<FlagKind> = flags.iter().map(|f| f.kind).collect();
    assert_eq!(
        kinds,
        vec![
            FlagKind::Publish,
            FlagKind::Restart,
            FlagKind::Volume,
            FlagKind::SecurityOpt,
            FlagKind::SecurityOpt,
            FlagKind::Unrecognized,
            FlagKind::Unrecognized,
        ]
    );
    assert_eq!(flags[5].value, "--foo");
    assert_eq!(flags[6].value, "-e");
    assert_eq!(
        flag_lines(&flags, "/home/u"),
        vec!["PublishPort=8080:80", "Volume=/home/u/d:/d", "SecurityLabelDisable=true"]
    );
}

#[test]
fn every_known_flag_has_its_line() {
    let flags = parse_flag_text(
        "--publish 1:1 --volume /a:/b --env A=1 --device /dev/dri --shm-size 1g --cap-add NET_ADMIN",
    );
    assert_eq!(
        flag_lines(&flags, "/h"),
        vec![
            "PublishPort=1:1",
            "Volume=/a:/b",
            "Environment=A=1",
            "PodmanArgs=--device=/dev/dri",
            "ShmSize=1g",
            "AddCapability=NET_ADMIN",
        ]
    );
    assert!(parse_flag_text("   ").is_empty());
}

#[test]
fn unit_file_text() {
    let c = ContainerSpec {
        name: s("web"),
        image: s("nginx"),
        raw_flags: Some(s("-p 80:80")),
        start_after_creation: false,
        autostart: Some(true),
    };
    let expected = "[Unit]\nDescription=Container web\nWants=network-online.target\n\
After=network-online.target\nRequiresMountsFor=%t/containers\n\n[Container]\nImage=nginx\n\
ContainerName=web\nLabel=managed-by=fedoraforge\nPublishPort=80:80\n\n[Service]\n\
Restart=always\nTimeoutStartSec=900\n\n[Install]\nWantedBy=default.target\n";
    assert_eq!(unit_file(&c, "/home/u"), expected);
    assert_eq!(join_lines(&vec![s("a"), s("")]), "a\n\n");
}

#[test]
fn confirmation_modes() {
    assert_eq!(confirm_mode(true, true), Err(ConfigError::ConflictingAnswers));
    assert_eq!(confirm_mode(true, false), Ok(ConfirmMode::AutoYes));
    assert_eq!(confirm_mode(false, true), Ok(ConfirmMode::AutoNo));
    assert_eq!(confirm_mode(false, false), Ok(ConfirmMode::Interactive));
    assert_eq!(automatic_answer(ConfirmMode::AutoYes), Some(true));
    assert_eq!(automatic_answer(ConfirmMode::AutoNo), Some(false));
    assert_eq!(automatic_answer(ConfirmMode::Interactive), None);
}

#[test]
fn operator_answers() {
    assert_eq!(parse_answer(" YES\n"), Some(true));
    assert_eq!(parse_answer("y"), Some(true));
    assert_eq!(parse_answer("No"), Some(false));
    assert_eq!(parse_answer("n\n"), Some(false));
    assert_eq!(parse_answer("maybe"), None);
    assert_eq!(parse_answer(""), None);
    assert_eq!(answer_from_folded("yes"), Some(true));
    assert_eq!(answer_from_folded("YES"), None);
    assert_eq!(answer_echo("Proceed?", true), "Proceed? (y/n): y");
    assert_eq!(answer_echo("Proceed?", false), "Proceed? (y/n): n");
}

#[test]
fn names_are_validated() {
    assert_eq!(validate_username("alice"), Ok(()));
    assert_eq!(validate_username("_svc-1$"), Ok(()));
    assert_eq!(validate_username("Alice"), Err(ValidationError::InvalidName));
    assert_eq!(validate_username("9lives"), Err(ValidationError::InvalidName));
    assert_eq!(validate_username(""), Err(ValidationError::InvalidName));
    assert_eq!(validate_username(&"a".repeat(32)), Ok(()));
    assert_eq!(validate_username(&"a".repeat(33)), Err(ValidationError::NameTooLong));
    assert_eq!(validate_groupname("wheel"), Ok(()));
}

#[test]
fn ids_are_validated() {
    assert_eq!(validate_uid(999), Err(ValidationError::IdBelowRange));
    assert_eq!(validate_uid(1000), Ok(()));
    assert_eq!(validate_uid(60000), Ok(()));
    assert_eq!(validate_uid(60001), Err(ValidationError::IdAboveRange));
    assert_eq!(validate_gid(0), Err(ValidationError::IdBelowRange));
}

#[test]
fn shells_are_read_and_checked() {
    let shells = parse_shells("# login shells\n/bin/bash\n\n  /usr/bin/zsh  \n");
    assert_eq!(shells, vec!["/bin/bash", "/usr/bin/zsh"]);
    assert_eq!(validate_shell(&s("/usr/bin/zsh"), &shells), Ok(()));
    assert_eq!(validate_shell(&s("/bin/fish"), &shells), Err(ValidationError::ShellNotListed));
}

fn alice_spec() -> UserSpec {
    UserSpec {
        uid: Some(1001),
        gid: None,
        groups: Some(vec![s("wheel")]),
        home: None,
        shell: Some(s("/bin/bash")),
        comment: Some(s("Alice")),
        create_home: None,
        system: None,
    }
}

#[test]
fn user_creation_is_planned() {
    let shells = vec![s("/bin/bash")];
    let ops = plan_create_user(&s("alice"), &alice_spec(), &shells).unwrap();
    assert_eq!(ops.len(), 2);
    assert!(matches!(&ops[0], AccountOp::AddUser { name, uid: Some(1001), gid: None, home: None,
        shell: Some(sh), comment: Some(c), create_home: true, system: false }
        if name == "alice" && sh == "/bin/bash" && c == "Alice"));
    assert!(matches!(&ops[1], AccountOp::AppendGroups { name, groups } if name == "alice" && groups == &vec![s("wheel")]));
}

#[test]
fn invalid_users_are_refused() {
    let shells = vec![s("/bin/bash")];
    assert_eq!(plan_create_user(&s("Bad"), &alice_spec(), &shells).unwrap_err(), ValidationError::InvalidName);
    let mut low = alice_spec();
    low.uid = Some(500);
    assert_eq!(plan_create_user(&s("alice"), &low, &shells).unwrap_err(), ValidationError::IdBelowRange);
    let mut odd_shell = alice_spec();
    odd_shell.shell = Some(s("/bin/fish"));
    assert_eq!(plan_create_user(&s("alice"), &odd_shell, &shells).unwrap_err(), ValidationError::ShellNotListed);
    assert_eq!(plan_delete_user(&s("Bad"), true).unwrap_err(), ValidationError::InvalidName);
    assert!(matches!(&plan_delete_user(&s("bob"), true).unwrap()[0], AccountOp::DeleteUser { name, remove_home: true } if name == "bob"));
}

#[test]
fn user_changes_are_planned() {
    let current = CurrentUser {
        uid: 1001,
        gid: 1001,
        groups: vec![s("wheel"), s("audio")],
        home: s("/home/alice"),
        shell: s("/bin/sh"),
        comment: s("Alice"),
    };
    let mut desired = alice_spec();
    desired.groups = Some(vec![s("audio"), s("wheel")]);
    let shells = vec![s("/bin/bash")];
    let ops = plan_modify_user(&s("alice"), &current, &desired, &shells).unwrap();
    assert_eq!(ops.len(), 1);
    assert!(matches!(&ops[0], AccountOp::SetShell { name, shell } if name == "alice" && shell == "/bin/bash"));
    desired.uid = Some(70000);
    assert_eq!(plan_modify_user(&s("alice"), &current, &desired, &shells).unwrap_err(), ValidationError::IdAboveRange);
    desired.uid = Some(1002);
    desired.groups = Some(vec![s("wheel")]);
    let ops = plan_modify_user(&s("alice"), &current, &desired, &shells).unwrap();
    assert_eq!(ops.len(), 3);
    assert!(matches!(&ops[0], AccountOp::SetUserId { uid: 1002, .. }));
    assert!(matches!(&ops[2], AccountOp::SetGroups { groups, .. } if groups == &vec![s("wheel")]));
}

#[test]
fn group_operations_are_planned() {
    let spec = GroupSpec { gid: Some(2000), members: Some(vec![s("a"), s("b")]), system: Some(true) };
    let ops = plan_create_group(&s("devs"), &spec).unwrap();
    assert_eq!(ops.len(), 3);
    assert!(matches!(&ops[0], AccountOp::AddGroup { name, gid: Some(2000), system: true } if name == "devs"));
    assert!(matches!(&ops[2], AccountOp::AddMember { group, member } if group == "devs" && member == "b"));
    let bad = GroupSpec { gid: Some(70000), members: None, system: None };
    assert_eq!(plan_create_group(&s("devs"), &bad).unwrap_err(), ValidationError::IdAboveRange);
    let current = CurrentGroup { gid: 2000, members: vec![s("b"), s("c")] };
    let ops = plan_modify_group(&s("devs"), &current, &spec).unwrap();
    assert_eq!(ops.len(), 2);
    assert!(matches!(&ops[0], AccountOp::AddMember { member, .. } if member == "a"));
    assert!(matches!(&ops[1], AccountOp::RemoveMember { member, .. } if member == "c"));
    assert!(plan_delete_group(&s("Devs")).is_err());
    assert_eq!(plan_delete_group(&s("devs")).unwrap().len(), 1);
}

#[test]
fn service_changes() {
    let desired = ServiceState { enabled: true, started: true };
    let off = CurrentService { exists: true, enabled: false, active: false, is_custom: false };
    assert!(needs_change(desired, off));
    assert_eq!(service_ops(desired, off), vec![ServiceOp::Enable, ServiceOp::Start]);
    let on = CurrentService { exists: true, enabled: true, active: true, is_custom: false };
    assert!(!needs_change(desired, on));
    assert_eq!(service_ops(ServiceState { enabled: false, started: false }, on), vec![ServiceOp::Disable, ServiceOp::Stop]);
    let missing = CurrentService { exists: false, enabled: false, active: false, is_custom: false };
    assert_eq!(service_ops(desired, missing), vec![]);
    assert!(is_discoverable(on, false));
    assert!(!is_discoverable(on, true));
    assert!(!is_discoverable(off, false));
    assert_eq!(adopted_state(on), desired);
    assert_ne!(state_fingerprint(true, false), state_fingerprint(false, true));
    assert_eq!(state_fingerprint(true, false), "47dc540c94ceb704a23875c11273e16bb0b8a87aed84de911f2133568115f254");
}

#[test]
fn flatpak_sources() {
    assert_eq!(flatpak_source("fedora:org.gnome.Foo"), (s("fedora"), s("org.gnome.Foo")));
    assert_eq!(flatpak_source("org.x.Y"), (s("flathub"), s("org.x.Y")));
    assert_eq!(flatpak_source("a:b:c"), (s("a"), s("b:c")));
    assert_eq!(detect_distro("NAME=\"Fedora Linux\""), Some(Distro::Fedora));
    assert_eq!(detect_distro("NAME=Debian"), None);
}

#[test]
fn mount_table_edits() {
    let table = "UUID=1 / ext4 defaults 0 1\n/dev/sdb1 /data ext4 defaults 0 2\n";
    let entry = fstab_entry("UUID=abc", "/data", "ext4", "defaults");
    assert_eq!(entry, "UUID=abc /data ext4 defaults 0 2");
    assert!(matches!(fstab_edit(table, &s("/data"), &entry, false), TableEdit::Unchanged));
    match fstab_edit(table, &s("/data"), &entry, true) {
        TableEdit::Rewrite(t) => assert_eq!(t, "UUID=1 / ext4 defaults 0 1\nUUID=abc /data ext4 defaults 0 2"),
        other => panic!("unexpected {:?}", other),
    }
    match fstab_edit(table, &s("/mnt/x"), &entry, true) {
        TableEdit::Append(t) => assert_eq!(t, entry),
        other => panic!("unexpected {:?}", other),
    }
    match fstab_edit("/dev/sdb1 /data ext4 defaults 0 2\n", &s("/data"), &entry, true) {
        TableEdit::Rewrite(t) => assert_eq!(t, entry),
        other => panic!("unexpected {:?}", other),
    }
    assert!(matches!(fstab_edit("", &s("/data"), &entry, false), TableEdit::Append(_)));
}

#[test]
fn unlock_table_edits() {
    let table = "data UUID=1 none luks\nother UUID=2 none luks\n";
    let entry = crypttab_entry("data", "9");
    assert_eq!(entry, "data UUID=9 none luks");
    match crypttab_edit(table, &s("data"), &entry, true) {
        TableEdit::Rewrite(t) => assert_eq!(t, "other UUID=2 none luks\ndata UUID=9 none luks"),
        other => panic!("unexpected {:?}", other),
    }
    assert!(matches!(crypttab_edit(table, &s("data"), &entry, false), TableEdit::Unchanged));
    assert!(matches!(crypttab_edit(table, &s("dat"), &entry, false), TableEdit::Append(_)));
    assert!(matches!(crypttab_edit("  data\n", &s("data"), &entry, false), TableEdit::Unchanged));
}

#[test]
fn mapper_names() {
    assert_eq!(mapper_name("/dev/sdb1", None), "sdb1");
    assert_eq!(mapper_name("/dev/disk/by-id/x", None), "disk_by-id_x");
    assert_eq!(mapper_name("/dev/sdb1", Some("vault")), "vault");
}

#[test]
fn desktop_choices() {
    let listing = "Updating and loading repositories:\nID                     Name\ncosmic-desktop         COSMIC\nKDE-desktop            KDE Plasma\n\n";
    let available = available_desktops(listing);
    assert_eq!(available, vec![s("cosmic-desktop"), s("kde-desktop")]);
    assert!(desktop_available("KDE-desktop", &available));
    assert!(!desktop_available("gnome-desktop", &available));
    assert_eq!(session_name("cosmic-desktop"), "cosmic");
    assert_eq!(session_name("kde"), "kde");
    assert!(is_supported_manager("sddm"));
    assert!(!is_supported_manager("xdm"));
}
