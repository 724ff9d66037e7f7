use forge_reconcile::autostart::{application_service, exec_from_desktop, to_decimal, AppAutostart};

fn s(x: &str) -> String {
    x.to_string()
}

#[test]
fn decimal_notation() {
    assert_eq!(to_decimal(0), "0");
    assert_eq!(to_decimal(7), "7");
    assert_eq!(to_decimal(10), "10");
    assert_eq!(to_decimal(4096), "4096");
    assert_eq!(to_decimal(u64::MAX), "18446744073709551615");
}

#[test]
fn application_unit_text() {
    let cfg = AppAutostart {
        enabled: true,
        restart_policy: None,
        delay: Some(5),
        args: Some(vec![s("--minimized"), s("-q")]),
        environment: vec![(s("A"), s("1"))],
    };
    let svc = application_service("slack", "/usr/bin/slack", &cfg).unwrap();
    assert_eq!(svc.name, "slack-autostart");
    assert!(svc.enabled && svc.started);
    assert!(svc.timer_definition.is_none());
    let expected = "[Unit]\nDescription=slack Autostart\nAfter=graphical-session.target\n\
Wants=graphical-session.target\n\n[Service]\nType=simple\nExecStartPre=/bin/sleep 5\n\
ExecStart=/usr/bin/slack --minimized -q\nRestart=never\nEnvironment=A=1\nEnvironment=DISPLAY=:0\n\
Environment=WAYLAND_DISPLAY=wayland-0\n\n[Install]\nWantedBy=default.target\n";
    assert_eq!(svc.service_definition, expected);
    let off = AppAutostart { enabled: false, ..cfg.clone() };
    assert!(application_service("slack", "/usr/bin/slack", &off).is_none());
    let plain = AppAutostart { restart_policy: Some(s("always")), delay: None, args: None, environment: vec![], ..cfg };
    let text = application_service("x", "x", &plain).unwrap().service_definition;
    assert!(text.contains("\nExecStart=x\nRestart=always\nEnvironment=DISPLAY=:0\n"));
}

#[test]
fn desktop_entry_exec() {
    let entry = "[Desktop Entry]\nName=Foo\nTryExec=foo\nExec=/usr/bin/foo --new %U %f  \nExec=other\n";
    assert_eq!(exec_from_desktop(entry), Some(s("/usr/bin/foo --new")));
    assert_eq!(exec_from_desktop("[Desktop Entry]\nName=Foo\n"), None);
    assert_eq!(exec_from_desktop("Exec=bar %u"), Some(s("bar")));
}
