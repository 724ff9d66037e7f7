//! Custom services and the autostart services generated for applications.
use vstd::prelude::*;
use crate::fingerprint::{trim, trimmed};
use crate::text::{concat, joined_lines, join_lines, replace_all, replaced};
use crate::validate::{lines_of, split_lines};

verus! {

/// A service defined in the configuration by its unit text.
#[derive(Clone, Debug)]
pub struct CustomService {
    pub name: String,
    pub enabled: bool,
    pub started: bool,
    pub service_definition: String,
    pub timer_definition: Option<String>,
}

/// An application to start with the graphical session.
#[derive(Clone, Debug)]
pub struct AppAutostart {
    pub enabled: bool,
    pub restart_policy: Option<String>,
    pub delay: Option<u64>,
    pub args: Option<Vec<String>>,
    /// Environment variables, in the order they are written.
    pub environment: Vec<(String, String)>,
}

/// The decimal digit of a value below 10.
pub open spec fn dec_digit(n: u64) -> char {
    ((48 + n) as u8) as char
}

/// The decimal notation of a number.
pub open spec fn decimal(n: u64) -> Seq<char>
    decreases n,
{
    if n < 10 {
        seq![dec_digit(n)]
    } else {
        decimal(n / 10) + seq![dec_digit(n % 10)]
    }
}

fn digit_text(n: u64) -> (r: &'static str)
    requires
        n < 10,
    ensures
        r@ == seq![dec_digit(n)],
{
    match n {
        0 => {
            proof {
                reveal_strlit("0");
            }
            "0"
        },
        1 => {
            proof {
                reveal_strlit("1");
            }
            "1"
        },
        2 => {
            proof {
                reveal_strlit("2");
            }
            "2"
        },
        3 => {
            proof {
                reveal_strlit("3");
            }
            "3"
        },
        4 => {
            proof {
                reveal_strlit("4");
            }
            "4"
        },
        5 => {
            proof {
                reveal_strlit("5");
            }
            "5"
        },
        6 => {
            proof {
                reveal_strlit("6");
            }
            "6"
        },
        7 => {
            proof {
                reveal_strlit("7");
            }
            "7"
        },
        8 => {
            proof {
                reveal_strlit("8");
            }
            "8"
        },
        _ => {
            proof {
                reveal_strlit("9");
            }
            "9"
        },
    }
}

/// Writes the decimal notation of `n` after `s`.
fn push_decimal(s: &mut String, n: u64)
    ensures
        final(s)@ == old(s)@ + decimal(n),
    decreases n,
{
    if n >= 10 {
        push_decimal(s, n / 10);
    }
    s.append(digit_text(n % 10));
    proof {
        if n < 10 {
            assert(n % 10 == n);
        }
        assert(final(s)@ =~= old(s)@ + decimal(n));
    }
}

/// The decimal notation of a number.
pub fn to_decimal(n: u64) -> (r: String)
    ensures
        r@ == decimal(n),
{
    let mut s = String::new();
    push_decimal(&mut s, n);
    proof {
        assert(s@ =~= decimal(n));
    }
    s
}

pub open spec fn with_args(exec: Seq<char>, args: Seq<String>) -> Seq<char>
    decreases args.len(),
{
    if args.len() == 0 {
        exec
    } else {
        with_args(exec, args.drop_last()) + " "@ + args.last()@
    }
}

pub open spec fn env_lines(env: Seq<(String, String)>) -> Seq<Seq<char>>
    decreases env.len(),
{
    if env.len() == 0 {
        Seq::empty()
    } else {
        env_lines(env.drop_last()) + seq!["Environment="@ + env.last().0@ + "="@ + env.last().1@]
    }
}

/// The lines of an application's autostart unit.
pub open spec fn app_unit_lines(app: Seq<char>, exec: Seq<char>, cfg: AppAutostart) -> Seq<Seq<char>> {
    seq![
        "[Unit]"@,
        "Description="@ + app + " Autostart"@,
        "After=graphical-session.target"@,
        "Wants=graphical-session.target"@,
        ""@,
        "[Service]"@,
        "Type=simple"@,
    ] + match cfg.delay {
        Some(d) => seq!["ExecStartPre=/bin/sleep "@ + decimal(d)],
        None => Seq::empty(),
    } + seq![
        "ExecStart="@ + with_args(
            exec,
            match cfg.args {
                Some(a) => a@,
                None => Seq::empty(),
            },
        ),
        "Restart="@ + match cfg.restart_policy {
            Some(r) => r@,
            None => "never"@,
        },
    ] + env_lines(cfg.environment@) + seq![
        "Environment=DISPLAY=:0"@,
        "Environment=WAYLAND_DISPLAY=wayland-0"@,
        ""@,
        "[Install]"@,
        "WantedBy=default.target"@,
    ]
}

fn push_line(v: &mut Vec<String>, s: String)
    ensures
        final(v).deep_view() == old(v).deep_view().push(s@),
{
    let ghost t = s@;
    v.push(s);
    proof {
        assert(final(v).deep_view() =~= old(v).deep_view().push(t));
    }
}

/// The autostart service for an application, run as `exec`; `None` where
/// autostart is not enabled.
pub fn application_service(app: &str, exec: &str, cfg: &AppAutostart) -> (r: Option<CustomService>)
    ensures
        r is Some <==> cfg.enabled,
        r matches Some(svc) ==> {
            &&& svc.name@ == app@ + "-autostart"@
            &&& svc.enabled && svc.started
            &&& svc.service_definition@ == joined_lines(app_unit_lines(app@, exec@, *cfg))
            &&& svc.timer_definition is None
        },
{
    if !cfg.enabled {
        return None;
    }
    let mut lines: Vec<String> = Vec::new();
    push_line(&mut lines, String::from_str("[Unit]"));
    let mut d = concat("Description=", app);
    d.append(" Autostart");
    push_line(&mut lines, d);
    push_line(&mut lines, String::from_str("After=graphical-session.target"));
    push_line(&mut lines, String::from_str("Wants=graphical-session.target"));
    push_line(&mut lines, String::from_str(""));
    push_line(&mut lines, String::from_str("[Service]"));
    push_line(&mut lines, String::from_str("Type=simple"));
    match cfg.delay {
        Some(n) => {
            let mut l = String::from_str("ExecStartPre=/bin/sleep ");
            push_decimal(&mut l, n);
            push_line(&mut lines, l);
        },
        None => {},
    }
    let mut start = concat("ExecStart=", exec);
    let ghost no_args: Seq<String> = Seq::empty();
    match &cfg.args {
        Some(a) => {
            let mut i: usize = 0;
            while i < a.len()
                invariant
                    i <= a@.len(),
                    start@ == "ExecStart="@ + with_args(exec@, a@.take(i as int)),
                decreases a@.len() - i,
            {
                proof {
                    assert(a@.take(i as int + 1).drop_last() =~= a@.take(i as int));
                }
                start.append(" ");
                start.append(a[i].as_str());
                proof {
                    assert(start@ =~= "ExecStart="@ + with_args(exec@, a@.take(i as int + 1)));
                }
                i += 1;
            }
            proof {
                assert(a@.take(a@.len() as int) =~= a@);
            }
        },
        None => {
            proof {
                assert(with_args(exec@, no_args) == exec@);
            }
        },
    }
    push_line(&mut lines, start);
    let restart = match &cfg.restart_policy {
        Some(r) => concat("Restart=", r.as_str()),
        None => String::from_str("Restart=never"),
    };
    proof {
        reveal_strlit("Restart=never");
        reveal_strlit("Restart=");
        reveal_strlit("never");
        assert("Restart=never"@ =~= "Restart="@ + "never"@);
    }
    push_line(&mut lines, restart);
    let ghost head = lines.deep_view();
    let env = &cfg.environment;
    let mut i: usize = 0;
    while i < env.len()
        invariant
            i <= env@.len(),
            lines.deep_view() == head + env_lines(env@.take(i as int)),
        decreases env@.len() - i,
    {
        proof {
            assert(env@.take(i as int + 1).drop_last() =~= env@.take(i as int));
        }
        let mut l = concat("Environment=", env[i].0.as_str());
        l.append("=");
        l.append(env[i].1.as_str());
        push_line(&mut lines, l);
        proof {
            assert(lines.deep_view() =~= head + env_lines(env@.take(i as int + 1)));
        }
        i += 1;
    }
    proof {
        assert(env@.take(env@.len() as int) =~= env@);
    }
    push_line(&mut lines, String::from_str("Environment=DISPLAY=:0"));
    push_line(&mut lines, String::from_str("Environment=WAYLAND_DISPLAY=wayland-0"));
    push_line(&mut lines, String::from_str(""));
    push_line(&mut lines, String::from_str("[Install]"));
    push_line(&mut lines, String::from_str("WantedBy=default.target"));
    proof {
        assert(lines.deep_view() =~= app_unit_lines(app@, exec@, *cfg));
    }
    let text = join_lines(&lines);
    Some(
        CustomService {
            name: concat(app, "-autostart"),
            enabled: true,
            started: true,
            service_definition: text,
            timer_definition: None,
        },
    )
}

pub open spec fn is_exec_line(l: Seq<char>) -> bool {
    l.len() >= 5 && l.subrange(0, 5) == "Exec="@
}

/// The command of an `Exec=` line: what follows the key, with the field
/// codes `%u`, `%f`, `%F` and `%U` removed, trimmed.
pub open spec fn exec_command(l: Seq<char>) -> Seq<char> {
    trimmed(
        replaced(
            replaced(
                replaced(replaced(l.subrange(5, l.len() as int), "%u"@, Seq::empty()), "%f"@, Seq::empty()),
                "%F"@,
                Seq::empty(),
            ),
            "%U"@,
            Seq::empty(),
        ),
    )
}

/// The command of the first `Exec=` line.
pub open spec fn first_exec(ls: Seq<Seq<char>>) -> Option<Seq<char>>
    decreases ls.len(),
{
    if ls.len() == 0 {
        None
    } else if is_exec_line(ls[0]) {
        Some(exec_command(ls[0]))
    } else {
        first_exec(ls.subrange(1, ls.len() as int))
    }
}

fn exec_line_start(l: &str) -> (r: bool)
    ensures
        r == is_exec_line(l@),
{
    if l.unicode_len() < 5 {
        return false;
    }
    let head = String::from_str(l.substring_char(0, 5));
    head == String::from_str("Exec=")
}

fn code_text(k: u8) -> (r: &'static str)
    requires
        k < 4,
    ensures
        k == 0 ==> r@ == "%u"@,
        k == 1 ==> r@ == "%f"@,
        k == 2 ==> r@ == "%F"@,
        k == 3 ==> r@ == "%U"@,
        r@.len() == 2,
{
    proof {
        reveal_strlit("%u");
        reveal_strlit("%f");
        reveal_strlit("%F");
        reveal_strlit("%U");
    }
    match k {
        0 => "%u",
        1 => "%f",
        2 => "%F",
        _ => "%U",
    }
}

/// The command of the first `Exec=` line among the lines of a desktop entry.
pub fn exec_from_lines(lines: &Vec<String>) -> (r: Option<String>)
    ensures
        match r {
            Some(c) => first_exec(lines.deep_view()) == Some(c@),
            None => first_exec(lines.deep_view()) is None,
        },
{
    let ghost ls = lines.deep_view();
    let n = lines.len();
    let mut i: usize = 0;
    proof {
        assert(ls.subrange(0, n as int) =~= ls);
    }
    while i < n
        invariant
            n == lines@.len(),
            i <= n,
            ls == lines.deep_view(),
            first_exec(ls.subrange(i as int, n as int)) == first_exec(ls),
        decreases n - i,
    {
        let l = lines[i].as_str();
        proof {
            assert(ls[i as int] == l@);
            assert(ls.subrange(i as int, n as int)[0] == l@);
        }
        if exec_line_start(l) {
            let rest = l.substring_char(5, l.unicode_len());
            let empty = "";
            proof {
                reveal_strlit("");
                assert(empty@ =~= Seq::<char>::empty());
                assert(rest@ =~= l@.subrange(5, l@.len() as int));
            }
            let a = replace_all(rest, code_text(0), empty);
            let b = replace_all(a.as_str(), code_text(1), empty);
            let c = replace_all(b.as_str(), code_text(2), empty);
            let d = replace_all(c.as_str(), code_text(3), empty);
            let t = trim(d.as_str());
            proof {
                assert(t@ == exec_command(l@));
                assert(is_exec_line(ls.subrange(i as int, n as int)[0]));
            }
            return Some(String::from_str(t));
        }
        proof {
            assert(ls.subrange(i as int, n as int).subrange(1, (n - i) as int) =~= ls.subrange(
                i as int + 1,
                n as int,
            ));
        }
        i += 1;
    }
    None
}

/// The command that a desktop entry runs, from its first `Exec=` line.
pub fn exec_from_desktop(content: &str) -> (r: Option<String>)
    ensures
        match r {
            Some(c) => first_exec(lines_of(content@)) == Some(c@),
            None => first_exec(lines_of(content@)) is None,
        },
{
    let lines = split_lines(content);
    exec_from_lines(&lines)
}

} // verus!
