//! Conversion of a container's free-form flags into the lines of a
//! service-manager unit that supervises it.
use vstd::prelude::*;
use crate::container::{ContainerSpec, home_marker, home_marker_str};
use crate::text::{joined_lines, join_lines, concat, replace_all, replaced, contains, occurs_in, split_words, words_of};

verus! {

/// The flags that have a unit equivalent or a known meaning. Any other word
/// is `Unrecognized`.
#[derive(Clone, Copy, Debug, PartialEq, Eq, Structural)]
pub enum FlagKind {
    Publish,
    Volume,
    Env,
    Device,
    SecurityOpt,
    ShmSize,
    Restart,
    CapAdd,
    Unrecognized,
}

/// A flag with its value; an unrecognized word carries itself.
#[derive(Clone, Debug)]
pub struct ContainerFlag {
    pub kind: FlagKind,
    pub value: String,
}

pub open spec fn kind_of(w: Seq<char>) -> FlagKind {
    if w == "-p"@ || w == "--publish"@ {
        FlagKind::Publish
    } else if w == "-v"@ || w == "--volume"@ {
        FlagKind::Volume
    } else if w == "-e"@ || w == "--env"@ {
        FlagKind::Env
    } else if w == "--device"@ {
        FlagKind::Device
    } else if w == "--security-opt"@ {
        FlagKind::SecurityOpt
    } else if w == "--shm-size"@ {
        FlagKind::ShmSize
    } else if w == "--restart"@ {
        FlagKind::Restart
    } else if w == "--cap-add"@ {
        FlagKind::CapAdd
    } else {
        FlagKind::Unrecognized
    }
}

/// The flags read from a list of words: a known flag takes the next word as
/// its value; a known flag with no word after it, and any other word, is
/// unrecognized.
pub open spec fn parsed_flags(ws: Seq<Seq<char>>) -> Seq<(FlagKind, Seq<char>)>
    decreases ws.len(),
{
    if ws.len() == 0 {
        Seq::empty()
    } else if kind_of(ws[0]) != FlagKind::Unrecognized && ws.len() >= 2 {
        seq![(kind_of(ws[0]), ws[1])] + parsed_flags(ws.subrange(2, ws.len() as int))
    } else {
        seq![(FlagKind::Unrecognized, ws[0])] + parsed_flags(ws.subrange(1, ws.len() as int))
    }
}

pub open spec fn flags_view(fs: Seq<ContainerFlag>) -> Seq<(FlagKind, Seq<char>)> {
    fs.map_values(|f: ContainerFlag| (f.kind, f.value@))
}

fn is_word(w: &String, lit: &str) -> (r: bool)
    ensures
        r == (w@ == lit@),
{
    let l = String::from_str(lit);
    *w == l
}

/// The kind of flag a word names.
pub fn flag_kind(w: &String) -> (r: FlagKind)
    ensures
        r == kind_of(w@),
{
    if is_word(w, "-p") || is_word(w, "--publish") {
        FlagKind::Publish
    } else if is_word(w, "-v") || is_word(w, "--volume") {
        FlagKind::Volume
    } else if is_word(w, "-e") || is_word(w, "--env") {
        FlagKind::Env
    } else if is_word(w, "--device") {
        FlagKind::Device
    } else if is_word(w, "--security-opt") {
        FlagKind::SecurityOpt
    } else if is_word(w, "--shm-size") {
        FlagKind::ShmSize
    } else if is_word(w, "--restart") {
        FlagKind::Restart
    } else if is_word(w, "--cap-add") {
        FlagKind::CapAdd
    } else {
        FlagKind::Unrecognized
    }
}

/// Reads flags from words.
pub fn parse_flags(words: &Vec<String>) -> (r: Vec<ContainerFlag>)
    ensures
        flags_view(r@) == parsed_flags(words.deep_view()),
{
    let ghost ws = words.deep_view();
    let n = words.len();
    let mut r: Vec<ContainerFlag> = Vec::new();
    let mut i: usize = 0;
    proof {
        assert(ws.subrange(0, n as int) =~= ws);
    }
    while i < n
        invariant
            n == words@.len(),
            ws == words.deep_view(),
            i <= n,
            flags_view(r@) + parsed_flags(ws.subrange(i as int, n as int)) == parsed_flags(ws),
        decreases n - i,
    {
        let ghost rest = ws.subrange(i as int, n as int);
        let ghost before = r@;
        let k = flag_kind(&words[i]);
        if k != FlagKind::Unrecognized && i + 1 < n {
            r.push(ContainerFlag { kind: k, value: words[i + 1].clone() });
            proof {
                assert(rest.subrange(2, rest.len() as int) =~= ws.subrange(i + 2, n as int));
                assert(flags_view(r@) =~= flags_view(before).push((k, ws[i + 1])));
                assert(flags_view(r@) + parsed_flags(ws.subrange(i + 2, n as int)) =~= flags_view(
                    before,
                ) + parsed_flags(rest));
            }
            i += 2;
        } else {
            r.push(ContainerFlag { kind: FlagKind::Unrecognized, value: words[i].clone() });
            proof {
                assert(rest.subrange(1, rest.len() as int) =~= ws.subrange(i + 1, n as int));
                assert(flags_view(r@) =~= flags_view(before).push((FlagKind::Unrecognized, ws[i as int])));
                assert(flags_view(r@) + parsed_flags(ws.subrange(i + 1, n as int)) =~= flags_view(
                    before,
                ) + parsed_flags(rest));
            }
            i += 1;
        }
    }
    proof {
        assert(ws.subrange(n as int, n as int) =~= Seq::<Seq<char>>::empty());
        assert(flags_view(r@) =~= flags_view(r@) + parsed_flags(ws.subrange(n as int, n as int)));
    }
    r
}

/// Reads the flags of a free-form flag text.
pub fn parse_flag_text(text: &str) -> (r: Vec<ContainerFlag>)
    ensures
        flags_view(r@) == parsed_flags(words_of(text@)),
{
    let words = split_words(text);
    parse_flags(&words)
}

/// The unit line for one flag, if it has one. Volumes have `$HOME` replaced
/// by the home directory; a security option gives a line only for seccomp;
/// a restart policy is the service manager's business and gives none.
pub open spec fn flag_line(kind: FlagKind, value: Seq<char>, home: Seq<char>) -> Option<Seq<char>> {
    match kind {
        FlagKind::Publish => Some("PublishPort="@ + value),
        FlagKind::Volume => Some("Volume="@ + replaced(value, home_marker(), home)),
        FlagKind::Env => Some("Environment="@ + value),
        FlagKind::Device => Some("PodmanArgs=--device="@ + value),
        FlagKind::SecurityOpt => if occurs_in(value, "seccomp"@) {
            Some("SecurityLabelDisable=true"@)
        } else {
            None
        },
        FlagKind::ShmSize => Some("ShmSize="@ + value),
        FlagKind::CapAdd => Some("AddCapability="@ + value),
        FlagKind::Restart | FlagKind::Unrecognized => None,
    }
}

/// The unit lines for a list of flags, in order.
pub open spec fn flag_lines_of(fs: Seq<(FlagKind, Seq<char>)>, home: Seq<char>) -> Seq<Seq<char>>
    decreases fs.len(),
{
    if fs.len() == 0 {
        Seq::empty()
    } else {
        flag_lines_of(fs.drop_last(), home) + match flag_line(fs.last().0, fs.last().1, home) {
            Some(l) => seq![l],
            None => Seq::empty(),
        }
    }
}

/// The unit line for one flag.
pub fn unit_line(f: &ContainerFlag, home: &str) -> (r: Option<String>)
    ensures
        match r {
            Some(l) => flag_line(f.kind, f.value@, home@) == Some(l@),
            None => flag_line(f.kind, f.value@, home@) is None,
        },
{
    let v = f.value.as_str();
    match f.kind {
        FlagKind::Publish => Some(concat("PublishPort=", v)),
        FlagKind::Volume => {
            let expanded = replace_all(v, home_marker_str(), home);
            Some(concat("Volume=", expanded.as_str()))
        },
        FlagKind::Env => Some(concat("Environment=", v)),
        FlagKind::Device => Some(concat("PodmanArgs=--device=", v)),
        FlagKind::SecurityOpt => if contains(v, "seccomp") {
            Some(String::from_str("SecurityLabelDisable=true"))
        } else {
            None
        },
        FlagKind::ShmSize => Some(concat("ShmSize=", v)),
        FlagKind::CapAdd => Some(concat("AddCapability=", v)),
        FlagKind::Restart | FlagKind::Unrecognized => None,
    }
}

/// The unit lines for a list of flags.
pub fn flag_lines(flags: &Vec<ContainerFlag>, home: &str) -> (r: Vec<String>)
    ensures
        r.deep_view() == flag_lines_of(flags_view(flags@), home@),
{
    let mut r: Vec<String> = Vec::new();
    let mut i: usize = 0;
    while i < flags.len()
        invariant
            i <= flags@.len(),
            r.deep_view() == flag_lines_of(flags_view(flags@.take(i as int)), home@),
        decreases flags@.len() - i,
    {
        proof {
            assert(flags_view(flags@.take(i as int + 1)).drop_last() =~= flags_view(flags@.take(i as int)));
        }
        let ghost before = r.deep_view();
        match unit_line(&flags[i], home) {
            Some(l) => {
                r.push(l);
                proof {
                    assert(r.deep_view() =~= before.push(l@));
                }
            },
            None => {},
        }
        proof {
            assert(r.deep_view() =~= flag_lines_of(flags_view(flags@.take(i as int + 1)), home@));
        }
        i += 1;
    }
    proof {
        assert(flags@.take(flags@.len() as int) =~= flags@);
    }
    r
}

pub open spec fn unit_flag_lines(c: ContainerSpec, home: Seq<char>) -> Seq<Seq<char>> {
    match c.raw_flags {
        Some(f) => flag_lines_of(parsed_flags(words_of(f@)), home),
        None => Seq::empty(),
    }
}

/// The unit that supervises a container: its header, the lines of its
/// flags, and the service and install sections.
pub open spec fn unit_lines_of(c: ContainerSpec, home: Seq<char>) -> Seq<Seq<char>> {
    seq![
        "[Unit]"@,
        "Description=Container "@ + c.name@,
        "Wants=network-online.target"@,
        "After=network-online.target"@,
        "RequiresMountsFor=%t/containers"@,
        ""@,
        "[Container]"@,
        "Image="@ + c.image@,
        "ContainerName="@ + c.name@,
        "Label=managed-by=fedoraforge"@,
    ] + unit_flag_lines(c, home) + seq![
        ""@,
        "[Service]"@,
        "Restart=always"@,
        "TimeoutStartSec=900"@,
        ""@,
        "[Install]"@,
        "WantedBy=default.target"@,
    ]
}

fn push_lit(v: &mut Vec<String>, s: &str)
    ensures
        final(v).deep_view() == old(v).deep_view().push(s@),
{
    v.push(String::from_str(s));
    proof {
        assert(final(v).deep_view() =~= old(v).deep_view().push(s@));
    }
}

fn push_owned(v: &mut Vec<String>, s: String)
    ensures
        final(v).deep_view() == old(v).deep_view().push(s@),
{
    let ghost t = s@;
    v.push(s);
    proof {
        assert(final(v).deep_view() =~= old(v).deep_view().push(t));
    }
}

/// The lines of the unit for a container.
pub fn unit_lines(c: &ContainerSpec, home: &str) -> (r: Vec<String>)
    ensures
        r.deep_view() == unit_lines_of(*c, home@),
{
    let mut r: Vec<String> = Vec::new();
    push_lit(&mut r, "[Unit]");
    push_owned(&mut r, concat("Description=Container ", c.name.as_str()));
    push_lit(&mut r, "Wants=network-online.target");
    push_lit(&mut r, "After=network-online.target");
    push_lit(&mut r, "RequiresMountsFor=%t/containers");
    push_lit(&mut r, "");
    push_lit(&mut r, "[Container]");
    push_owned(&mut r, concat("Image=", c.image.as_str()));
    push_owned(&mut r, concat("ContainerName=", c.name.as_str()));
    push_lit(&mut r, "Label=managed-by=fedoraforge");
    let ghost head = r.deep_view();
    let ghost middle: Seq<Seq<char>> = unit_flag_lines(*c, home@);
    match &c.raw_flags {
        Some(f) => {
            let flags = parse_flag_text(f.as_str());
            let lines = flag_lines(&flags, home);
            let mut i: usize = 0;
            while i < lines.len()
                invariant
                    i <= lines@.len(),
                    lines.deep_view() == middle,
                    r.deep_view() == head + middle.take(i as int),
                decreases lines@.len() - i,
            {
                proof {
                    assert(middle.take(i as int + 1) =~= middle.take(i as int).push(lines@[i as int]@));
                }
                push_owned(&mut r, lines[i].clone());
                proof {
                    assert(head + middle.take(i as int + 1) =~= (head + middle.take(i as int)).push(lines@[i as int]@));
                }
                i += 1;
            }
            proof {
                assert(middle.take(lines@.len() as int) =~= middle);
            }
        },
        None => {
            proof {
                assert(head + middle =~= head);
            }
        },
    }
    push_lit(&mut r, "");
    push_lit(&mut r, "[Service]");
    push_lit(&mut r, "Restart=always");
    push_lit(&mut r, "TimeoutStartSec=900");
    push_lit(&mut r, "");
    push_lit(&mut r, "[Install]");
    push_lit(&mut r, "WantedBy=default.target");
    proof {
        assert(r.deep_view() =~= unit_lines_of(*c, home@));
    }
    r
}

/// The unit file for a container: its lines, each ended by a newline.
pub fn unit_file(c: &ContainerSpec, home: &str) -> (r: String)
    ensures
        r@ == joined_lines(unit_lines_of(*c, home@)),
{
    let lines = unit_lines(c, home);
    join_lines(&lines)
}

} // verus!
