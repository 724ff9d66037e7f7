//! Reading the service manager's listings into observed services.
use vstd::prelude::*;
use crate::fingerprint::{trim, trimmed};
use crate::services::CurrentService;
use crate::text::{contains, occurs_in, split_words, words_of};
use crate::validate::{lines_of, split_lines};

verus! {

/// `s` starts with `p`.
pub open spec fn begins(s: Seq<char>, p: Seq<char>) -> bool {
    p.len() <= s.len() && s.subrange(0, p.len() as int) == p
}

/// `s` ends with `p`.
pub open spec fn ends(s: Seq<char>, p: Seq<char>) -> bool {
    p.len() <= s.len() && s.subrange(s.len() - p.len(), s.len() as int) == p
}

pub open spec fn unit_suffix() -> Seq<char> {
    seq!['.', 's', 'e', 'r', 'v', 'i', 'c', 'e']
}

/// A unit name without any number of trailing `.service`.
pub open spec fn service_name(n: Seq<char>) -> Seq<char>
    decreases n.len(),
{
    if ends(n, unit_suffix()) {
        service_name(n.subrange(0, n.len() - 8))
    } else {
        n
    }
}

fn begins_with(s: &str, p: &str) -> (r: bool)
    ensures
        r == begins(s@, p@),
{
    let n = p.unicode_len();
    if n > s.unicode_len() {
        return false;
    }
    String::from_str(s.substring_char(0, n)) == String::from_str(p)
}

fn suffix_text() -> (r: &'static str)
    ensures
        r@ == unit_suffix(),
{
    proof {
        reveal_strlit(".service");
    }
    ".service"
}

/// Strips trailing `.service` from a unit name.
pub fn strip_service(name: &str) -> (r: String)
    ensures
        r@ == service_name(name@),
{
    let mut cur = String::from_str(name);
    let suffix = suffix_text();
    loop
        invariant
            service_name(cur@) == service_name(name@),
            suffix@ == unit_suffix(),
        decreases cur@.len(),
    {
        let n = cur.as_str().unicode_len();
        if n < 8 {
            return cur;
        }
        let tail = String::from_str(cur.as_str().substring_char(n - 8, n));
        if tail != String::from_str(suffix) {
            return cur;
        }
        let shorter = String::from_str(cur.as_str().substring_char(0, n - 8));
        cur = shorter;
    }
}

pub open spec fn is_one_of(s: Seq<char>, names: Seq<Seq<char>>) -> bool {
    exists|i: int| 0 <= i < names.len() && names[i] == s
}

/// Unit file states that the engine does not manage.
pub open spec fn unmanaged_state(st: Seq<char>) -> bool {
    is_one_of(
        st,
        seq![
            "static"@,
            "transient"@,
            "generated"@,
            "indirect"@,
            "alias"@,
            "masked"@,
            "enabled-runtime"@,
        ],
    )
}

/// Units the session or the system starts by themselves, in every scope.
pub open spec fn automatic_unit(name: Seq<char>) -> bool {
    begins(name, "dbus-:"@) || (begins(name, "app-"@) && occurs_in(name, "@autostart"@)) || name
        == "uresourced"@
}

/// Services of the desktop session, left alone in the user scope.
pub open spec fn session_unit(name: Seq<char>) -> bool {
    is_one_of(
        name,
        seq![
            "pipewire"@,
            "pipewire-pulse"@,
            "dconf"@,
            "uresourced"@,
            "podman-user-wait-network-online"@,
            "at-spi-dbus-bus"@,
        ],
    ) || begins(name, "gvfs-"@) || begins(name, "evolution-"@) || (begins(name, "xdg-"@) && name
        != "xdg-user-dirs"@)
}

pub open spec fn named_in(names: Seq<String>, n: Seq<char>) -> bool {
    exists|i: int| 0 <= i < names.len() && #[trigger] names[i]@ == n
}

/// The service a line of a unit-file listing offers, with whether it is
/// enabled: none for a blank or header line, a line of fewer than two words,
/// an unmanaged state, an automatic unit, a session unit in the user scope,
/// or an excluded name.
pub open spec fn unit_file_entry_of(line: Seq<char>, user_scope: bool, excluded: Seq<String>) -> Option<
    (Seq<char>, bool),
> {
    let ws = words_of(line);
    if trimmed(line).len() == 0 || begins(line, "UNIT FILE"@) || ws.len() < 2 {
        None
    } else {
        let name = service_name(ws[0]);
        if unmanaged_state(ws[1]) || automatic_unit(name) || (user_scope && session_unit(name))
            || named_in(excluded, name) {
            None
        } else {
            Some((name, ws[1] == "enabled"@))
        }
    }
}

/// The service a line of a unit listing reports, with whether it is active:
/// none for a blank or header line or a line of fewer than four words.
pub open spec fn unit_entry_of(line: Seq<char>) -> Option<(Seq<char>, bool)> {
    let ws = words_of(line);
    if trimmed(line).len() == 0 || begins(line, "UNIT"@) || ws.len() < 4 {
        None
    } else {
        Some((service_name(ws[0]), ws[2] == "active"@))
    }
}

pub open spec fn pair_view(p: Option<(String, bool)>) -> Option<(Seq<char>, bool)> {
    match p {
        Some((n, b)) => Some((n@, b)),
        None => None,
    }
}

fn word_is(w: &String, lit: &str) -> (r: bool)
    ensures
        r == (w@ == lit@),
{
    *w == String::from_str(lit)
}

fn is_unmanaged_state(st: &String) -> (r: bool)
    ensures
        r == unmanaged_state(st@),
{
    let r = word_is(st, "static") || word_is(st, "transient") || word_is(st, "generated") || word_is(
        st,
        "indirect",
    ) || word_is(st, "alias") || word_is(st, "masked") || word_is(st, "enabled-runtime");
    proof {
        let names = seq![
            "static"@,
            "transient"@,
            "generated"@,
            "indirect"@,
            "alias"@,
            "masked"@,
            "enabled-runtime"@,
        ];
        if r {
            assert(is_one_of(st@, names));
        } else {
            assert forall|i: int| 0 <= i < names.len() implies names[i] != st@ by {}
        }
    }
    r
}

fn is_automatic_unit(name: &String) -> (r: bool)
    ensures
        r == automatic_unit(name@),
{
    let n = name.as_str();
    begins_with(n, "dbus-:") || (begins_with(n, "app-") && contains(n, "@autostart")) || word_is(
        name,
        "uresourced",
    )
}

fn is_session_unit(name: &String) -> (r: bool)
    ensures
        r == session_unit(name@),
{
    let n = name.as_str();
    let listed = word_is(name, "pipewire") || word_is(name, "pipewire-pulse") || word_is(name, "dconf")
        || word_is(name, "uresourced") || word_is(name, "podman-user-wait-network-online") || word_is(
        name,
        "at-spi-dbus-bus",
    );
    proof {
        let names = seq![
            "pipewire"@,
            "pipewire-pulse"@,
            "dconf"@,
            "uresourced"@,
            "podman-user-wait-network-online"@,
            "at-spi-dbus-bus"@,
        ];
        if listed {
            assert(is_one_of(name@, names));
        } else {
            assert forall|i: int| 0 <= i < names.len() implies names[i] != name@ by {}
        }
    }
    listed || begins_with(n, "gvfs-") || begins_with(n, "evolution-") || (begins_with(n, "xdg-")
        && !word_is(name, "xdg-user-dirs"))
}

fn is_named_in(names: &Vec<String>, n: &String) -> (r: bool)
    ensures
        r == named_in(names@, n@),
{
    let mut i: usize = 0;
    while i < names.len()
        invariant
            i <= names@.len(),
            forall|j: int| 0 <= j < i ==> #[trigger] names@[j]@ != n@,
        decreases names@.len() - i,
    {
        if names[i] == *n {
            return true;
        }
        i += 1;
    }
    false
}

/// Reads one line of a unit-file listing.
pub fn unit_file_entry(line: &str, user_scope: bool, excluded: &Vec<String>) -> (r: Option<(String, bool)>)
    ensures
        pair_view(r) == unit_file_entry_of(line@, user_scope, excluded@),
{
    let words = split_words(line);
    if trim(line).is_empty() || begins_with(line, "UNIT FILE") || words.len() < 2 {
        return None;
    }
    proof {
        assert(words.deep_view()[0] == words@[0]@);
        assert(words.deep_view()[1] == words@[1]@);
    }
    let name = strip_service(words[0].as_str());
    if is_unmanaged_state(&words[1]) || is_automatic_unit(&name) || (user_scope && is_session_unit(&name))
        || is_named_in(excluded, &name) {
        return None;
    }
    let enabled = word_is(&words[1], "enabled");
    Some((name, enabled))
}

/// Reads one line of a unit listing.
pub fn unit_entry(line: &str) -> (r: Option<(String, bool)>)
    ensures
        pair_view(r) == unit_entry_of(line@),
{
    let words = split_words(line);
    if trim(line).is_empty() || begins_with(line, "UNIT") || words.len() < 4 {
        return None;
    }
    proof {
        assert(words.deep_view()[0] == words@[0]@);
        assert(words.deep_view()[2] == words@[2]@);
    }
    let name = strip_service(words[0].as_str());
    let active = word_is(&words[2], "active");
    Some((name, active))
}

/// The entries of the lines of a unit-file listing, in order.
pub open spec fn file_entries(ls: Seq<Seq<char>>, user_scope: bool, excluded: Seq<String>) -> Seq<
    (Seq<char>, bool),
>
    decreases ls.len(),
{
    if ls.len() == 0 {
        Seq::empty()
    } else {
        file_entries(ls.drop_last(), user_scope, excluded) + match unit_file_entry_of(
            ls.last(),
            user_scope,
            excluded,
        ) {
            Some(e) => seq![e],
            None => Seq::empty(),
        }
    }
}

/// The entries of the lines of a unit listing, in order.
pub open spec fn unit_entries(ls: Seq<Seq<char>>) -> Seq<(Seq<char>, bool)>
    decreases ls.len(),
{
    if ls.len() == 0 {
        Seq::empty()
    } else {
        unit_entries(ls.drop_last()) + match unit_entry_of(ls.last()) {
            Some(e) => seq![e],
            None => Seq::empty(),
        }
    }
}

/// The entries with the first one of each name kept.
pub open spec fn first_of_each(es: Seq<(Seq<char>, bool)>) -> Seq<(Seq<char>, bool)>
    decreases es.len(),
{
    if es.len() == 0 {
        Seq::empty()
    } else {
        let d = first_of_each(es.drop_last());
        if exists|i: int| 0 <= i < d.len() && #[trigger] d[i].0 == es.last().0 {
            d
        } else {
            d.push(es.last())
        }
    }
}

/// Whether the last entry for `name` says active; false where there is none.
pub open spec fn active_in(es: Seq<(Seq<char>, bool)>, name: Seq<char>) -> bool
    decreases es.len(),
{
    if es.len() == 0 {
        false
    } else if es.last().0 == name {
        es.last().1
    } else {
        active_in(es.drop_last(), name)
    }
}

pub open spec fn pairs_view(v: Seq<(String, bool)>) -> Seq<(Seq<char>, bool)> {
    v.map_values(|p: (String, bool)| (p.0@, p.1))
}

fn entries_of_unit_lines(lines: &Vec<String>) -> (r: Vec<(String, bool)>)
    ensures
        pairs_view(r@) == unit_entries(lines.deep_view()),
{
    let ghost ls = lines.deep_view();
    let mut r: Vec<(String, bool)> = Vec::new();
    let mut i: usize = 0;
    while i < lines.len()
        invariant
            i <= lines@.len(),
            ls == lines.deep_view(),
            pairs_view(r@) == unit_entries(ls.take(i as int)),
        decreases lines@.len() - i,
    {
        proof {
            assert(ls.take(i as int + 1).drop_last() =~= ls.take(i as int));
            assert(ls.take(i as int + 1).last() == lines@[i as int]@);
        }
        let ghost before = r@;
        match unit_entry(lines[i].as_str()) {
            Some(e) => {
                let ghost ev = (e.0@, e.1);
                r.push(e);
                proof {
                    assert(pairs_view(r@) =~= pairs_view(before).push(ev));
                }
            },
            None => {},
        }
        proof {
            assert(pairs_view(r@) =~= unit_entries(ls.take(i as int + 1)));
        }
        i += 1;
    }
    proof {
        assert(ls.take(lines@.len() as int) =~= ls);
    }
    r
}

fn active_of(es: &Vec<(String, bool)>, name: &String) -> (r: bool)
    ensures
        r == active_in(pairs_view(es@), name@),
{
    let mut i: usize = es.len();
    proof {
        assert(es@.take(es@.len() as int) =~= es@);
    }
    while i > 0
        invariant
            i <= es@.len(),
            active_in(pairs_view(es@), name@) == active_in(pairs_view(es@.take(i as int)), name@),
        decreases i,
    {
        proof {
            assert(pairs_view(es@.take(i as int)).drop_last() =~= pairs_view(es@.take(i - 1)));
            assert(pairs_view(es@.take(i as int)).last() == (es@[i - 1].0@, es@[i - 1].1));
        }
        if es[i - 1].0 == *name {
            return es[i - 1].1;
        }
        i -= 1;
    }
    proof {
        assert(pairs_view(es@.take(0)) =~= Seq::<(Seq<char>, bool)>::empty());
    }
    false
}

fn has_name(es: &Vec<(String, bool)>, name: &String) -> (r: bool)
    ensures
        r == exists|i: int| 0 <= i < es@.len() && #[trigger] es@[i].0@ == name@,
{
    let mut i: usize = 0;
    while i < es.len()
        invariant
            i <= es@.len(),
            forall|j: int| 0 <= j < i ==> #[trigger] es@[j].0@ != name@,
        decreases es@.len() - i,
    {
        if es[i].0 == *name {
            return true;
        }
        i += 1;
    }
    false
}

/// The observed state of a service named by a unit-file listing.
pub open spec fn observed_service(
    name: Seq<char>,
    enabled: bool,
    units: Seq<(Seq<char>, bool)>,
    custom: Seq<String>,
) -> CurrentService {
    CurrentService {
        exists: true,
        enabled: enabled,
        active: active_in(units, name),
        is_custom: named_in(custom, name),
    }
}

/// The services of a scope from the lines of its unit-file listing and of
/// its unit listing: each service named once, under the first line that
/// names it, without `.service`, running where the last unit line for it
/// says active, custom where `custom` names it.
pub fn snapshot_from_lines(
    file_lines: &Vec<String>,
    unit_lines: &Vec<String>,
    user_scope: bool,
    excluded: &Vec<String>,
    custom: &Vec<String>,
) -> (r: Vec<(String, CurrentService)>)
    ensures
        ({
            let fe = first_of_each(file_entries(file_lines.deep_view(), user_scope, excluded@));
            &&& r@.len() == fe.len()
            &&& forall|i: int|
                0 <= i < r@.len() ==> #[trigger] r@[i].0@ == fe[i].0 && r@[i].1 == observed_service(
                    fe[i].0,
                    fe[i].1,
                    unit_entries(unit_lines.deep_view()),
                    custom@,
                )
            &&& forall|i: int, j: int|
                0 <= i < r@.len() && 0 <= j < r@.len() && #[trigger] r@[i].0@ == #[trigger] r@[j].0@
                    ==> i == j
        }),
{
    let ghost ls = file_lines.deep_view();
    let mut firsts: Vec<(String, bool)> = Vec::new();
    let mut i: usize = 0;
    while i < file_lines.len()
        invariant
            i <= file_lines@.len(),
            ls == file_lines.deep_view(),
            pairs_view(firsts@) == first_of_each(file_entries(ls.take(i as int), user_scope, excluded@)),
            forall|a: int, b: int|
                0 <= a < firsts@.len() && 0 <= b < firsts@.len() && #[trigger] firsts@[a].0@
                    == #[trigger] firsts@[b].0@ ==> a == b,
        decreases file_lines@.len() - i,
    {
        let ghost before = firsts@;
        let ghost fe_before = file_entries(ls.take(i as int), user_scope, excluded@);
        proof {
            assert(ls.take(i as int + 1).drop_last() =~= ls.take(i as int));
            assert(ls.take(i as int + 1).last() == file_lines@[i as int]@);
        }
        match unit_file_entry(file_lines[i].as_str(), user_scope, excluded) {
            Some(e) => {
                let ghost ev = (e.0@, e.1);
                let ghost fe_after = fe_before.push(ev);
                proof {
                    assert(file_entries(ls.take(i as int + 1), user_scope, excluded@) =~= fe_after);
                    assert(fe_after.drop_last() =~= fe_before);
                }
                if !has_name(&firsts, &e.0) {
                    firsts.push(e);
                    proof {
                        let d = pairs_view(before);
                        assert(!(exists|k: int| 0 <= k < d.len() && #[trigger] d[k].0 == ev.0)) by {
                            if exists|k: int| 0 <= k < d.len() && #[trigger] d[k].0 == ev.0 {
                                let k = choose|k: int| 0 <= k < d.len() && #[trigger] d[k].0 == ev.0;
                                assert(before[k].0@ == ev.0);
                            }
                        }
                        assert(pairs_view(firsts@) =~= d.push(ev));
                        assert forall|a: int, b: int|
                            0 <= a < firsts@.len() && 0 <= b < firsts@.len() && #[trigger] firsts@[a].0@
                                == #[trigger] firsts@[b].0@ implies a == b by {
                            if a < before.len() {
                                assert(firsts@[a] == before[a]);
                            }
                            if b < before.len() {
                                assert(firsts@[b] == before[b]);
                            }
                        }
                    }
                } else {
                    proof {
                        let d = pairs_view(before);
                        let k = choose|k: int| 0 <= k < before.len() && #[trigger] before[k].0@ == ev.0;
                        assert(d[k].0 == ev.0);
                    }
                }
            },
            None => {
                proof {
                    assert(file_entries(ls.take(i as int + 1), user_scope, excluded@) =~= fe_before);
                }
            },
        }
        i += 1;
    }
    proof {
        assert(ls.take(file_lines@.len() as int) =~= ls);
    }
    let units = entries_of_unit_lines(unit_lines);
    let ghost fe = pairs_view(firsts@);
    let mut r: Vec<(String, CurrentService)> = Vec::new();
    let mut k: usize = 0;
    while k < firsts.len()
        invariant
            k <= firsts@.len(),
            fe == pairs_view(firsts@),
            pairs_view(units@) == unit_entries(unit_lines.deep_view()),
            r@.len() == k,
            forall|j: int|
                0 <= j < k ==> #[trigger] r@[j].0@ == fe[j].0 && r@[j].1 == observed_service(
                    fe[j].0,
                    fe[j].1,
                    unit_entries(unit_lines.deep_view()),
                    custom@,
                ),
        decreases firsts@.len() - k,
    {
        let name = firsts[k].0.clone();
        let active = active_of(&units, &name);
        let is_custom = is_named_in(custom, &name);
        let svc = CurrentService { exists: true, enabled: firsts[k].1, active, is_custom };
        r.push((name, svc));
        k += 1;
    }
    proof {
        assert forall|a: int, b: int|
            0 <= a < r@.len() && 0 <= b < r@.len() && #[trigger] r@[a].0@ == #[trigger] r@[b].0@
                implies a == b by {
            assert(firsts@[a].0@ == fe[a].0 && firsts@[b].0@ == fe[b].0);
        }
    }
    r
}

/// The services of a scope from the text of its unit-file listing and of its
/// unit listing.
pub fn service_snapshot(
    unit_files: &str,
    units: &str,
    user_scope: bool,
    excluded: &Vec<String>,
    custom: &Vec<String>,
) -> (r: Vec<(String, CurrentService)>)
    ensures
        ({
            let fe = first_of_each(file_entries(lines_of(unit_files@), user_scope, excluded@));
            &&& r@.len() == fe.len()
            &&& forall|i: int|
                0 <= i < r@.len() ==> #[trigger] r@[i].0@ == fe[i].0 && r@[i].1 == observed_service(
                    fe[i].0,
                    fe[i].1,
                    unit_entries(lines_of(units@)),
                    custom@,
                )
            &&& forall|i: int, j: int|
                0 <= i < r@.len() && 0 <= j < r@.len() && #[trigger] r@[i].0@ == #[trigger] r@[j].0@
                    ==> i == j
        }),
{
    let f = split_lines(unit_files);
    let u = split_lines(units);
    let r = snapshot_from_lines(&f, &u, user_scope, excluded, custom);
    proof {
        assert(f.deep_view() == lines_of(unit_files@));
        assert(u.deep_view() == lines_of(units@));
    }
    r
}

} // verus!
