//! Reading the account databases into observed users and groups.
use vstd::prelude::*;
use crate::accounts::{CurrentGroup, CurrentUser, in_list};
use crate::validate::{id_valid, lines_of, split_lines};
use crate::fingerprint::{trim, trimmed};

verus! {

/// The parts of `s` between occurrences of `sep`, in order; there is always
/// at least one, and an empty text has one empty part.
pub open spec fn split_on(s: Seq<char>, sep: char) -> Seq<Seq<char>>
    decreases s.len(),
{
    if s.len() == 0 {
        seq![Seq::empty()]
    } else {
        let rest = split_on(s.drop_last(), sep);
        if s.last() == sep {
            rest.push(Seq::empty())
        } else {
            rest.drop_last().push(rest.last().push(s.last()))
        }
    }
}

/// Splits `s` at every occurrence of `sep`.
pub fn split_fields(s: &str, sep: char) -> (r: Vec<String>)
    ensures
        r.deep_view() == split_on(s@, sep),
{
    let n = s.unicode_len();
    let mut parts: Vec<String> = Vec::new();
    let mut cur = String::new();
    let mut i: usize = 0;
    proof {
        assert(s@.take(0) =~= Seq::<char>::empty());
        assert(parts.deep_view().push(cur@) =~= split_on(s@.take(0), sep));
    }
    while i < n
        invariant
            n == s@.len(),
            i <= n,
            parts.deep_view().push(cur@) == split_on(s@.take(i as int), sep),
        decreases n - i,
    {
        let c = s.get_char(i);
        let ghost before = parts.deep_view();
        let ghost cv = cur@;
        proof {
            assert(s@.take(i as int + 1).drop_last() =~= s@.take(i as int));
            assert(s@.take(i as int + 1).last() == c);
        }
        if c == sep {
            parts.push(cur);
            cur = String::new();
            proof {
                assert(parts.deep_view() =~= before.push(cv));
                assert(parts.deep_view().push(cur@) =~= split_on(s@.take(i as int + 1), sep));
            }
        } else {
            cur.append(s.substring_char(i, i + 1));
            proof {
                assert(cur@ =~= cv.push(c));
                let rest = before.push(cv);
                assert(rest.drop_last() =~= before);
                assert(parts.deep_view().push(cur@) =~= split_on(s@.take(i as int + 1), sep));
            }
        }
        i += 1;
    }
    parts.push(cur);
    proof {
        assert(s@.take(n as int) =~= s@);
        assert(parts.deep_view() =~= split_on(s@, sep));
    }
    parts
}

pub open spec fn is_digit(c: char) -> bool {
    '0' <= c <= '9'
}

pub open spec fn all_digits(t: Seq<char>) -> bool {
    forall|i: int| 0 <= i < t.len() ==> is_digit(#[trigger] t[i])
}

/// The value of a text of decimal digits.
pub open spec fn digits_value(t: Seq<char>) -> nat
    decreases t.len(),
{
    if t.len() == 0 {
        0
    } else {
        digits_value(t.drop_last()) * 10 + (t.last() as nat - '0' as nat) as nat
    }
}

/// The digits of a number text: without one leading `+`.
pub open spec fn unsigned_digits(s: Seq<char>) -> Seq<char> {
    if s.len() > 0 && s[0] == '+' {
        s.subrange(1, s.len() as int)
    } else {
        s
    }
}

/// The value of a decimal text, if it is one that fits in 32 bits: digits
/// after at most one `+`, at least one of them.
pub open spec fn parsed_u32(s: Seq<char>) -> Option<u32> {
    let t = unsigned_digits(s);
    if t.len() > 0 && all_digits(t) && digits_value(t) <= u32::MAX {
        Some(digits_value(t) as u32)
    } else {
        None
    }
}

proof fn lemma_value_grows(t: Seq<char>, k: int)
    requires
        0 <= k <= t.len(),
        all_digits(t),
    ensures
        digits_value(t.take(k)) <= digits_value(t),
    decreases t.len() - k,
{
    if k < t.len() {
        lemma_value_grows(t, k + 1);
        assert(t.take(k + 1).drop_last() =~= t.take(k));
        assert(is_digit(t[k]));
    } else {
        assert(t.take(k) =~= t);
    }
}

/// Reads a decimal number that fits in 32 bits.
pub fn parse_u32(s: &str) -> (r: Option<u32>)
    ensures
        r == parsed_u32(s@),
{
    let n = s.unicode_len();
    let mut i: usize = 0;
    if n > 0 && s.get_char(0) == '+' {
        i = 1;
    }
    let start = i;
    let ghost t = unsigned_digits(s@);
    proof {
        assert(t =~= s@.subrange(start as int, n as int));
    }
    if start == n {
        return None;
    }
    let mut v: u32 = 0;
    while i < n
        invariant
            n == s@.len(),
            start <= i <= n,
            t == s@.subrange(start as int, n as int),
            t == unsigned_digits(s@),
            all_digits(s@.subrange(start as int, i as int)),
            v as nat == digits_value(s@.subrange(start as int, i as int)),
        decreases n - i,
    {
        let c = s.get_char(i);
        let ghost pre = s@.subrange(start as int, i as int);
        let ghost next = s@.subrange(start as int, i + 1);
        proof {
            assert(next.drop_last() =~= pre);
            assert(next.last() == c);
        }
        if c < '0' || c > '9' {
            proof {
                assert(t[i - start] == c);
                assert(!is_digit(t[i - start]));
                assert(!all_digits(t));
                assert(parsed_u32(s@) is None);
            }
            return None;
        }
        let d = (c as u32) - ('0' as u32);
        if v > (u32::MAX - d) / 10 {
            proof {
                assert(digits_value(next) == v * 10 + d);
                assert(v * 10 + d > u32::MAX) by (nonlinear_arith)
                    requires
                        v > (u32::MAX - d) / 10,
                        d <= 9,
                ;
                assert forall|j: int| 0 <= j < next.len() implies is_digit(#[trigger] next[j]) by {
                    if j < pre.len() {
                        assert(next[j] == pre[j]);
                    }
                }
                if all_digits(t) {
                    assert(t.take(next.len() as int) =~= next);
                    lemma_value_grows(t, next.len() as int);
                    assert(digits_value(t) > u32::MAX);
                }
                assert(parsed_u32(s@) is None);
            }
            return None;
        }
        proof {
            assert(v * 10 + d <= u32::MAX) by (nonlinear_arith)
                requires
                    v <= (u32::MAX - d) / 10,
                    d <= 9,
            ;
            assert forall|j: int| 0 <= j < next.len() implies is_digit(#[trigger] next[j]) by {
                if j < pre.len() {
                    assert(next[j] == pre[j]);
                }
            }
        }
        v = v * 10 + d;
        i += 1;
    }
    Some(v)
}

/// A number field, zero where it is not a number.
pub open spec fn id_field(s: Seq<char>) -> u32 {
    match parsed_u32(s) {
        Some(v) => v,
        None => 0,
    }
}

/// An account database line holds a user of the managed range: it has the
/// seven fields and its user id lies in the range.
pub open spec fn passwd_user_of(f: Seq<Seq<char>>) -> bool {
    f.len() >= 7 && id_valid(id_field(f[2]))
}

/// Reads one line of the user database. Users outside the managed id range
/// are left out; supplementary groups are filled in from the group database.
pub fn passwd_user(line: &str) -> (r: Option<(String, CurrentUser)>)
    ensures
        r is Some <==> passwd_user_of(split_on(line@, ':')),
        r matches Some((name, u)) ==> ({
            let f = split_on(line@, ':');
            &&& name@ == f[0]
            &&& u.uid == id_field(f[2])
            &&& u.gid == id_field(f[3])
            &&& u.comment@ == f[4]
            &&& u.home@ == f[5]
            &&& u.shell@ == f[6]
            &&& u.groups@.len() == 0
        }),
{
    let f = split_fields(line, ':');
    if f.len() < 7 {
        return None;
    }
    let uid = match parse_u32(f[2].as_str()) {
        Some(v) => v,
        None => 0,
    };
    let gid = match parse_u32(f[3].as_str()) {
        Some(v) => v,
        None => 0,
    };
    if uid < crate::validate::MIN_ID || uid > crate::validate::MAX_ID {
        return None;
    }
    proof {
        assert(f.deep_view()[2] == f@[2]@);
        assert(f.deep_view()[3] == f@[3]@);
    }
    let user = CurrentUser {
        uid,
        gid,
        groups: Vec::new(),
        home: f[5].clone(),
        shell: f[6].clone(),
        comment: f[4].clone(),
    };
    Some((f[0].clone(), user))
}

/// The members named by a member field: none for an empty field, else the
/// comma-separated names.
pub open spec fn members_of(s: Seq<char>) -> Seq<Seq<char>> {
    if s.len() == 0 {
        Seq::empty()
    } else {
        split_on(s, ',')
    }
}

/// Reads one line of the group database, whatever its id.
pub fn group_line(line: &str) -> (r: Option<(String, CurrentGroup)>)
    ensures
        r is Some <==> split_on(line@, ':').len() >= 4,
        r matches Some((name, g)) ==> ({
            let f = split_on(line@, ':');
            &&& name@ == f[0]
            &&& g.gid == id_field(f[2])
            &&& g.members.deep_view() == members_of(f[3])
        }),
{
    let f = split_fields(line, ':');
    if f.len() < 4 {
        return None;
    }
    let gid = match parse_u32(f[2].as_str()) {
        Some(v) => v,
        None => 0,
    };
    proof {
        assert(f.deep_view()[2] == f@[2]@);
        assert(f.deep_view()[3] == f@[3]@);
    }
    let members = if f[3].as_str().is_empty() {
        let m: Vec<String> = Vec::new();
        proof {
            assert(m.deep_view() =~= Seq::<Seq<char>>::empty());
        }
        m
    } else {
        split_fields(f[3].as_str(), ',')
    };
    Some((f[0].clone(), CurrentGroup { gid, members }))
}

/// Whether a group belongs to the managed id range.
pub fn group_in_range(g: &CurrentGroup) -> (r: bool)
    ensures
        r == id_valid(g.gid),
{
    g.gid >= crate::validate::MIN_ID && g.gid <= crate::validate::MAX_ID
}

/// The groups, in order, whose members include `user`.
pub open spec fn groups_with(user: Seq<char>, groups: Seq<(String, CurrentGroup)>) -> Seq<Seq<char>>
    decreases groups.len(),
{
    if groups.len() == 0 {
        Seq::empty()
    } else {
        groups_with(user, groups.drop_last()) + if in_list(groups.last().1.members@, user) {
            seq![groups.last().0@]
        } else {
            Seq::empty()
        }
    }
}

fn is_member(members: &Vec<String>, user: &String) -> (r: bool)
    ensures
        r == in_list(members@, user@),
{
    let mut i: usize = 0;
    while i < members.len()
        invariant
            i <= members@.len(),
            forall|j: int| 0 <= j < i ==> #[trigger] members@[j]@ != user@,
        decreases members@.len() - i,
    {
        if members[i] == *user {
            return true;
        }
        i += 1;
    }
    false
}

/// The supplementary groups of a user: those whose members name it.
pub fn supplementary_groups(user: &String, groups: &Vec<(String, CurrentGroup)>) -> (r: Vec<String>)
    ensures
        r.deep_view() == groups_with(user@, groups@),
{
    let mut r: Vec<String> = Vec::new();
    let mut i: usize = 0;
    while i < groups.len()
        invariant
            i <= groups@.len(),
            r.deep_view() == groups_with(user@, groups@.take(i as int)),
        decreases groups@.len() - i,
    {
        proof {
            assert(groups@.take(i as int + 1).drop_last() =~= groups@.take(i as int));
        }
        let ghost before = r.deep_view();
        if is_member(&groups[i].1.members, user) {
            r.push(groups[i].0.clone());
            proof {
                assert(r.deep_view() =~= before.push(groups@[i as int].0@));
            }
        }
        i += 1;
    }
    proof {
        assert(groups@.take(groups@.len() as int) =~= groups@);
    }
    r
}

/// The names listed one per line in a command's output: each line without
/// surrounding whitespace, blank lines left out.
pub open spec fn listed_lines(ls: Seq<Seq<char>>) -> Seq<Seq<char>>
    decreases ls.len(),
{
    if ls.len() == 0 {
        Seq::empty()
    } else {
        listed_lines(ls.drop_last()) + if trimmed(ls.last()).len() > 0 {
            seq![trimmed(ls.last())]
        } else {
            Seq::empty()
        }
    }
}

/// The names listed one per line.
pub fn names_from_lines(lines: &Vec<String>) -> (r: Vec<String>)
    ensures
        r.deep_view() == listed_lines(lines.deep_view()),
{
    let ghost ls = lines.deep_view();
    let mut r: Vec<String> = Vec::new();
    let mut i: usize = 0;
    while i < lines.len()
        invariant
            i <= lines@.len(),
            ls == lines.deep_view(),
            r.deep_view() == listed_lines(ls.take(i as int)),
        decreases lines@.len() - i,
    {
        proof {
            assert(ls.take(i as int + 1).drop_last() =~= ls.take(i as int));
        }
        let t = trim(lines[i].as_str());
        let ghost before = r.deep_view();
        if !t.is_empty() {
            r.push(String::from_str(t));
            proof {
                assert(r.deep_view() =~= before.push(t@));
            }
        }
        i += 1;
    }
    proof {
        assert(ls.take(lines@.len() as int) =~= ls);
    }
    r
}

/// Reads the names listed one per line in a command's output.
pub fn output_names(text: &str) -> (r: Vec<String>)
    ensures
        r.deep_view() == listed_lines(lines_of(text@)),
{
    let lines = split_lines(text);
    names_from_lines(&lines)
}

} // verus!
