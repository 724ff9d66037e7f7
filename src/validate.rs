//! Checks that gate every change to users and groups.
use vstd::prelude::*;
use crate::fingerprint::{trim, trimmed};

verus! {

/// Why a user or group change was refused. It concerns one resource only.
#[derive(Clone, Copy, Debug, PartialEq, Eq, Structural)]
pub enum ValidationError {
    /// The name does not have the allowed form.
    InvalidName,
    /// The name is longer than 32 characters.
    NameTooLong,
    /// The id lies below the reserved range's end.
    IdBelowRange,
    /// The id lies above the allowed range.
    IdAboveRange,
    /// The shell is not one of the system's login shells.
    ShellNotListed,
}

pub const MIN_ID: u32 = 1000;

pub const MAX_ID: u32 = 60000;

pub const MAX_NAME_LEN: usize = 32;

/// Whether `text` matches the regular expression `pattern` (false where the
/// pattern does not compile).
pub uninterp spec fn regex_matches(pattern: Seq<char>, text: Seq<char>) -> bool;

/// Relies on regex's `Regex::new` and `Regex::is_match`: whether the compiled
/// pattern matches somewhere in `text`; false where it does not compile.
#[verifier::external_body]
fn regex_match(pattern: &str, text: &str) -> (r: bool)
    ensures
        r == regex_matches(pattern@, text@),
{
    match regex::Regex::new(pattern) {
        Ok(re) => re.is_match(text),
        Err(_) => false,
    }
}

/// The form of user and group names: a lower-case letter or underscore,
/// then lower-case letters, digits, underscores and hyphens, and at most one
/// final dollar sign.
pub open spec fn name_pattern() -> Seq<char> {
    "^[a-z_][a-z0-9_-]*[$]?$"@
}

pub open spec fn name_error(name: Seq<char>, form_ok: bool) -> Option<ValidationError> {
    if !form_ok {
        Some(ValidationError::InvalidName)
    } else if name.len() > MAX_NAME_LEN {
        Some(ValidationError::NameTooLong)
    } else {
        None
    }
}

/// Whether a name is acceptable for a user or a group.
pub open spec fn name_valid(name: Seq<char>) -> bool {
    name_error(name, regex_matches(name_pattern(), name)) is None
}

/// Checks a name once its match against the name pattern is known.
pub fn check_name_form(name: &str, form_ok: bool) -> (r: Result<(), ValidationError>)
    ensures
        r matches Err(e) ==> name_error(name@, form_ok) == Some(e),
        r is Ok <==> name_error(name@, form_ok) is None,
{
    if !form_ok {
        Err(ValidationError::InvalidName)
    } else if name.unicode_len() > MAX_NAME_LEN {
        Err(ValidationError::NameTooLong)
    } else {
        Ok(())
    }
}

/// Checks a user name.
pub fn validate_username(name: &str) -> (r: Result<(), ValidationError>)
    ensures
        r matches Err(e) ==> name_error(name@, regex_matches(name_pattern(), name@)) == Some(e),
        r is Ok <==> name_valid(name@),
{
    let form_ok = regex_match("^[a-z_][a-z0-9_-]*[$]?$", name);
    check_name_form(name, form_ok)
}

/// Checks a group name; the rules are those of user names.
pub fn validate_groupname(name: &str) -> (r: Result<(), ValidationError>)
    ensures
        r matches Err(e) ==> name_error(name@, regex_matches(name_pattern(), name@)) == Some(e),
        r is Ok <==> name_valid(name@),
{
    validate_username(name)
}

pub open spec fn id_error(id: u32) -> Option<ValidationError> {
    if id < MIN_ID {
        Some(ValidationError::IdBelowRange)
    } else if id > MAX_ID {
        Some(ValidationError::IdAboveRange)
    } else {
        None
    }
}

pub open spec fn id_valid(id: u32) -> bool {
    MIN_ID <= id <= MAX_ID
}

/// Checks a user id against the allowed range.
pub fn validate_uid(uid: u32) -> (r: Result<(), ValidationError>)
    ensures
        r matches Err(e) ==> id_error(uid) == Some(e),
        r is Ok <==> id_valid(uid),
{
    if uid < MIN_ID {
        Err(ValidationError::IdBelowRange)
    } else if uid > MAX_ID {
        Err(ValidationError::IdAboveRange)
    } else {
        Ok(())
    }
}

/// Checks a group id against the allowed range.
pub fn validate_gid(gid: u32) -> (r: Result<(), ValidationError>)
    ensures
        r matches Err(e) ==> id_error(gid) == Some(e),
        r is Ok <==> id_valid(gid),
{
    validate_uid(gid)
}

pub open spec fn shell_listed(shell: Seq<char>, shells: Seq<String>) -> bool {
    exists|i: int| 0 <= i < shells.len() && #[trigger] shells[i]@ == shell
}

/// Checks a shell against the list of login shells.
pub fn validate_shell(shell: &String, shells: &Vec<String>) -> (r: Result<(), ValidationError>)
    ensures
        r is Ok <==> shell_listed(shell@, shells@),
        r matches Err(e) ==> e == ValidationError::ShellNotListed,
{
    let mut i: usize = 0;
    while i < shells.len()
        invariant
            i <= shells@.len(),
            forall|j: int| 0 <= j < i ==> #[trigger] shells@[j]@ != shell@,
        decreases shells@.len() - i,
    {
        if shells[i] == *shell {
            return Ok(());
        }
        i += 1;
    }
    Err(ValidationError::ShellNotListed)
}

/// The lines of a text, without their line endings.
pub uninterp spec fn lines_of(s: Seq<char>) -> Seq<Seq<char>>;

/// Relies on `str::lines`: the lines of `s` in order, without their endings;
/// the result depends on `s` alone.
#[verifier::external_body]
pub(crate) fn split_lines(s: &str) -> (r: Vec<String>)
    ensures
        r.deep_view() == lines_of(s@),
{
    s.lines().map(|l| l.to_string()).collect()
}

/// Whether a trimmed line of the shells file names a shell: it is neither
/// empty nor a comment.
pub open spec fn names_shell(t: Seq<char>) -> bool {
    t.len() > 0 && t[0] != '#'
}

/// The shells named by trimmed lines, in order.
pub open spec fn shells_in(ls: Seq<Seq<char>>) -> Seq<Seq<char>>
    decreases ls.len(),
{
    if ls.len() == 0 {
        Seq::empty()
    } else {
        shells_in(ls.drop_last()) + if names_shell(trimmed(ls.last())) {
            seq![trimmed(ls.last())]
        } else {
            Seq::empty()
        }
    }
}

/// The login shells named by the lines of the shells file.
pub fn shells_from_lines(lines: &Vec<String>) -> (r: Vec<String>)
    ensures
        r.deep_view() == shells_in(lines.deep_view()),
{
    let ghost ls = lines.deep_view();
    let mut r: Vec<String> = Vec::new();
    let mut i: usize = 0;
    while i < lines.len()
        invariant
            i <= lines@.len(),
            ls == lines.deep_view(),
            r.deep_view() == shells_in(ls.take(i as int)),
        decreases lines@.len() - i,
    {
        proof {
            assert(ls.take(i as int + 1).drop_last() =~= ls.take(i as int));
        }
        let t = trim(lines[i].as_str());
        let ghost before = r.deep_view();
        if t.unicode_len() > 0 && t.get_char(0) != '#' {
            r.push(String::from_str(t));
            proof {
                assert(r.deep_view() =~= before.push(t@));
            }
        }
        i += 1;
    }
    proof {
        assert(ls.take(lines@.len() as int) =~= ls);
    }
    r
}

/// The login shells listed in the text of the system's shells file.
pub fn parse_shells(content: &str) -> (r: Vec<String>)
    ensures
        r.deep_view() == shells_in(lines_of(content@)),
{
    let lines = split_lines(content);
    shells_from_lines(&lines)
}

} // verus!
