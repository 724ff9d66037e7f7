//! Desktop environment and display manager choices.
use vstd::prelude::*;
use crate::fingerprint::{trim, trimmed};
use crate::policy::{lower_of, lowercase};
use crate::text::{split_words, words_of};
use crate::validate::{lines_of, split_lines};

verus! {

pub open spec fn starts_with_id(t: Seq<char>) -> bool {
    t.len() >= 2 && t[0] == 'I' && t[1] == 'D'
}

/// The group ids of a group listing: the lower-cased first word of each line
/// after the first line whose trimmed text starts with `ID`.
pub open spec fn desktops_after(ls: Seq<Seq<char>>, seen_header: bool) -> Seq<Seq<char>>
    decreases ls.len(),
{
    if ls.len() == 0 {
        Seq::empty()
    } else if !seen_header {
        desktops_after(ls.subrange(1, ls.len() as int), starts_with_id(trimmed(ls[0])))
    } else {
        (if words_of(ls[0]).len() > 0 {
            seq![lower_of(words_of(ls[0])[0])]
        } else {
            Seq::empty()
        }) + desktops_after(ls.subrange(1, ls.len() as int), true)
    }
}

/// Reads the available desktop groups from the lines of a group listing.
pub fn desktops_from_lines(lines: &Vec<String>) -> (r: Vec<String>)
    ensures
        r.deep_view() == desktops_after(lines.deep_view(), false),
{
    let ghost ls = lines.deep_view();
    let n = lines.len();
    let mut r: Vec<String> = Vec::new();
    let mut seen = false;
    let mut i: usize = 0;
    proof {
        assert(ls.subrange(0, n as int) =~= ls);
    }
    while i < n
        invariant
            n == lines@.len(),
            i <= n,
            ls == lines.deep_view(),
            r.deep_view() + desktops_after(ls.subrange(i as int, n as int), seen) == desktops_after(ls, false),
        decreases n - i,
    {
        let ghost rest = ls.subrange(i as int, n as int);
        let ghost before = r.deep_view();
        proof {
            assert(rest[0] == lines@[i as int]@);
            assert(rest.subrange(1, rest.len() as int) =~= ls.subrange(i + 1, n as int));
        }
        let line = lines[i].as_str();
        if !seen {
            let t = trim(line);
            seen = t.unicode_len() >= 2 && t.get_char(0) == 'I' && t.get_char(1) == 'D';
        } else {
            let words = split_words(line);
            if words.len() > 0 {
                let w = lowercase(words[0].as_str());
                proof {
                    assert(words.deep_view()[0] == words@[0]@);
                }
                let ghost wv = w@;
                r.push(w);
                proof {
                    assert(r.deep_view() =~= before.push(wv));
                    assert(r.deep_view() + desktops_after(ls.subrange(i + 1, n as int), true) =~= before
                        + desktops_after(rest, true));
                }
            } else {
                proof {
                    assert(r.deep_view() + desktops_after(ls.subrange(i + 1, n as int), true) =~= before
                        + desktops_after(rest, true));
                }
            }
        }
        i += 1;
    }
    proof {
        assert(ls.subrange(n as int, n as int) =~= Seq::<Seq<char>>::empty());
        assert(r.deep_view() =~= r.deep_view() + desktops_after(ls.subrange(n as int, n as int), seen));
    }
    r
}

/// Reads the available desktop groups from a group listing.
pub fn available_desktops(listing: &str) -> (r: Vec<String>)
    ensures
        r.deep_view() == desktops_after(lines_of(listing@), false),
{
    let lines = split_lines(listing);
    desktops_from_lines(&lines)
}

pub open spec fn listed_in(s: Seq<String>, x: Seq<char>) -> bool {
    exists|i: int| 0 <= i < s.len() && #[trigger] s[i]@ == x
}

/// Whether a desktop environment, in lower case, is among the available ones.
pub fn desktop_available(desktop: &str, available: &Vec<String>) -> (r: bool)
    ensures
        r == listed_in(available@, lower_of(desktop@)),
{
    let d = lowercase(desktop);
    let mut i: usize = 0;
    while i < available.len()
        invariant
            i <= available@.len(),
            d@ == lower_of(desktop@),
            forall|j: int| 0 <= j < i ==> #[trigger] available@[j]@ != d@,
        decreases available@.len() - i,
    {
        if available[i] == d {
            return true;
        }
        i += 1;
    }
    false
}

/// The session name of a desktop environment: the part before its first `-`.
pub open spec fn session_of(de: Seq<char>) -> Seq<char> {
    if exists|i: int| 0 <= i < de.len() && de[i] == '-' {
        let i = choose|i: int| 0 <= i < de.len() && de[i] == '-' && forall|j: int| 0 <= j < i ==> de[j] != '-';
        de.subrange(0, i)
    } else {
        de
    }
}

/// The session name of a desktop environment.
pub fn session_name(de: &str) -> (r: String)
    ensures
        r@ == session_of(de@),
{
    let n = de.unicode_len();
    let mut i: usize = 0;
    while i < n
        invariant
            n == de@.len(),
            i <= n,
            forall|j: int| 0 <= j < i ==> de@[j] != '-',
        decreases n - i,
    {
        if de.get_char(i) == '-' {
            proof {
                let k = choose|k: int| 0 <= k < de@.len() && de@[k] == '-' && forall|j: int| 0 <= j < k ==> de@[j] != '-';
                assert(k == i) by {
                    if k < i {
                        assert(de@[k] != '-');
                    }
                    if k > i {
                        assert(de@[i as int] == '-');
                    }
                }
            }
            return String::from_str(de.substring_char(0, i));
        }
        i += 1;
    }
    String::from_str(de)
}

/// The display managers that can be set up.
pub open spec fn supported_manager(dm: Seq<char>) -> bool {
    dm == "gdm"@ || dm == "lightdm"@ || dm == "sddm"@ || dm == "cosmic-greeter"@
}

/// Whether a display manager can be set up; its package and service bear its name.
pub fn is_supported_manager(dm: &str) -> (r: bool)
    ensures
        r == supported_manager(dm@),
{
    let d = String::from_str(dm);
    d == String::from_str("gdm") || d == String::from_str("lightdm") || d == String::from_str("sddm")
        || d == String::from_str("cosmic-greeter")
}

} // verus!
