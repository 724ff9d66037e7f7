//! Packages and applications, whose descriptor is presence alone.
use vstd::prelude::*;
use vstd::utf8::encode_utf8;
use crate::engine::{Entry, fingerprints, has_key, keys_unique, lemma_fingerprint_at};
use crate::fingerprint::{hex_of, sha256_of, fingerprint_bytes};
use crate::text::{contains, occurs_in, split_words, words_of};
use crate::fingerprint::{trim, trimmed};
use crate::validate::{lines_of, split_lines};

verus! {

/// The fingerprint of a resource whose only managed attribute is its name.
pub open spec fn presence_fp(name: Seq<char>) -> Seq<char> {
    hex_of(sha256_of(encode_utf8(name)))
}

/// The fingerprint of a package: that of its name.
pub fn presence_fingerprint(name: &str) -> (r: String)
    ensures
        r@ == presence_fp(name@),
{
    fingerprint_bytes(name.as_bytes())
}

pub open spec fn listed(names: Seq<String>, k: Seq<char>) -> bool {
    exists|i: int| 0 <= i < names.len() && #[trigger] names[i]@ == k
}

fn find_entry(r: &Vec<Entry>, k: &String) -> (found: bool)
    ensures
        found == has_key(r@, k@),
{
    let mut i: usize = 0;
    while i < r.len()
        invariant
            i <= r@.len(),
            forall|j: int| 0 <= j < i ==> #[trigger] r@[j].key@ != k@,
        decreases r@.len() - i,
    {
        if r[i].key == *k {
            return true;
        }
        i += 1;
    }
    false
}

/// The entries of a list of names, each name once, each with its presence
/// fingerprint; used for the declared and the observed side alike.
pub fn package_entries(names: &Vec<String>) -> (r: Vec<Entry>)
    ensures
        keys_unique(r@),
        forall|k: Seq<char>| #[trigger] has_key(r@, k) <==> listed(names@, k),
        forall|k: Seq<char>| #[trigger] fingerprints(r@).dom().contains(k) ==> fingerprints(r@)[k] == presence_fp(k),
{
    let mut r: Vec<Entry> = Vec::new();
    let mut i: usize = 0;
    while i < names.len()
        invariant
            i <= names@.len(),
            keys_unique(r@),
            forall|k: Seq<char>|
                #[trigger] has_key(r@, k) <==> exists|j: int| 0 <= j < i && #[trigger] names@[j]@ == k,
            forall|j: int| 0 <= j < r@.len() ==> #[trigger] r@[j].fingerprint@ == presence_fp(r@[j].key@),
        decreases names@.len() - i,
    {
        let name = &names[i];
        if !find_entry(&r, name) {
            let fp = presence_fingerprint(name.as_str());
            let ghost before = r@;
            r.push(Entry { key: name.clone(), fingerprint: fp });
            proof {
                assert forall|a: int, b: int|
                    0 <= a < r@.len() && 0 <= b < r@.len() && #[trigger] r@[a].key@
                        == #[trigger] r@[b].key@ implies a == b by {
                    if a < before.len() && b == before.len() {
                        assert(before[a] == r@[a]);
                        assert(has_key(before, name@));
                    }
                    if b < before.len() && a == before.len() {
                        assert(before[b] == r@[b]);
                        assert(has_key(before, name@));
                    }
                    if a < before.len() && b < before.len() {
                        assert(before[a] == r@[a] && before[b] == r@[b]);
                    }
                }
                assert forall|k: Seq<char>|
                    #[trigger] has_key(r@, k) <==> exists|j: int| 0 <= j < i + 1 && #[trigger] names@[j]@ == k by {
                    if has_key(r@, k) {
                        let a = choose|a: int| 0 <= a < r@.len() && #[trigger] r@[a].key@ == k;
                        if a < before.len() {
                            assert(before[a] == r@[a]);
                            assert(has_key(before, k));
                        } else {
                            assert(names@[i as int]@ == k);
                        }
                    }
                    if exists|j: int| 0 <= j < i + 1 && #[trigger] names@[j]@ == k {
                        let j = choose|j: int| 0 <= j < i + 1 && #[trigger] names@[j]@ == k;
                        if j < i {
                            assert(has_key(before, k));
                            let a = choose|a: int| 0 <= a < before.len() && #[trigger] before[a].key@ == k;
                            assert(r@[a] == before[a]);
                        } else {
                            assert(r@[before.len() as int].key@ == k);
                        }
                    }
                }
                assert forall|j: int| 0 <= j < r@.len() implies #[trigger] r@[j].fingerprint@ == presence_fp(r@[j].key@) by {
                    if j < before.len() {
                        assert(before[j] == r@[j]);
                    }
                }
            }
        } else {
            proof {
                assert forall|k: Seq<char>|
                    #[trigger] has_key(r@, k) <==> exists|j: int| 0 <= j < i + 1 && #[trigger] names@[j]@ == k by {
                    if exists|j: int| 0 <= j < i + 1 && #[trigger] names@[j]@ == k {
                        let j = choose|j: int| 0 <= j < i + 1 && #[trigger] names@[j]@ == k;
                        if j == i {
                            assert(has_key(r@, name@));
                        }
                    }
                }
            }
        }
        i += 1;
    }
    proof {
        assert forall|k: Seq<char>| #[trigger] has_key(r@, k) <==> listed(names@, k) by {
            if listed(names@, k) {
                let j = choose|j: int| 0 <= j < names@.len() && #[trigger] names@[j]@ == k;
                assert(exists|j: int| 0 <= j < i && #[trigger] names@[j]@ == k);
            }
        }
        assert forall|k: Seq<char>| #[trigger] fingerprints(r@).dom().contains(k) implies fingerprints(r@)[k]
            == presence_fp(k) by {
            let a = choose|a: int| 0 <= a < r@.len() && #[trigger] r@[a].key@ == k;
            lemma_fingerprint_at(r@, a);
        }
    }
    r
}

/// Where a Flatpak application comes from: `remote:app` names its remote;
/// without a colon the remote is `flathub`.
pub open spec fn flatpak_source_of(p: Seq<char>) -> (Seq<char>, Seq<char>) {
    if exists|i: int| 0 <= i < p.len() && p[i] == ':' {
        let i = choose|i: int|
            0 <= i < p.len() && p[i] == ':' && forall|j: int| 0 <= j < i ==> p[j] != ':';
        (p.subrange(0, i), p.subrange(i + 1, p.len() as int))
    } else {
        ("flathub"@, p)
    }
}

/// Splits a Flatpak package into its remote and its application id at the
/// first colon.
pub fn flatpak_source(p: &str) -> (r: (String, String))
    ensures
        (r.0@, r.1@) == flatpak_source_of(p@),
{
    let n = p.unicode_len();
    let mut i: usize = 0;
    while i < n
        invariant
            n == p@.len(),
            i <= n,
            forall|j: int| 0 <= j < i ==> p@[j] != ':',
        decreases n - i,
    {
        if p.get_char(i) == ':' {
            let remote = String::from_str(p.substring_char(0, i));
            let app = String::from_str(p.substring_char(i + 1, n));
            proof {
                let k = choose|k: int|
                    0 <= k < p@.len() && p@[k] == ':' && forall|j: int| 0 <= j < k ==> p@[j] != ':';
                assert(k == i) by {
                    if k < i {
                        assert(p@[k] != ':');
                    }
                    if k > i {
                        assert(p@[i as int] == ':');
                    }
                }
            }
            return (remote, app);
        }
        i += 1;
    }
    (String::from_str("flathub"), String::from_str(p))
}

/// The distributions the engine supports.
#[derive(Clone, Copy, Debug, PartialEq, Eq, Structural)]
pub enum Distro {
    Fedora,
}

/// The distribution named by an os-release text; `None` where it is not one
/// the engine supports.
pub fn detect_distro(os_release: &str) -> (r: Option<Distro>)
    ensures
        r == (if occurs_in(os_release@, "Fedora"@) {
            Some(Distro::Fedora)
        } else {
            None
        }),
{
    if contains(os_release, "Fedora") {
        Some(Distro::Fedora)
    } else {
        None
    }
}

/// A `==` starts at position `i` of `t`.
pub open spec fn pin_at(t: Seq<char>, i: int) -> bool {
    0 <= i < t.len() - 1 && t[i] == '=' && t[i + 1] == '='
}

/// The text before the first `==`, or all of it.
pub open spec fn before_pin(t: Seq<char>) -> Seq<char> {
    if exists|i: int| #[trigger] pin_at(t, i) {
        let i = choose|i: int| #[trigger] pin_at(t, i) && forall|j: int| 0 <= j < i ==> !pin_at(t, j);
        t.subrange(0, i)
    } else {
        t
    }
}

fn name_before_pin(t: &str) -> (r: String)
    ensures
        r@ == before_pin(t@),
{
    let n = t.unicode_len();
    let mut i: usize = 0;
    while i < n && i + 1 < n
        invariant
            n == t@.len(),
            i <= n,
            forall|j: int| 0 <= j < i ==> !pin_at(t@, j),
        decreases n - i,
    {
        if t.get_char(i) == '=' && t.get_char(i + 1) == '=' {
            proof {
                assert(pin_at(t@, i as int));
                let k = choose|k: int| #[trigger] pin_at(t@, k) && forall|j: int| 0 <= j < k ==> !pin_at(t@, j);
                assert(k == i) by {
                    if k < i {
                        assert(!pin_at(t@, k));
                    }
                    if k > i {
                        assert(!pin_at(t@, i as int));
                    }
                }
            }
            return String::from_str(t.substring_char(0, i));
        }
        proof {
            assert(!pin_at(t@, i as int));
        }
        i += 1;
    }
    proof {
        assert(!exists|k: int| #[trigger] pin_at(t@, k)) by {
            if exists|k: int| #[trigger] pin_at(t@, k) {
                let k = choose|k: int| #[trigger] pin_at(t@, k);
                assert(k < i);
            }
        }
    }
    String::from_str(t)
}

/// The package names of a `name==version` listing, one per non-blank line.
pub open spec fn pinned_names(ls: Seq<Seq<char>>) -> Seq<Seq<char>>
    decreases ls.len(),
{
    if ls.len() == 0 {
        Seq::empty()
    } else {
        pinned_names(ls.drop_last()) + if trimmed(ls.last()).len() > 0 {
            seq![before_pin(trimmed(ls.last()))]
        } else {
            Seq::empty()
        }
    }
}

/// The package names of `name==version` lines.
pub fn pinned_from_lines(lines: &Vec<String>) -> (r: Vec<String>)
    ensures
        r.deep_view() == pinned_names(lines.deep_view()),
{
    let ghost ls = lines.deep_view();
    let mut r: Vec<String> = Vec::new();
    let mut i: usize = 0;
    while i < lines.len()
        invariant
            i <= lines@.len(),
            ls == lines.deep_view(),
            r.deep_view() == pinned_names(ls.take(i as int)),
        decreases lines@.len() - i,
    {
        proof {
            assert(ls.take(i as int + 1).drop_last() =~= ls.take(i as int));
        }
        let t = trim(lines[i].as_str());
        let ghost before = r.deep_view();
        if !t.is_empty() {
            let name = name_before_pin(t);
            let ghost nv = name@;
            r.push(name);
            proof {
                assert(r.deep_view() =~= before.push(nv));
            }
        }
        i += 1;
    }
    proof {
        assert(ls.take(lines@.len() as int) =~= ls);
    }
    r
}

/// Reads the package names of a `name==version` listing.
pub fn pinned_listing(text: &str) -> (r: Vec<String>)
    ensures
        r.deep_view() == pinned_names(lines_of(text@)),
{
    let lines = split_lines(text);
    pinned_from_lines(&lines)
}

/// The crate names of an installed-binaries listing: the first word of each
/// line that is not indented and not blank.
pub open spec fn unindented_names(ls: Seq<Seq<char>>) -> Seq<Seq<char>>
    decreases ls.len(),
{
    if ls.len() == 0 {
        Seq::empty()
    } else {
        unindented_names(ls.drop_last()) + if ls.last().len() > 0 && ls.last()[0] != ' ' && words_of(
            ls.last(),
        ).len() > 0 {
            seq![words_of(ls.last())[0]]
        } else {
            Seq::empty()
        }
    }
}

/// The crate names of installed-binaries lines.
pub fn unindented_from_lines(lines: &Vec<String>) -> (r: Vec<String>)
    ensures
        r.deep_view() == unindented_names(lines.deep_view()),
{
    let ghost ls = lines.deep_view();
    let mut r: Vec<String> = Vec::new();
    let mut i: usize = 0;
    while i < lines.len()
        invariant
            i <= lines@.len(),
            ls == lines.deep_view(),
            r.deep_view() == unindented_names(ls.take(i as int)),
        decreases lines@.len() - i,
    {
        proof {
            assert(ls.take(i as int + 1).drop_last() =~= ls.take(i as int));
        }
        let l = lines[i].as_str();
        proof {
            assert(ls[i as int] == l@);
        }
        let ghost before = r.deep_view();
        if l.unicode_len() > 0 && l.get_char(0) != ' ' {
            let words = split_words(l);
            if words.len() > 0 {
                r.push(words[0].clone());
                proof {
                    assert(words.deep_view()[0] == words@[0]@);
                    assert(r.deep_view() =~= before.push(words@[0]@));
                }
            }
        }
        i += 1;
    }
    proof {
        assert(ls.take(lines@.len() as int) =~= ls);
    }
    r
}

/// Reads the crate names of an installed-binaries listing.
pub fn unindented_listing(text: &str) -> (r: Vec<String>)
    ensures
        r.deep_view() == unindented_names(lines_of(text@)),
{
    let lines = split_lines(text);
    unindented_from_lines(&lines)
}

} // verus!
