//! Drives: the mount and unlock tables, kept with one entry per mount point
//! or mapped device.
use vstd::prelude::*;
use crate::fingerprint::{trim, trimmed};
use crate::text::{concat, replace_all, replaced, split_words, words_of};
use crate::validate::{lines_of, split_lines};

verus! {

/// How a table file is brought up to date.
#[derive(Clone, Debug)]
pub enum TableEdit {
    /// An entry is there and no update was asked for.
    Unchanged,
    /// No entry is there: the line is appended.
    Append(String),
    /// An entry is there and an update was asked for: the whole new text.
    Rewrite(String),
}

/// The lines joined by newlines, with none after the last.
pub open spec fn newline_joined(ls: Seq<Seq<char>>) -> Seq<char>
    decreases ls.len(),
{
    if ls.len() == 0 {
        Seq::empty()
    } else if ls.len() == 1 {
        ls[0]
    } else {
        newline_joined(ls.drop_last()) + seq!['\n'] + ls.last()
    }
}

/// The lines whose flag is not set, in order.
pub open spec fn kept_lines(ls: Seq<Seq<char>>, hit: Seq<bool>) -> Seq<Seq<char>>
    decreases ls.len(),
{
    if ls.len() == 0 || hit.len() != ls.len() {
        Seq::empty()
    } else {
        kept_lines(ls.drop_last(), hit.drop_last()) + if hit.last() {
            Seq::empty()
        } else {
            seq![ls.last()]
        }
    }
}

/// The table rewritten: the other lines, then the entry.
pub open spec fn rewritten(ls: Seq<Seq<char>>, hit: Seq<bool>, entry: Seq<char>) -> Seq<char> {
    let rest = newline_joined(kept_lines(ls, hit));
    if trimmed(rest).len() == 0 {
        entry
    } else {
        rest + seq!['\n'] + entry
    }
}

/// The edit for a table whose lines that hold the entry's key are flagged.
pub open spec fn table_edit_ok(
    r: TableEdit,
    ls: Seq<Seq<char>>,
    hit: Seq<bool>,
    entry: Seq<char>,
    force: bool,
) -> bool {
    let present = exists|i: int| 0 <= i < hit.len() && hit[i];
    match r {
        TableEdit::Unchanged => present && !force,
        TableEdit::Append(t) => !present && t@ == entry,
        TableEdit::Rewrite(t) => present && force && t@ == rewritten(ls, hit, entry),
    }
}

fn newline() -> (r: &'static str)
    ensures
        r@ == seq!['\n'],
{
    proof {
        reveal_strlit("\n");
    }
    "\n"
}

/// Decides the edit of a table given which of its lines hold the entry's key.
pub fn table_edit(lines: &Vec<String>, hit: &Vec<bool>, entry: &String, force: bool) -> (r: TableEdit)
    requires
        hit@.len() == lines@.len(),
    ensures
        table_edit_ok(r, lines.deep_view(), hit@, entry@, force),
{
    let ghost ls = lines.deep_view();
    let mut present = false;
    let mut rest = String::new();
    let mut kept: usize = 0;
    let mut i: usize = 0;
    while i < lines.len()
        invariant
            i <= lines@.len(),
            hit@.len() == lines@.len(),
            ls == lines.deep_view(),
            present == exists|j: int| 0 <= j < i && hit@[j],
            kept == kept_lines(ls.take(i as int), hit@.take(i as int)).len(),
            kept <= i,
            rest@ == newline_joined(kept_lines(ls.take(i as int), hit@.take(i as int))),
        decreases lines@.len() - i,
    {
        proof {
            assert(ls.take(i as int + 1).drop_last() =~= ls.take(i as int));
            assert(hit@.take(i as int + 1).drop_last() =~= hit@.take(i as int));
            assert(ls.take(i as int + 1).last() == lines@[i as int]@);
        }
        let ghost before = kept_lines(ls.take(i as int), hit@.take(i as int));
        if hit[i] {
            present = true;
            proof {
                assert(kept_lines(ls.take(i as int + 1), hit@.take(i as int + 1)) =~= before);
            }
        } else {
            if kept > 0 {
                rest.append(newline());
            }
            rest.append(lines[i].as_str());
            kept += 1;
            proof {
                let after = kept_lines(ls.take(i as int + 1), hit@.take(i as int + 1));
                assert(after =~= before.push(lines@[i as int]@));
                assert(after.drop_last() =~= before);
                if before.len() == 0 {
                    assert(newline_joined(after) == after[0]);
                }
            }
        }
        i += 1;
    }
    proof {
        assert(ls.take(lines@.len() as int) =~= ls);
        assert(hit@.take(lines@.len() as int) =~= hit@);
    }
    if !present {
        return TableEdit::Append(entry.clone());
    }
    if !force {
        return TableEdit::Unchanged;
    }
    if trim(rest.as_str()).is_empty() {
        TableEdit::Rewrite(entry.clone())
    } else {
        rest.append(newline());
        rest.append(entry.as_str());
        TableEdit::Rewrite(rest)
    }
}

/// A mount table line mounts at `mount_point`: its second word names it.
pub open spec fn mounts_at(line: Seq<char>, mount_point: Seq<char>) -> bool {
    words_of(line).len() > 1 && words_of(line)[1] == mount_point
}

/// The mount table entry for a device.
pub open spec fn fstab_entry_of(
    device: Seq<char>,
    mount_point: Seq<char>,
    filesystem: Seq<char>,
    options: Seq<char>,
) -> Seq<char> {
    device + " "@ + mount_point + " "@ + filesystem + " "@ + options + " 0 2"@
}

/// Builds a mount table entry.
pub fn fstab_entry(device: &str, mount_point: &str, filesystem: &str, options: &str) -> (r: String)
    ensures
        r@ == fstab_entry_of(device@, mount_point@, filesystem@, options@),
{
    let mut r = String::from_str(device);
    r.append(" ");
    r.append(mount_point);
    r.append(" ");
    r.append(filesystem);
    r.append(" ");
    r.append(options);
    r.append(" 0 2");
    r
}

/// Which lines of a mount table mount at `mount_point`.
pub fn mount_hits(lines: &Vec<String>, mount_point: &String) -> (r: Vec<bool>)
    ensures
        r@.len() == lines@.len(),
        forall|i: int| 0 <= i < r@.len() ==> r@[i] == mounts_at(#[trigger] lines@[i]@, mount_point@),
{
    let mut r: Vec<bool> = Vec::new();
    let mut i: usize = 0;
    while i < lines.len()
        invariant
            i <= lines@.len(),
            r@.len() == i,
            forall|j: int| 0 <= j < i ==> r@[j] == mounts_at(#[trigger] lines@[j]@, mount_point@),
        decreases lines@.len() - i,
    {
        let words = split_words(lines[i].as_str());
        let hit = words.len() > 1 && words[1] == *mount_point;
        proof {
            if words@.len() > 1 {
                assert(words.deep_view()[1] == words@[1]@);
            }
        }
        r.push(hit);
        i += 1;
    }
    r
}

/// The edit that gives a mount table an entry for `mount_point`.
pub fn fstab_edit(content: &str, mount_point: &String, entry: &String, force: bool) -> (r: TableEdit)
    ensures
        table_edit_ok(
            r,
            lines_of(content@),
            Seq::new(lines_of(content@).len(), |i: int| mounts_at(lines_of(content@)[i], mount_point@)),
            entry@,
            force,
        ),
{
    let lines = split_lines(content);
    let hit = mount_hits(&lines, mount_point);
    proof {
        assert forall|i: int| 0 <= i < hit@.len() implies hit@[i] == mounts_at(
            #[trigger] lines_of(content@)[i],
            mount_point@,
        ) by {
            assert(lines.deep_view()[i] == lines@[i]@);
        }
        assert(hit@ =~= Seq::new(lines_of(content@).len(), |i: int| mounts_at(lines_of(content@)[i], mount_point@)));
    }
    table_edit(&lines, &hit, entry, force)
}

/// An unlock table line names the mapped device `name`: its trimmed text is
/// the name, or starts with the name and a space.
pub open spec fn names_mapping(line: Seq<char>, name: Seq<char>) -> bool {
    let t = trimmed(line);
    t == name || (t.len() > name.len() && t.subrange(0, name.len() as int) == name && t[name.len() as int]
        == ' ')
}

/// The unlock table entry for a mapped device.
pub open spec fn crypttab_entry_of(name: Seq<char>, uuid: Seq<char>) -> Seq<char> {
    name + " UUID="@ + uuid + " none luks"@
}

/// Builds an unlock table entry.
pub fn crypttab_entry(name: &str, uuid: &str) -> (r: String)
    ensures
        r@ == crypttab_entry_of(name@, uuid@),
{
    let mut r = String::from_str(name);
    r.append(" UUID=");
    r.append(uuid);
    r.append(" none luks");
    r
}

fn names_mapping_exec(line: &str, name: &String) -> (r: bool)
    ensures
        r == names_mapping(line@, name@),
{
    let t = trim(line);
    let n = name.as_str().unicode_len();
    let tl = t.unicode_len();
    if String::from_str(t) == *name {
        return true;
    }
    if tl > n {
        let head = String::from_str(t.substring_char(0, n));
        return head == *name && t.get_char(n) == ' ';
    }
    false
}

/// The edit that gives an unlock table an entry for the mapped device `name`.
pub fn crypttab_edit(content: &str, name: &String, entry: &String, force: bool) -> (r: TableEdit)
    ensures
        table_edit_ok(
            r,
            lines_of(content@),
            Seq::new(lines_of(content@).len(), |i: int| names_mapping(lines_of(content@)[i], name@)),
            entry@,
            force,
        ),
{
    let lines = split_lines(content);
    let mut hit: Vec<bool> = Vec::new();
    let mut i: usize = 0;
    while i < lines.len()
        invariant
            i <= lines@.len(),
            hit@.len() == i,
            forall|j: int| 0 <= j < i ==> hit@[j] == names_mapping(#[trigger] lines@[j]@, name@),
        decreases lines@.len() - i,
    {
        hit.push(names_mapping_exec(lines[i].as_str(), name));
        i += 1;
    }
    proof {
        assert forall|i: int| 0 <= i < hit@.len() implies hit@[i] == names_mapping(
            #[trigger] lines_of(content@)[i],
            name@,
        ) by {
            assert(lines.deep_view()[i] == lines@[i]@);
        }
        assert(hit@ =~= Seq::new(lines_of(content@).len(), |i: int| names_mapping(lines_of(content@)[i], name@)));
    }
    table_edit(&lines, &hit, entry, force)
}

/// The mapped-device name for an encrypted drive: its label, or its device
/// path without `/dev/` and with `/` replaced by `_`.
pub open spec fn mapper_name_of(device: Seq<char>, label: Option<Seq<char>>) -> Seq<char> {
    match label {
        Some(l) => l,
        None => replaced(replaced(device, "/dev/"@, Seq::empty()), "/"@, "_"@),
    }
}

/// The mapped-device name for an encrypted drive.
pub fn mapper_name(device: &str, label: Option<&str>) -> (r: String)
    ensures
        r@ == mapper_name_of(
            device@,
            match label {
                Some(l) => Some(l@),
                None => None,
            },
        ),
{
    match label {
        Some(l) => String::from_str(l),
        None => {
            let dev = "/dev/";
            let empty = "";
            let slash = "/";
            proof {
                reveal_strlit("/dev/");
                reveal_strlit("");
                reveal_strlit("/");
                assert(empty@ =~= Seq::<char>::empty());
            }
            let a = replace_all(device, dev, empty);
            replace_all(a.as_str(), slash, "_")
        },
    }
}

} // verus!
