//! Dotfiles: a file or directory of the project installed into the home
//! directory, fingerprinted by content.
use vstd::prelude::*;
use crate::engine::Verdict;

verus! {

/// One step of installing a dotfile.
#[derive(Clone, Copy, Debug, PartialEq, Eq, Structural)]
pub enum DotfileOp {
    /// Move the copy in the home directory aside.
    Backup,
    /// Copy the project's version into the home directory.
    Copy,
}

/// A copy that is missing is installed without asking; one that differs is
/// replaced only once the operator agreed, after a backup.
pub open spec fn dotfile_ops_of(v: Verdict, confirmed: bool) -> Seq<DotfileOp> {
    match v {
        Verdict::Create => seq![DotfileOp::Copy],
        Verdict::Update | Verdict::Recreate => if confirmed {
            seq![DotfileOp::Backup, DotfileOp::Copy]
        } else {
            Seq::empty()
        },
        _ => Seq::empty(),
    }
}

/// Whether installing a dotfile needs the operator's consent.
pub fn needs_consent(v: Verdict) -> (r: bool)
    ensures
        r == (v == Verdict::Update || v == Verdict::Recreate),
        !r ==> dotfile_ops_of(v, false) == dotfile_ops_of(v, true),
{
    match v {
        Verdict::Update | Verdict::Recreate => true,
        _ => false,
    }
}

/// The steps for a dotfile, given its verdict and the operator's answer.
pub fn dotfile_ops(v: Verdict, confirmed: bool) -> (r: Vec<DotfileOp>)
    ensures
        r@ == dotfile_ops_of(v, confirmed),
{
    let r = match v {
        Verdict::Create => vec![DotfileOp::Copy],
        Verdict::Update | Verdict::Recreate => if confirmed {
            vec![DotfileOp::Backup, DotfileOp::Copy]
        } else {
            Vec::new()
        },
        _ => Vec::new(),
    };
    proof {
        assert(r@ =~= dotfile_ops_of(v, confirmed));
    }
    r
}

} // verus!
