//! The confirmation policy: one mode for the whole run, and the reading of
//! an operator's answer.
use vstd::prelude::*;
use crate::fingerprint::{trim, trimmed};
use crate::text::concat;

verus! {

/// How questions are answered during a run.
#[derive(Clone, Copy, Debug, PartialEq, Eq, Structural)]
pub enum ConfirmMode {
    AutoYes,
    AutoNo,
    Interactive,
}

/// Configuration that is rejected before any domain runs.
#[derive(Clone, Copy, Debug, PartialEq, Eq, Structural)]
pub enum ConfigError {
    /// Both automatic yes and automatic no were asked for.
    ConflictingAnswers,
}

/// The mode given by the `--yes` and `--no` switches.
pub fn confirm_mode(yes: bool, no: bool) -> (r: Result<ConfirmMode, ConfigError>)
    ensures
        yes && no ==> r == Err::<ConfirmMode, ConfigError>(ConfigError::ConflictingAnswers),
        yes && !no ==> r == Ok::<ConfirmMode, ConfigError>(ConfirmMode::AutoYes),
        !yes && no ==> r == Ok::<ConfirmMode, ConfigError>(ConfirmMode::AutoNo),
        !yes && !no ==> r == Ok::<ConfirmMode, ConfigError>(ConfirmMode::Interactive),
{
    if yes && no {
        Err(ConfigError::ConflictingAnswers)
    } else if yes {
        Ok(ConfirmMode::AutoYes)
    } else if no {
        Ok(ConfirmMode::AutoNo)
    } else {
        Ok(ConfirmMode::Interactive)
    }
}

/// The answer a mode gives without asking; `None` where the operator is asked.
pub fn automatic_answer(mode: ConfirmMode) -> (r: Option<bool>)
    ensures
        mode == ConfirmMode::AutoYes ==> r == Some(true),
        mode == ConfirmMode::AutoNo ==> r == Some(false),
        mode == ConfirmMode::Interactive ==> r is None,
{
    match mode {
        ConfirmMode::AutoYes => Some(true),
        ConfirmMode::AutoNo => Some(false),
        ConfirmMode::Interactive => None,
    }
}

/// The text in lower case.
pub uninterp spec fn lower_of(s: Seq<char>) -> Seq<char>;

/// Relies on `str::to_lowercase`: the lower-case form of the text, which
/// depends on the text alone.
#[verifier::external_body]
pub(crate) fn lowercase(s: &str) -> (r: String)
    ensures
        r@ == lower_of(s@),
{
    s.to_lowercase()
}

/// The meaning of an answer already trimmed and lower-cased.
pub open spec fn answer_of(s: Seq<char>) -> Option<bool> {
    if s == "y"@ || s == "yes"@ {
        Some(true)
    } else if s == "n"@ || s == "no"@ {
        Some(false)
    } else {
        None
    }
}

/// Reads an answer already trimmed and lower-cased.
pub fn answer_from_folded(s: &str) -> (r: Option<bool>)
    ensures
        r == answer_of(s@),
{
    let t = String::from_str(s);
    if t == String::from_str("y") || t == String::from_str("yes") {
        Some(true)
    } else if t == String::from_str("n") || t == String::from_str("no") {
        Some(false)
    } else {
        None
    }
}

/// Reads one line typed by the operator: yes or no in any case, with
/// surrounding whitespace; `None` asks the question again.
pub fn parse_answer(line: &str) -> (r: Option<bool>)
    ensures
        r == answer_of(lower_of(trimmed(line@))),
{
    let folded = lowercase(trim(line));
    answer_from_folded(folded.as_str())
}

/// What the log shows for a question and the answer it received.
pub fn answer_echo(prompt: &str, answer: bool) -> (r: String)
    ensures
        r@ == prompt@ + (if answer {
            " (y/n): y"@
        } else {
            " (y/n): n"@
        }),
{
    if answer {
        concat(prompt, " (y/n): y")
    } else {
        concat(prompt, " (y/n): n")
    }
}

} // verus!
