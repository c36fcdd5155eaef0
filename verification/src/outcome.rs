//! How an agent run ended, as the runner reports it.

use crate::text::{has_prefix, has_suffix, lemma_ends};
use vstd::prelude::*;

verus! {

/// A process run that came to an end.
#[derive(Debug, PartialEq, Eq)]
pub struct RunOutcome {
    pub exit_code: i32,
    pub timed_out: bool,
    pub duration_seconds: i64,
    pub stdout_tail: String,
    pub stderr_tail: String,
    pub stdout_truncated_lines: usize,
    pub stderr_truncated_lines: usize,
}

/// What running an agent with its hooks came to.
#[derive(Debug, PartialEq, Eq)]
pub enum OrchestratedOutcome {
    Ran(RunOutcome),
    /// A preflight check stopped the run before it started.
    PreflightFailed { plugin: String, suggest: Option<String> },
}

/// The hint a preflight failure carries into a message.
pub open spec fn hint_text(suggest: Option<String>) -> Seq<char> {
    match suggest {
        Some(s) => ": "@ + s@,
        None => Seq::empty(),
    }
}

/// Append the hint of a preflight failure.
pub fn append_hint(out: &mut String, suggest: &Option<String>)
    ensures
        final(out)@ == old(out)@ + hint_text(*suggest),
{
    let ghost before = out@;
    match suggest {
        Some(s) => {
            let mut hint = ": ".to_owned();
            hint.append(s.as_str());
            out.append(hint.as_str());
        },
        None => {
            proof {
                assert(before + Seq::<char>::empty() =~= before);
            }
        },
    }
}

/// What a check suggests stands behind a colon, and a check that suggests nothing
/// adds nothing.
pub proof fn a_hint_is_what_was_suggested(suggest: String)
    ensures
        has_suffix(hint_text(Some(suggest)), suggest@),
        has_prefix(hint_text(Some(suggest)), ": "@),
        hint_text(None).len() == 0,
{
    lemma_ends(": "@, suggest@);
}

} // verus!
