//! The shared status chip: the mapping from a run's status and conclusion to
//! the chip's text and colour class, which rows and detail page share.

use vstd::prelude::*;
use vstd::string::*;

use crate::github::types::{Conclusion, RunStatus};

verus! {

/// The chip's text for a completed run.
pub open spec fn conclusion_label(conclusion: Option<Conclusion>) -> Seq<char> {
    match conclusion {
        Some(Conclusion::Success) => "Success"@,
        Some(Conclusion::Failure) => "Failure"@,
        Some(Conclusion::Cancelled) => "Cancelled"@,
        Some(Conclusion::Skipped) => "Skipped"@,
        Some(Conclusion::TimedOut) => "Timed out"@,
        Some(Conclusion::ActionRequired) => "Action required"@,
        Some(Conclusion::Neutral) => "Neutral"@,
        Some(Conclusion::StartupFailure) => "Startup failure"@,
        Some(Conclusion::Stale) => "Stale"@,
        Some(Conclusion::Unknown) => "Completed"@,
        None => "Completed"@,
    }
}

/// The chip's text for a run.
pub open spec fn chip_label(status: RunStatus, conclusion: Option<Conclusion>) -> Seq<char> {
    match status {
        RunStatus::Queued => "Queued"@,
        RunStatus::InProgress => "Running"@,
        RunStatus::Cancelling => "Cancelling"@,
        RunStatus::Unknown => "Unknown"@,
        RunStatus::Completed => conclusion_label(conclusion),
    }
}

/// The chip's human-readable label for a run's status/conclusion.
pub fn label(status: RunStatus, conclusion: Option<Conclusion>) -> (r: &'static str)
    ensures
        r@ == chip_label(status, conclusion),
{
    match status {
        RunStatus::Queued => "Queued",
        RunStatus::InProgress => "Running",
        RunStatus::Cancelling => "Cancelling",
        RunStatus::Unknown => "Unknown",
        RunStatus::Completed => match conclusion {
            Some(Conclusion::Success) => "Success",
            Some(Conclusion::Failure) => "Failure",
            Some(Conclusion::Cancelled) => "Cancelled",
            Some(Conclusion::Skipped) => "Skipped",
            Some(Conclusion::TimedOut) => "Timed out",
            Some(Conclusion::ActionRequired) => "Action required",
            Some(Conclusion::Neutral) => "Neutral",
            Some(Conclusion::StartupFailure) => "Startup failure",
            Some(Conclusion::Stale) => "Stale",
            Some(Conclusion::Unknown) => "Completed",
            None => "Completed",
        },
    }
}

/// The chip's colour class for a run: green success, red failure, blue in
/// progress, amber queued or wanting attention, neutral for the rest.
pub open spec fn chip_variant(status: RunStatus, conclusion: Option<Conclusion>) -> Seq<char> {
    match status {
        RunStatus::Queued => "warning"@,
        RunStatus::InProgress => "accent"@,
        RunStatus::Cancelling => "neutral"@,
        RunStatus::Unknown => "neutral"@,
        RunStatus::Completed => match conclusion {
            Some(c) => if c is Success {
                "success"@
            } else if c.failed() {
                "error"@
            } else if c is ActionRequired {
                "warning"@
            } else {
                "neutral"@
            },
            None => "neutral"@,
        },
    }
}

/// The chip's colour-variant class (paired with `status-chip`).
pub fn variant(status: RunStatus, conclusion: Option<Conclusion>) -> (r: &'static str)
    ensures
        r@ == chip_variant(status, conclusion),
{
    match status {
        RunStatus::Queued => "warning",
        RunStatus::InProgress => "accent",
        RunStatus::Cancelling => "neutral",
        RunStatus::Unknown => "neutral",
        RunStatus::Completed => match conclusion {
            Some(Conclusion::Success) => "success",
            Some(Conclusion::Failure | Conclusion::TimedOut | Conclusion::StartupFailure) => "error",
            Some(Conclusion::ActionRequired) => "warning",
            // Cancelled, Skipped, Neutral, Stale, Unknown, or still-null.
            _ => "neutral",
        },
    }
}

/// A chip to draw: its classes and its text.
#[derive(Debug)]
pub struct Chip {
    pub variant: &'static str,
    pub label: &'static str,
}

/// The chip for a run, a job or a step.
pub fn build(status: RunStatus, conclusion: Option<Conclusion>) -> (r: Chip)
    ensures
        r.variant@ == chip_variant(status, conclusion),
        r.label@ == chip_label(status, conclusion),
{
    Chip { variant: variant(status, conclusion), label: label(status, conclusion) }
}

/// A chip is red exactly for a completed run whose conclusion is a failure.
pub proof fn law_red_is_failed(status: RunStatus, conclusion: Option<Conclusion>)
    ensures
        (chip_variant(status, conclusion) == "error"@) == (status is Completed && (
        conclusion matches Some(c) && c.failed())),
{
    reveal_strlit("error");
    reveal_strlit("warning");
    reveal_strlit("accent");
    reveal_strlit("neutral");
    reveal_strlit("success");
    assert("error"@.len() == 5 && "warning"@.len() == 7 && "accent"@.len() == 6);
    assert("neutral"@.len() == 7 && "success"@.len() == 7);
}

/// A chip's colour by what it stands for: queued or wanting action is amber, in
/// progress blue, passed green, gone wrong red, and the rest neutral.
pub proof fn law_colour_by_state(conclusion: Option<Conclusion>)
    ensures
        chip_variant(RunStatus::Queued, conclusion) == "warning"@,
        chip_variant(RunStatus::InProgress, conclusion) == "accent"@,
        chip_variant(RunStatus::Cancelling, conclusion) == "neutral"@,
        chip_variant(RunStatus::Unknown, conclusion) == "neutral"@,
        chip_variant(RunStatus::Completed, Some(Conclusion::Success)) == "success"@,
        chip_variant(RunStatus::Completed, Some(Conclusion::Failure)) == "error"@,
        chip_variant(RunStatus::Completed, Some(Conclusion::TimedOut)) == "error"@,
        chip_variant(RunStatus::Completed, Some(Conclusion::StartupFailure)) == "error"@,
        chip_variant(RunStatus::Completed, Some(Conclusion::ActionRequired)) == "warning"@,
        chip_variant(RunStatus::Completed, Some(Conclusion::Cancelled)) == "neutral"@,
        chip_variant(RunStatus::Completed, Some(Conclusion::Skipped)) == "neutral"@,
        chip_variant(RunStatus::Completed, Some(Conclusion::Neutral)) == "neutral"@,
        chip_variant(RunStatus::Completed, Some(Conclusion::Stale)) == "neutral"@,
        chip_variant(RunStatus::Completed, Some(Conclusion::Unknown)) == "neutral"@,
        chip_variant(RunStatus::Completed, None) == "neutral"@,
{
}

/// A chip's text by what it stands for: the conclusion of a completed run, the
/// status of any other.
pub proof fn law_text_by_state(conclusion: Option<Conclusion>)
    ensures
        chip_label(RunStatus::Queued, conclusion) == "Queued"@,
        chip_label(RunStatus::InProgress, conclusion) == "Running"@,
        chip_label(RunStatus::Cancelling, conclusion) == "Cancelling"@,
        chip_label(RunStatus::Unknown, conclusion) == "Unknown"@,
        chip_label(RunStatus::Completed, Some(Conclusion::Success)) == "Success"@,
        chip_label(RunStatus::Completed, Some(Conclusion::Failure)) == "Failure"@,
        chip_label(RunStatus::Completed, Some(Conclusion::Cancelled)) == "Cancelled"@,
        chip_label(RunStatus::Completed, Some(Conclusion::Skipped)) == "Skipped"@,
        chip_label(RunStatus::Completed, Some(Conclusion::TimedOut)) == "Timed out"@,
        chip_label(RunStatus::Completed, Some(Conclusion::ActionRequired)) == "Action required"@,
        chip_label(RunStatus::Completed, Some(Conclusion::Neutral)) == "Neutral"@,
        chip_label(RunStatus::Completed, Some(Conclusion::StartupFailure)) == "Startup failure"@,
        chip_label(RunStatus::Completed, Some(Conclusion::Stale)) == "Stale"@,
        chip_label(RunStatus::Completed, Some(Conclusion::Unknown)) == "Completed"@,
        chip_label(RunStatus::Completed, None) == "Completed"@,
{
}

} // verus!
