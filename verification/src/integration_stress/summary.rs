use vstd::prelude::*;

use crate::integration_stress::config::RunMode;
use crate::integration_stress::runner::RunReport;
use crate::text::{grouped_string, grouped_text};

verus! {

/// A run lost nothing: it settled, no accepted command is missing its event, no event came
/// twice or without its command, and there is one distinct event per accepted command.
pub open spec fn lossless(report: RunReport) -> bool {
    &&& report.settled
    &&& report.correlator.missing == 0
    &&& report.correlator.duplicates == 0
    &&& report.correlator.unmatched_recv == 0
    &&& report.correlator.unique == report.dispatch.accepted
}

/// Whether the run lost nothing.
pub fn is_lossless(report: &RunReport) -> (r: bool)
    ensures
        r == lossless(*report),
        r ==> report.settled && report.correlator.missing == 0 && report.correlator.duplicates == 0
            && report.correlator.unmatched_recv == 0,
        report.correlator.duplicates > 0 ==> !r,
{
    let c = &report.correlator;
    report.settled && c.missing == 0 && c.duplicates == 0 && c.unmatched_recv == 0 && c.unique
        == report.dispatch.accepted
}

/// The verdict line of a report.
pub fn verdict(report: &RunReport) -> (r: &'static str)
    ensures
        (report.correlator.missing > 0 || report.correlator.duplicates > 0 || report.correlator.unmatched_recv > 0
            || !report.settled) ==> r@ == "실패 (누락/중복/미정착 확인 필요)"@,
        r@ == if lossless(*report) {
            "통과 (누락·중복 없음)"@
        } else {
            "실패 (누락/중복/미정착 확인 필요)"@
        },
{
    if is_lossless(report) {
        "통과 (누락·중복 없음)"
    } else {
        "실패 (누락/중복/미정착 확인 필요)"
    }
}

/// `"예"` or `"아니오"`.
pub fn yes_no(value: bool) -> (r: &'static str)
    ensures
        r@ == if value { "예"@ } else { "아니오"@ },
{
    if value {
        "예"
    } else {
        "아니오"
    }
}

/// A count with a comma between each group of three digits.
pub fn count(value: u64) -> (r: String)
    ensures
        r@ == grouped_text(value as nat),
{
    grouped_string(value)
}

/// The commands a paced run aims to send in its measured phase (rate times duration);
/// `None` for a burst run.
pub fn target_commands(mode: RunMode) -> (r: Option<u64>)
    ensures
        r == match mode {
            RunMode::Burst { .. } => None,
            RunMode::Paced { duration_sec, target_commands_per_sec, .. } => if target_commands_per_sec * duration_sec
                <= u64::MAX {
                Some((target_commands_per_sec * duration_sec) as u64)
            } else {
                Some(u64::MAX)
            },
        },
{
    match mode {
        RunMode::Burst { .. } => None,
        RunMode::Paced { duration_sec, target_commands_per_sec, .. } => match target_commands_per_sec.checked_mul(
            duration_sec,
        ) {
            Some(n) => Some(n),
            None => Some(u64::MAX),
        },
    }
}

/// Whether a paced run sent at least the commands it aimed at.
pub fn target_reached(attempted: usize, target: u64) -> (r: bool)
    ensures
        r == (attempted >= target),
{
    attempted as u64 >= target
}

/// A run judged lossless settled and has no missing event, no duplicate event and no event
/// without its command; a single duplicate is enough to fail it.
pub proof fn law_lossless_needs_no_missing_duplicate_or_unmatched(report: RunReport)
    requires
        lossless(report),
    ensures
        report.settled,
        report.correlator.missing == 0,
        report.correlator.duplicates == 0,
        report.correlator.unmatched_recv == 0,
        report.correlator.unique == report.dispatch.accepted,
{
}

} // verus!
