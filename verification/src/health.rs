//! What follows a post-apply verification: a fully verified policy becomes
//! the last-known-good checkpoint, anything else is one more consecutive
//! failure, and the failure that reaches the threshold (or that finds the
//! failure journal unusable) puts the module into automatic safe mode.
use vstd::prelude::*;

use crate::checkpoint::{
    record_failure, sanitized_message, FailureState, AUTOMATIC_SAFE_MODE_THRESHOLD,
    MAX_FAILURE_MESSAGE_BYTES,
};
use crate::policy::{VerificationSnapshot, VerificationSummary};
use crate::text::{
    chars_of, decimal, joined, join_strings, lemma_cut_text_truncatable, owned, push_str,
    string_of, string_views, take_bytes, truncate_bytes, u64_to_string,
};

verus! {

/// Reason recorded when consecutive failures reach the threshold.
pub const THRESHOLD_SAFE_MODE_REASON: &'static str =
    "automatic: consecutive post-apply verification failures";

/// Reason recorded when a failure finds the failure journal unusable.
pub const UNUSABLE_JOURNAL_SAFE_MODE_REASON: &'static str =
    "automatic: policy failure with an unusable failure journal";

/// What the daemon does after verifying an applied policy.
#[derive(Debug, Clone)]
pub enum HealthStep {
    /// Everything read back as applied: persist the checkpoint of the
    /// applied policy and clear the failure journal.
    PersistCheckpoint,
    /// Store `state` as the failure journal; enter automatic safe mode when
    /// `automatic_safe_mode` is set.
    RecordFailure { state: FailureState, automatic_safe_mode: bool },
    /// The failure journal cannot be read: it is left as it is, automatic
    /// safe mode is requested and `error` is reported.
    JournalUnusable { error: String },
}

/// No drifted or unavailable value, no verification error and no apply
/// failure.
pub open spec fn fully_verified(verification: VerificationSnapshot, apply_failures: Seq<Seq<char>>) -> bool {
    verification.summary.drifted == 0 && verification.summary.unavailable == 0
        && verification.errors@.len() == 0 && apply_failures.len() == 0
}

pub open spec fn summary_head(summary: VerificationSummary) -> Seq<char> {
    "post-apply verification failed: "@ + decimal(summary.drifted as nat) + " drifted, "@
        + decimal(summary.unavailable as nat) + " unavailable"@
}

/// The failure message: the counts, then every apply failure and every
/// verification error, separated by "; ", cut to the journal's byte limit.
pub open spec fn failure_text(verification: VerificationSnapshot, apply_failures: Seq<Seq<char>>) -> Seq<
    char,
> {
    take_bytes(
        joined(
            seq![summary_head(verification.summary)] + apply_failures + string_views(
                verification.errors@,
            ),
            "; "@,
        ),
        MAX_FAILURE_MESSAGE_BYTES as nat,
    )
}

/// The failure count after one more failure.
pub open spec fn next_failure_count(count: u32) -> u32 {
    if count == u32::MAX {
        u32::MAX
    } else {
        (count + 1) as u32
    }
}

fn copy_strings(out: &mut Vec<String>, values: &Vec<String>)
    ensures
        string_views(final(out)@) == string_views(old(out)@) + string_views(values@),
{
    let mut k: usize = 0;
    assert(string_views(values@).subrange(0, 0) =~= seq![]);
    assert(string_views(out@) =~= string_views(old(out)@) + seq![]);
    while k < values.len()
        invariant
            k <= values@.len(),
            string_views(out@) == string_views(old(out)@) + string_views(values@).subrange(
                0,
                k as int,
            ),
        decreases values@.len() - k,
    {
        let ghost before = out@;
        let item = owned(values[k].as_str());
        out.push(item);
        assert(string_views(out@) =~= string_views(before).push(item@));
        assert(string_views(values@).subrange(0, k + 1) =~= string_views(values@).subrange(
            0,
            k as int,
        ).push(values@[k as int]@));
        k += 1;
    }
    assert(string_views(values@).subrange(0, values@.len() as int) =~= string_views(values@));
}

fn failure_message(verification: &VerificationSnapshot, apply_failures: &Vec<String>) -> (r: String)
    ensures
        r@ == failure_text(*verification, string_views(apply_failures@)),
{
    let mut head = owned("post-apply verification failed: ");
    let drifted = u64_to_string(verification.summary.drifted as u64);
    push_str(&mut head, drifted.as_str());
    push_str(&mut head, " drifted, ");
    let unavailable = u64_to_string(verification.summary.unavailable as u64);
    push_str(&mut head, unavailable.as_str());
    push_str(&mut head, " unavailable");
    let mut parts: Vec<String> = Vec::new();
    parts.push(head);
    assert(string_views(parts@) =~= seq![summary_head(verification.summary)]);
    copy_strings(&mut parts, apply_failures);
    copy_strings(&mut parts, &verification.errors);
    let whole = join_strings(&parts, "; ");
    let chars = chars_of(whole.as_str());
    let cut = truncate_bytes(chars.as_slice(), MAX_FAILURE_MESSAGE_BYTES);
    string_of(cut.as_slice())
}

/// Decides what follows the verification of an applied policy, given the
/// failures of applying it and the failure journal as read.
pub fn after_verification(
    verification: &VerificationSnapshot,
    apply_failures: &Vec<String>,
    journal: Result<FailureState, String>,
) -> (r: HealthStep)
    ensures
        fully_verified(*verification, string_views(apply_failures@)) ==> r is PersistCheckpoint,
        !fully_verified(*verification, string_views(apply_failures@)) ==> match journal {
            Err(e) => r matches HealthStep::JournalUnusable { error } && error@ == e@,
            Ok(s) => r matches HealthStep::RecordFailure { state, automatic_safe_mode }
                && state.format_version == s.format_version && state.consecutive_failures
                == next_failure_count(s.consecutive_failures) && state.last_error@
                == sanitized_message(failure_text(*verification, string_views(apply_failures@)))
                && automatic_safe_mode == (state.consecutive_failures
                >= AUTOMATIC_SAFE_MODE_THRESHOLD),
        },
{
    if verification.summary.drifted == 0 && verification.summary.unavailable == 0
        && verification.errors.len() == 0 && apply_failures.len() == 0 {
        return HealthStep::PersistCheckpoint;
    }
    match journal {
        Err(error) => HealthStep::JournalUnusable { error },
        Ok(current) => {
            let message = failure_message(verification, apply_failures);
            proof {
                let whole = joined(
                    seq![summary_head(verification.summary)] + string_views(apply_failures@)
                        + string_views(verification.errors@),
                    "; "@,
                );
                lemma_cut_text_truncatable(whole, MAX_FAILURE_MESSAGE_BYTES as nat);
            }
            let state = record_failure(&current, message.as_str());
            let automatic_safe_mode = state.consecutive_failures >= AUTOMATIC_SAFE_MODE_THRESHOLD;
            HealthStep::RecordFailure { state, automatic_safe_mode }
        },
    }
}

/// Starting from a cleared journal, the first two consecutive failures keep
/// the policy running and the third, like every later one, enters
/// automatic safe mode.
pub proof fn lemma_third_failure_enters_safe_mode(count: u32)
    ensures
        next_failure_count(count) >= AUTOMATIC_SAFE_MODE_THRESHOLD <==> count
            >= AUTOMATIC_SAFE_MODE_THRESHOLD - 1,
        next_failure_count(0) < AUTOMATIC_SAFE_MODE_THRESHOLD,
        next_failure_count(next_failure_count(0)) < AUTOMATIC_SAFE_MODE_THRESHOLD,
        next_failure_count(next_failure_count(next_failure_count(0)))
            >= AUTOMATIC_SAFE_MODE_THRESHOLD,
{
}

} // verus!
