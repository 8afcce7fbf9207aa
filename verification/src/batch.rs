//! The outcome of each job of a batch, and the summary of a batch.

use vstd::prelude::*;
use crate::planner::Job;

verus! {

/// How one job ended.
#[derive(Debug)]
pub enum JobOutcome {
    /// The output was written to `output_path`.
    Success { output_path: String },
    /// The job for `input_path` failed; `description` says why.
    Failure { input_path: String, description: String },
}

/// What a batch did: how many jobs succeeded, how many failed, and the
/// descriptions of the failures in the order of the jobs.
#[derive(Debug)]
pub struct BatchSummary {
    pub success: usize,
    pub failure: usize,
    pub failures: Vec<String>,
}

/// The outcome of a job from what went wrong in it, if anything did: a
/// failure names the input and keeps the description, a success names the
/// output.
pub fn conclude(job: &Job, failure: Option<String>) -> (outcome: JobOutcome)
    ensures
        match failure {
            Some(text) => outcome matches JobOutcome::Failure { input_path, description }
                && input_path@ == job.input_path@ && description@ == text@,
            None => outcome matches JobOutcome::Success { output_path } && output_path@
                == job.output_path@,
        },
{
    match failure {
        Some(text) => JobOutcome::Failure { input_path: job.input_path.clone(), description: text },
        None => JobOutcome::Success { output_path: job.output_path.clone() },
    }
}

/// The number of successes among `outcomes`.
pub open spec fn success_count(outcomes: Seq<JobOutcome>) -> nat
    decreases outcomes.len(),
{
    if outcomes.len() == 0 {
        0
    } else {
        success_count(outcomes.drop_last()) + if outcomes.last() is Success {
            1nat
        } else {
            0nat
        }
    }
}

/// The descriptions of the failures among `outcomes`, in their order.
pub open spec fn failure_descriptions(outcomes: Seq<JobOutcome>) -> Seq<Seq<char>>
    decreases outcomes.len(),
{
    if outcomes.len() == 0 {
        Seq::empty()
    } else {
        match outcomes.last() {
            JobOutcome::Success { .. } => failure_descriptions(outcomes.drop_last()),
            JobOutcome::Failure { description, .. } => failure_descriptions(
                outcomes.drop_last(),
            ).push(description@),
        }
    }
}

/// The descriptions that a summary lists.
pub open spec fn listed(failures: Seq<String>) -> Seq<Seq<char>> {
    failures.map_values(|text: String| text@)
}

/// Every outcome is a success or a failure with one description: the two
/// counts add up to the number of jobs.
pub proof fn counts_add_up(outcomes: Seq<JobOutcome>)
    ensures
        success_count(outcomes) + failure_descriptions(outcomes).len() == outcomes.len(),
    decreases outcomes.len(),
{
    if outcomes.len() > 0 {
        counts_add_up(outcomes.drop_last());
    }
}

/// Counts the outcomes once all jobs have ended. A failure of one job
/// changes nothing for the others: each outcome is counted by itself.
pub fn summarize(outcomes: &Vec<JobOutcome>) -> (summary: BatchSummary)
    ensures
        summary.success == success_count(outcomes@),
        summary.failure == outcomes.len() - success_count(outcomes@),
        listed(summary.failures@) == failure_descriptions(outcomes@),
{
    let mut success: usize = 0;
    let mut failures: Vec<String> = Vec::new();
    let mut i: usize = 0;
    assert(outcomes@.take(0) =~= Seq::empty());
    assert(listed(failures@) =~= Seq::empty());
    while i < outcomes.len()
        invariant
            i <= outcomes.len(),
            success == success_count(outcomes@.take(i as int)),
            listed(failures@) == failure_descriptions(outcomes@.take(i as int)),
        decreases outcomes.len() - i,
    {
        proof {
            assert(outcomes@.take(i + 1).drop_last() =~= outcomes@.take(i as int));
            counts_add_up(outcomes@.take(i as int));
        }
        match &outcomes[i] {
            JobOutcome::Success { .. } => {
                success += 1;
            },
            JobOutcome::Failure { description, .. } => {
                let ghost before = failures@;
                failures.push(description.clone());
                assert(listed(failures@) =~= listed(before).push(description@));
            },
        }
        i += 1;
    }
    proof {
        assert(outcomes@.take(i as int) =~= outcomes@);
        counts_add_up(outcomes@);
    }
    BatchSummary { success, failure: outcomes.len() - success, failures }
}

} // verus!
