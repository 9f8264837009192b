//! Errors, states and step outcomes of the import workflow.

use vstd::prelude::*;

verus! {

/// Why a workflow step did not complete.
#[derive(Clone, Debug)]
pub enum StepError {
    Cancelled,
    Failed(String),
}

/// Why a job did not complete: the step that failed, and how.
#[derive(Clone, Debug)]
pub enum JobError {
    StepFailed { step: &'static str, error: StepError },
}

/// Why a workflow did not complete.
#[derive(Clone, Debug)]
pub enum WorkflowError {
    Cancelled,
    StepError(StepError),
}

/// The life cycle of a job.
#[derive(Clone, Debug)]
pub enum JobState {
    Pending,
    Running,
    Completed,
    Failed(JobError),
    Cancelled,
}

/// How a job ended.
#[derive(Clone, Debug)]
pub enum JobResult {
    Success,
    Cancelled,
    Fail,
}

impl StepError {
    pub open spec fn spec_message(&self) -> Seq<char> {
        match self {
            StepError::Cancelled => "Step Cancelled"@,
            StepError::Failed(s) => "Step failed: "@ + s@,
        }
    }

    /// The error's message.
    pub fn message(&self) -> (m: String)
        ensures
            m@ == self.spec_message(),
    {
        match self {
            StepError::Cancelled => String::from_str("Step Cancelled"),
            StepError::Failed(s) => String::from_str("Step failed: ").concat(s.as_str()),
        }
    }
}

impl JobError {
    pub open spec fn spec_message(&self) -> Seq<char> {
        match self {
            JobError::StepFailed { step, error } => "Job failed at step "@ + step@ + " with error "@
                + error.spec_message(),
        }
    }

    /// The error's message.
    pub fn message(&self) -> (m: String)
        ensures
            m@ == self.spec_message(),
    {
        match self {
            JobError::StepFailed { step, error } => {
                let inner = error.message();
                String::from_str("Job failed at step ").concat(step).concat(" with error ").concat(
                    inner.as_str(),
                )
            },
        }
    }
}

impl WorkflowError {
    pub open spec fn spec_message(&self) -> Seq<char> {
        match self {
            WorkflowError::Cancelled => "Workflow cancelled"@,
            WorkflowError::StepError(e) => "Workflow failed at step with error "@ + e.spec_message(),
        }
    }

    /// The error's message.
    pub fn message(&self) -> (m: String)
        ensures
            m@ == self.spec_message(),
    {
        match self {
            WorkflowError::Cancelled => String::from_str("Workflow cancelled"),
            WorkflowError::StepError(e) => {
                let inner = e.message();
                String::from_str("Workflow failed at step with error ").concat(inner.as_str())
            },
        }
    }
}

impl From<StepError> for WorkflowError {
    fn from(value: StepError) -> (e: Self) {
        WorkflowError::StepError(value)
    }
}

impl vstd::std_specs::convert::FromSpecImpl<StepError> for WorkflowError {
    open spec fn obeys_from_spec() -> bool {
        true
    }

    open spec fn from_spec(v: StepError) -> WorkflowError {
        WorkflowError::StepError(v)
    }
}

/// The step ran to its end without an error.
pub open spec fn step_completed(outcome: Result<Result<(), StepError>, String>) -> bool {
    outcome matches Ok(Ok(()))
}

/// The job error that the outcome of one step gives: none for a completed step; a
/// step error is reported as is, and a step that did not run to its end fails with
/// its message. The failing step is not known by name at that point.
pub open spec fn spec_job_error_for(outcome: Result<Result<(), StepError>, String>) -> Option<JobError> {
    match outcome {
        Ok(Ok(())) => None,
        Ok(Err(e)) => Some(JobError::StepFailed { step: "unknown", error: e }),
        Err(m) => Some(JobError::StepFailed { step: "unknown", error: StepError::Failed(m) }),
    }
}

/// The result of a workflow whose steps finished with these outcomes, in the order
/// they finished: the job error of the first step that did not complete, or success.
pub open spec fn spec_workflow_outcome(outcomes: Seq<Result<Result<(), StepError>, String>>) -> Result<(), JobError>
    decreases outcomes.len(),
{
    if outcomes.len() == 0 {
        Ok(())
    } else {
        match spec_job_error_for(outcomes[0]) {
            Some(e) => Err(e),
            None => spec_workflow_outcome(outcomes.drop_first()),
        }
    }
}

/// The job error for the outcome of one step, as the workflow runner sees it: `Ok`
/// with the step's own result, or `Err` with the message of a step that did not run
/// to its end. A completed step gives none.
pub fn job_error_for(outcome: Result<Result<(), StepError>, String>) -> (error: Option<JobError>)
    ensures
        error == spec_job_error_for(outcome),
        error is None <==> step_completed(outcome),
        outcome matches Ok(Err(e)) ==> error == Some(JobError::StepFailed { step: "unknown", error: e }),
        outcome matches Err(m) ==> error == Some(
            JobError::StepFailed { step: "unknown", error: StepError::Failed(m) },
        ),
{
    match outcome {
        Ok(Ok(())) => None,
        Ok(Err(e)) => Some(JobError::StepFailed { step: "unknown", error: e }),
        Err(m) => Some(JobError::StepFailed { step: "unknown", error: StepError::Failed(m) }),
    }
}

/// The result of a workflow from its steps' outcomes in the order they finished.
pub fn workflow_outcome(outcomes: Vec<Result<Result<(), StepError>, String>>) -> (result: Result<(), JobError>)
    ensures
        result == spec_workflow_outcome(outcomes@),
        result is Ok <==> forall|i: int|
            0 <= i < outcomes@.len() ==> #[trigger] step_completed(outcomes@[i]),
{
    proof {
        lemma_outcome_by_steps(outcomes@);
    }
    let ghost all = outcomes@;
    assert(all.skip(0) =~= all);
    for outcome in it: outcomes.into_iter()
        invariant
            it.seq() == all,
            spec_workflow_outcome(all) == spec_workflow_outcome(all.skip(it.index() as int)),
    {
        let ghost i = it.index();
        assert(all.skip(i as int)[0] == all[i as int]);
        assert(all.skip(i + 1) =~= all.skip(i as int).drop_first());
        if let Some(error) = job_error_for(outcome) {
            return Err(error);
        }
    }
    assert(all.skip(all.len() as int) =~= Seq::<Result<Result<(), StepError>, String>>::empty());
    Ok(())
}

/// What a step does before its work: a cancelled job's step stops as cancelled.
pub fn step_gate(cancelled: bool) -> (gate: Result<(), StepError>)
    ensures
        cancelled ==> gate matches Err(StepError::Cancelled),
        !cancelled ==> gate is Ok,
{
    if cancelled {
        Err(StepError::Cancelled)
    } else {
        Ok(())
    }
}

/// The workflow fails exactly when some step did not complete, and then with the job
/// error of the first such step; success needs every step to complete.
pub proof fn lemma_first_failure_decides(outcomes: Seq<Result<Result<(), StepError>, String>>)
    ensures
        spec_workflow_outcome(outcomes) is Ok <==> forall|i: int|
            0 <= i < outcomes.len() ==> #[trigger] spec_job_error_for(outcomes[i]) is None,
        spec_workflow_outcome(outcomes) is Err ==> exists|i: int|
            0 <= i < outcomes.len() && spec_job_error_for(outcomes[i]) == Some(
                spec_workflow_outcome(outcomes)->Err_0,
            ) && forall|k: int| 0 <= k < i ==> #[trigger] spec_job_error_for(outcomes[k]) is None,
    decreases outcomes.len(),
{
    if outcomes.len() > 0 {
        let rest = outcomes.drop_first();
        lemma_first_failure_decides(rest);
        assert forall|i: int| 0 < i < outcomes.len() implies outcomes[i] == rest[i - 1] by {}
        if spec_job_error_for(outcomes[0]) is None {
            if spec_workflow_outcome(outcomes) is Ok {
                assert forall|i: int| 0 <= i < outcomes.len() implies #[trigger] spec_job_error_for(
                    outcomes[i],
                ) is None by {
                    if i > 0 {
                        assert(spec_job_error_for(rest[i - 1]) is None);
                    }
                }
            } else {
                let j = choose|j: int|
                    0 <= j < rest.len() && spec_job_error_for(rest[j]) == Some(
                        spec_workflow_outcome(rest)->Err_0,
                    ) && forall|k: int| 0 <= k < j ==> #[trigger] spec_job_error_for(rest[k]) is None;
                assert(outcomes[j + 1] == rest[j]);
                assert forall|k: int| 0 <= k < j + 1 implies #[trigger] spec_job_error_for(outcomes[k])
                    is None by {
                    if k > 0 {
                        assert(outcomes[k] == rest[k - 1]);
                    }
                }
                assert(!(forall|i: int| 0 <= i < outcomes.len() ==> #[trigger] spec_job_error_for(outcomes[i]) is None));
            }
        } else {
            assert(!(forall|i: int| 0 <= i < outcomes.len() ==> #[trigger] spec_job_error_for(outcomes[i]) is None)) by {
                assert(spec_job_error_for(outcomes[0]) is Some);
            }
        }
    }
}

/// A workflow succeeds exactly when every step ran to its end without an error. When it
/// fails, some step did not complete while all before it did, and the job fails with
/// that step's own error, or, for a step that did not run to its end, with its message.
pub proof fn lemma_outcome_by_steps(outcomes: Seq<Result<Result<(), StepError>, String>>)
    ensures
        spec_workflow_outcome(outcomes) is Ok <==> forall|i: int|
            0 <= i < outcomes.len() ==> #[trigger] step_completed(outcomes[i]),
        spec_workflow_outcome(outcomes) is Err ==> exists|i: int|
            #![trigger outcomes[i]]
            0 <= i < outcomes.len() && !step_completed(outcomes[i]) && (forall|k: int|
                0 <= k < i ==> #[trigger] step_completed(outcomes[k])) && (outcomes[i] matches Ok(
                Err(e),
            ) ==> spec_workflow_outcome(outcomes) == Err::<(), JobError>(
                JobError::StepFailed { step: "unknown", error: e },
            )) && (outcomes[i] matches Err(m) ==> spec_workflow_outcome(outcomes) == Err::<
                (),
                JobError,
            >(JobError::StepFailed { step: "unknown", error: StepError::Failed(m) })),
{
    lemma_first_failure_decides(outcomes);
    assert forall|o: Result<Result<(), StepError>, String>|
        #[trigger] spec_job_error_for(o) is None <==> step_completed(o) by {}
    if spec_workflow_outcome(outcomes) is Ok {
        assert forall|i: int| 0 <= i < outcomes.len() implies #[trigger] step_completed(
            outcomes[i],
        ) by {
            assert(spec_job_error_for(outcomes[i]) is None);
        }
    } else {
        let i = choose|i: int|
            0 <= i < outcomes.len() && spec_job_error_for(outcomes[i]) == Some(
                spec_workflow_outcome(outcomes)->Err_0,
            ) && forall|k: int| 0 <= k < i ==> #[trigger] spec_job_error_for(outcomes[k]) is None;
        assert(!step_completed(outcomes[i]));
        assert forall|k: int| 0 <= k < i implies #[trigger] step_completed(outcomes[k]) by {
            assert(spec_job_error_for(outcomes[k]) is None);
        }
        assert(!(forall|j: int| 0 <= j < outcomes.len() ==> #[trigger] step_completed(outcomes[j])));
    }
}

/// The job error when no step permit can be had any more, for the named step.
pub fn semaphore_closed_error(step: &'static str) -> (error: JobError)
    ensures
        error matches JobError::StepFailed { step: s, error: StepError::Failed(m) } && s == step
            && m@ == "semaphore closed"@,
{
    JobError::StepFailed { step, error: StepError::Failed(String::from_str("semaphore closed")) }
}

} // verus!
