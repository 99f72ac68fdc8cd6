use vstd::prelude::*;

verus! {

/// How the server answered one command.
#[derive(Clone, Copy, Debug, PartialEq, Eq, Structural)]
pub enum SendOutcome {
    /// Accepted (SUBMITTED); the engine publishes exactly one event for it.
    Submitted,
    /// Answered with another status.
    Rejected,
    /// The engine's queue was full (back pressure).
    ResourceExhausted,
    /// The call itself failed.
    Error,
}

/// The submit statuses of the engine's gRPC service, numbered as on the wire.
#[derive(Clone, Copy, Debug, PartialEq, Eq, Structural)]
pub enum SubmitStatus {
    Unspecified,
    Submitted,
    Rejected,
    ResourceExhausted,
}

/// The wire number of a submit status.
pub open spec fn status_code(s: SubmitStatus) -> i32 {
    match s {
        SubmitStatus::Unspecified => 0,
        SubmitStatus::Submitted => 1,
        SubmitStatus::Rejected => 2,
        SubmitStatus::ResourceExhausted => 3,
    }
}

impl SubmitStatus {
    /// The wire number.
    pub fn code(self) -> (r: i32)
        ensures
            r == status_code(self),
    {
        match self {
            SubmitStatus::Unspecified => 0,
            SubmitStatus::Submitted => 1,
            SubmitStatus::Rejected => 2,
            SubmitStatus::ResourceExhausted => 3,
        }
    }
}

/// Classifies a submit status received on the wire: SUBMITTED and RESOURCE_EXHAUSTED are
/// told apart, any other number (unknown ones included) counts as rejected.
pub fn classify_status(status: i32) -> (r: SendOutcome)
    ensures
        r == classified(status),
{
    if status == SubmitStatus::Submitted.code() {
        SendOutcome::Submitted
    } else if status == SubmitStatus::ResourceExhausted.code() {
        SendOutcome::ResourceExhausted
    } else {
        SendOutcome::Rejected
    }
}


/// How a status received on the wire classifies.
pub open spec fn classified(status: i32) -> SendOutcome {
    if status == status_code(SubmitStatus::Submitted) {
        SendOutcome::Submitted
    } else if status == status_code(SubmitStatus::ResourceExhausted) {
        SendOutcome::ResourceExhausted
    } else {
        SendOutcome::Rejected
    }
}

/// The outcomes of a batch of `command_count` commands from the statuses the server
/// answered, in order; commands the answer has no status for count as errors.
pub fn classify_batch(statuses: &Vec<i32>, command_count: usize) -> (r: Vec<SendOutcome>)
    ensures
        r@.len() == if statuses@.len() < command_count { command_count as int } else { statuses@.len() as int },
        forall|i: int| 0 <= i < statuses@.len() ==> r@[i] == classified(#[trigger] statuses@[i]),
        forall|i: int| statuses@.len() <= i < command_count ==> r@[i] == SendOutcome::Error,
{
    let mut outcomes: Vec<SendOutcome> = Vec::new();
    let mut i: usize = 0;
    while i < statuses.len()
        invariant
            0 <= i <= statuses@.len(),
            outcomes@.len() == i,
            forall|j: int| 0 <= j < i ==> outcomes@[j] == classified(#[trigger] statuses@[j]),
        decreases statuses@.len() - i,
    {
        outcomes.push(classify_status(statuses[i]));
        i = i + 1;
    }
    while outcomes.len() < command_count
        invariant
            statuses@.len() <= outcomes@.len(),
            outcomes@.len() <= command_count || outcomes@.len() == statuses@.len(),
            forall|j: int| 0 <= j < statuses@.len() ==> outcomes@[j] == classified(#[trigger] statuses@[j]),
            forall|j: int| statuses@.len() <= j < outcomes@.len() ==> outcomes@[j] == SendOutcome::Error,
        decreases command_count - outcomes@.len(),
    {
        outcomes.push(SendOutcome::Error);
    }
    outcomes
}

} // verus!
