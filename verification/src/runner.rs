//! The run queue's decisions. The queue loop itself (engines, files,
//! signals) runs around these: for each entry it asks [`queue_step`],
//! runs one attempt, reports the attempt's outcome to [`judge_attempt`],
//! and does what the verdict says.

use crate::paths::{file_name_bounds, file_name_on};
use crate::text::{chars_of, dec, string_of, u64_to_dec};
use crate::transcoder::Status;
use vstd::prelude::*;
use vstd::string::*;

verus! {

/// After an attempt: try the same task again, or move on.
#[derive(Debug, Clone, Copy, PartialEq, Eq, Structural)]
pub enum Decision {
    /// Under the retry budget: shrink the factor and run the task again.
    Retry,
    /// Go to the next task (done, failed, or out of retries).
    Advance,
}

pub open spec fn spec_decide(over_limit: Option<bool>, has_factor: bool, retry: u8, max_retry: u8) -> Decision {
    if over_limit == Some(true) && retry < max_retry && has_factor {
        Decision::Retry
    } else {
        Decision::Advance
    }
}

/// Retry only an over-limit output, within the budget, and only when there
/// is a bitrate factor to shrink (images have none, so they never spin).
pub fn decide(over_limit: Option<bool>, has_factor: bool, retry: u8, max_retry: u8) -> (r: Decision)
    ensures
        r == spec_decide(over_limit, has_factor, retry, max_retry),
{
    match over_limit {
        Some(true) if retry < max_retry && has_factor => Decision::Retry,
        _ => Decision::Advance,
    }
}

/// What one attempt came to.
#[derive(Debug, Clone, Copy, PartialEq, Eq, Structural)]
pub enum AttemptOutcome {
    /// The engine failed; `cancelled` when the user asked to stop or the
    /// failure is a cancellation.
    Failed { cancelled: bool },
    /// The output was written but its size could not be read.
    SizeUnknown,
    /// The output's size against its limit (`None`: no size recorded), and
    /// whether the task has a bitrate factor.
    Measured { over_limit: Option<bool>, has_factor: bool },
}

/// Where the queue goes after an attempt.
#[derive(Debug, Clone, Copy, PartialEq, Eq, Structural)]
pub enum NextStep {
    Retry,
    Advance,
    /// Stop the whole queue.
    Cancel,
}

/// The task's new status, where the queue goes, and whether the output
/// file is a leftover to delete (with its recorded size).
#[derive(Debug, Clone, Copy, PartialEq, Eq, Structural)]
pub struct AttemptVerdict {
    pub status: Status,
    pub next: NextStep,
    pub discard_output: bool,
}

pub open spec fn spec_judge_attempt(outcome: AttemptOutcome, retry: u8, max_retry: u8) -> AttemptVerdict {
    match outcome {
        AttemptOutcome::Failed { cancelled } => if cancelled {
            AttemptVerdict { status: Status::Pending, next: NextStep::Cancel, discard_output: true }
        } else {
            AttemptVerdict { status: Status::Alert, next: NextStep::Advance, discard_output: true }
        },
        AttemptOutcome::SizeUnknown => AttemptVerdict {
            status: Status::Alert,
            next: NextStep::Advance,
            discard_output: false,
        },
        AttemptOutcome::Measured { over_limit, has_factor } => AttemptVerdict {
            status: match over_limit {
                Some(true) => Status::SizeExcess,
                Some(false) => Status::Done,
                None => Status::Alert,
            },
            next: match spec_decide(over_limit, has_factor, retry, max_retry) {
                Decision::Retry => NextStep::Retry,
                Decision::Advance => NextStep::Advance,
            },
            discard_output: false,
        },
    }
}

/// Judges attempt number `retry` (0-based) of a task allowed `max_retry`
/// retries. A cancelled task goes back to Pending; a failed one is marked
/// failed; a half-written output is deleted either way. A measured output is
/// Done within its limit and over-limit otherwise; an over-limit output is
/// retried while the budget and a factor allow, and stays over-limit when
/// the budget runs out.
pub fn judge_attempt(outcome: AttemptOutcome, retry: u8, max_retry: u8) -> (r: AttemptVerdict)
    ensures
        r == spec_judge_attempt(outcome, retry, max_retry),
        r.next == NextStep::Retry ==> retry < max_retry && r.status == Status::SizeExcess,
        r.status == Status::Done ==> r.next == NextStep::Advance,
        outcome matches AttemptOutcome::Measured { over_limit, .. } ==> r.status == (match over_limit {
            Some(true) => Status::SizeExcess,
            Some(false) => Status::Done,
            None => Status::Alert,
        }),
{
    match outcome {
        AttemptOutcome::Failed { cancelled } => if cancelled {
            AttemptVerdict { status: Status::Pending, next: NextStep::Cancel, discard_output: true }
        } else {
            AttemptVerdict { status: Status::Alert, next: NextStep::Advance, discard_output: true }
        },
        AttemptOutcome::SizeUnknown => AttemptVerdict {
            status: Status::Alert,
            next: NextStep::Advance,
            discard_output: false,
        },
        AttemptOutcome::Measured { over_limit, has_factor } => {
            let status = match over_limit {
                Some(true) => Status::SizeExcess,
                Some(false) => Status::Done,
                None => Status::Alert,
            };
            let next = match decide(over_limit, has_factor, retry, max_retry) {
                Decision::Retry => NextStep::Retry,
                Decision::Advance => NextStep::Advance,
            };
            AttemptVerdict { status, next, discard_output: false }
        },
    }
}

/// Retries are bounded: whatever the outcomes, attempt `max_retry` (the
/// last allowed) never asks for another one, so a task runs at most
/// `max_retry + 1` times.
pub proof fn retries_are_bounded(outcome: AttemptOutcome, retry: u8, max_retry: u8)
    requires
        retry >= max_retry,
    ensures
        spec_judge_attempt(outcome, retry, max_retry).next != NextStep::Retry,
{
}

/// What an attempt's verdict says of the task, for every outcome and
/// budget: a measured output is Over limit (SizeExcess) whenever it exceeds
/// its limit, whether or not it has a bitrate factor or budget left; Done
/// when within; Failed (Alert) when its size is unknown; it is kept, and it
/// is retried exactly when over the limit with a factor and budget left.
/// A failed attempt's output is deleted: a cancellation puts the task back
/// to Pending and stops the queue, any other failure marks it Failed and
/// moves on.
pub proof fn verdict_follows_the_outcome(outcome: AttemptOutcome, retry: u8, max_retry: u8)
    ensures
        ({
            let v = spec_judge_attempt(outcome, retry, max_retry);
            &&& outcome matches AttemptOutcome::Measured { over_limit, has_factor } ==> {
                &&& (over_limit == Some(true) ==> v.status == Status::SizeExcess)
                &&& (over_limit == Some(false) ==> v.status == Status::Done)
                &&& (over_limit is None ==> v.status == Status::Alert)
                &&& !v.discard_output
                &&& (v.next == NextStep::Retry <==> (over_limit == Some(true) && has_factor && retry
                    < max_retry))
                &&& v.next != NextStep::Cancel
            }
            &&& outcome == AttemptOutcome::SizeUnknown ==> v.status == Status::Alert && v.next
                == NextStep::Advance && !v.discard_output
            &&& outcome == (AttemptOutcome::Failed { cancelled: true }) ==> v.status == Status::Pending
                && v.next == NextStep::Cancel && v.discard_output
            &&& outcome == (AttemptOutcome::Failed { cancelled: false }) ==> v.status == Status::Alert
                && v.next == NextStep::Advance && v.discard_output
        }),
        forall|over_limit: Option<bool>, has_factor: bool|
            #[trigger] spec_decide(over_limit, has_factor, retry, max_retry) == Decision::Retry <==> (
            over_limit == Some(true) && has_factor && retry < max_retry),
{
}

/// What the queue does at one position.
#[derive(Debug, Clone, Copy, PartialEq, Eq, Structural)]
pub enum QueueStep {
    /// Cancelled, or past the last task: the run ends.
    Stop,
    /// The task is still being probed (it was added during the run): wait
    /// and look again.
    Wait,
    /// Already done: count it and go on (re-running is explicit).
    Skip,
    /// Run the task.
    Run,
}

pub open spec fn spec_queue_step(cancel_requested: bool, status: Option<Status>) -> QueueStep {
    match status {
        None => QueueStep::Stop,
        Some(s) => if cancel_requested {
            QueueStep::Stop
        } else if s == Status::Probing {
            QueueStep::Wait
        } else if s == Status::Done {
            QueueStep::Skip
        } else {
            QueueStep::Run
        },
    }
}

/// The queue's move at a position holding a task of `status` (`None`
/// past the end); the queue's length is read afresh each time, so tasks
/// added during a run are reached.
pub fn queue_step(cancel_requested: bool, status: Option<Status>) -> (r: QueueStep)
    ensures
        r == spec_queue_step(cancel_requested, status),
{
    match status {
        None => QueueStep::Stop,
        Some(s) => if cancel_requested {
            QueueStep::Stop
        } else if s == Status::Probing {
            QueueStep::Wait
        } else if s == Status::Done {
            QueueStep::Skip
        } else {
            QueueStep::Run
        },
    }
}

/// The queue's move at each position: it stops past the end or once the
/// user cancels; otherwise it waits on a task still being probed, steps
/// over a Done task, and runs any other (Pending, failed, over-limit).
pub proof fn queue_runs_all_but_done_and_probing(cancel_requested: bool, status: Option<Status>)
    ensures
        spec_queue_step(cancel_requested, status) == QueueStep::Stop <==> (cancel_requested
            || status is None),
        spec_queue_step(cancel_requested, status) == QueueStep::Wait <==> (!cancel_requested
            && status == Some(Status::Probing)),
        spec_queue_step(cancel_requested, status) == QueueStep::Skip <==> (!cancel_requested
            && status == Some(Status::Done)),
        spec_queue_step(cancel_requested, status) == QueueStep::Run <==> (!cancel_requested
            && status is Some && status != Some(Status::Probing) && status != Some(Status::Done)),
{
}

/// The answer to a Run request.
#[derive(Debug, Clone, Copy, PartialEq, Eq, Structural)]
pub enum RunGate {
    /// Already running, or nothing queued.
    Ignore,
    /// Every task is done.
    NothingToRun,
    /// Some task is still being probed or transcoded.
    WaitForProbing,
    Start,
}

pub open spec fn spec_run_gate(running: bool, statuses: Seq<Status>) -> RunGate {
    if running || statuses.len() == 0 {
        RunGate::Ignore
    } else if forall|i: int| 0 <= i < statuses.len() ==> #[trigger] statuses[i] == Status::Done {
        RunGate::NothingToRun
    } else if exists|i: int|
        0 <= i < statuses.len() && (#[trigger] statuses[i] == Status::Probing || statuses[i]
            == Status::Processing) {
        RunGate::WaitForProbing
    } else {
        RunGate::Start
    }
}

/// A Run request is refused only for a reason: with the queue idle and
/// not empty, it reports "nothing to run" exactly when every task is Done,
/// waits exactly when some task is still being probed or transcoded, and
/// starts exactly when some task is not Done and none is busy. A running
/// queue or an empty list ignores the request.
pub proof fn run_gate_refuses_only_for_a_reason(running: bool, statuses: Seq<Status>)
    ensures
        running || statuses.len() == 0 ==> spec_run_gate(running, statuses) == RunGate::Ignore,
        !running && statuses.len() > 0 ==> {
            &&& (spec_run_gate(running, statuses) == RunGate::NothingToRun <==> forall|i: int|
                0 <= i < statuses.len() ==> #[trigger] statuses[i] == Status::Done)
            &&& (spec_run_gate(running, statuses) == RunGate::WaitForProbing <==> exists|i: int|
                0 <= i < statuses.len() && (#[trigger] statuses[i] == Status::Probing
                    || statuses[i] == Status::Processing))
            &&& (spec_run_gate(running, statuses) == RunGate::Start <==> (exists|i: int|
                0 <= i < statuses.len() && #[trigger] statuses[i] != Status::Done) && forall|i: int|
                0 <= i < statuses.len() ==> #[trigger] statuses[i] != Status::Probing
                    && statuses[i] != Status::Processing)
            &&& spec_run_gate(running, statuses) != RunGate::Ignore
        },
{
    if !running && statuses.len() > 0 {
        let g = spec_run_gate(running, statuses);
        if exists|i: int|
            0 <= i < statuses.len() && (#[trigger] statuses[i] == Status::Probing || statuses[i]
                == Status::Processing) {
            let i = choose|i: int|
                0 <= i < statuses.len() && (#[trigger] statuses[i] == Status::Probing || statuses[i]
                    == Status::Processing);
            assert(statuses[i] != Status::Done);
        }
        if exists|i: int| 0 <= i < statuses.len() && #[trigger] statuses[i] != Status::Done {
            let i = choose|i: int| 0 <= i < statuses.len() && #[trigger] statuses[i] != Status::Done;
            assert(!(forall|j: int| 0 <= j < statuses.len() ==> #[trigger] statuses[j] == Status::Done));
        } else {
            assert(forall|j: int| 0 <= j < statuses.len() ==> #[trigger] statuses[j] == Status::Done);
        }
    }
}

/// Whether a Run request starts the queue, given the tasks' statuses.
pub fn run_gate(running: bool, statuses: &Vec<Status>) -> (r: RunGate)
    ensures
        r == spec_run_gate(running, statuses@),
{
    if running || statuses.len() == 0 {
        return RunGate::Ignore;
    }
    let n = statuses.len();
    let mut all_done = true;
    let mut busy = false;
    let mut i: usize = 0;
    while i < n
        invariant
            n == statuses@.len(),
            i <= n,
            all_done == (forall|j: int| 0 <= j < i ==> #[trigger] statuses@[j] == Status::Done),
            busy == (exists|j: int|
                0 <= j < i && (#[trigger] statuses@[j] == Status::Probing || statuses@[j]
                    == Status::Processing)),
        decreases n - i,
    {
        let s = statuses[i];
        if s != Status::Done {
            all_done = false;
        }
        if s == Status::Probing || s == Status::Processing {
            busy = true;
        }
        i = i + 1;
        assert(all_done == (forall|j: int| 0 <= j < i ==> #[trigger] statuses@[j] == Status::Done))
            by {
            if !all_done {
                if s != Status::Done {
                    assert(statuses@[i - 1] != Status::Done);
                }
            }
        }
        assert(busy == (exists|j: int|
            0 <= j < i && (#[trigger] statuses@[j] == Status::Probing || statuses@[j]
                == Status::Processing))) by {
            if s == Status::Probing || s == Status::Processing {
                assert(statuses@[i - 1] == s);
            }
        }
    }
    if all_done {
        RunGate::NothingToRun
    } else if busy {
        RunGate::WaitForProbing
    } else {
        RunGate::Start
    }
}

/// The status a finished probe writes back: none while the task is being
/// transcoded (the run owns it then), Pending on success, failed otherwise.
pub fn probe_status(current: Status, probe_ok: bool) -> (r: Option<Status>)
    ensures
        current == Status::Processing ==> r is None,
        current != Status::Processing ==> r == Some(
            if probe_ok {
                Status::Pending
            } else {
                Status::Alert
            },
        ),
{
    if current == Status::Processing {
        None
    } else if probe_ok {
        Some(Status::Pending)
    } else {
        Some(Status::Alert)
    }
}

// ------------------------------------------------------------ messages

/// The name a task is called by in messages: the input's file name, or the
/// whole input when it has none. The desktop reads the input as a Windows
/// path; the browser build as a path with `/` alone separating (there the
/// input is the uploaded file's name).
pub open spec fn spec_task_name(input: Seq<char>, windows: bool) -> Seq<char> {
    match file_name_on(windows, input) {
        Some(n) => n,
        None => input,
    }
}

pub fn task_name(input: &str, windows: bool) -> (r: String)
    ensures
        r@ == spec_task_name(input@, windows),
{
    let cs = chars_of(input);
    assert(cs.len() == cs@.len());
    match file_name_bounds(&cs, cs.len(), windows) {
        Some((a, b)) => {
            assert(file_name_on(windows, input@) == Some(cs@.subrange(a as int, b as int)));
            string_of(&cs, a, b)
        },
        None => {
            assert(file_name_on(windows, input@) is None);
            String::from_str(input)
        },
    }
}

/// The warning when an over-limit output is retried.
pub open spec fn spec_retry_message(retry: u8, max_retry: u8) -> Seq<char> {
    "Output over size limit, retrying ("@ + dec(retry as nat) + "/"@ + dec(max_retry as nat) + ")"@
}

pub fn retry_message(retry: u8, max_retry: u8) -> (r: String)
    ensures
        r@ == spec_retry_message(retry, max_retry),
{
    let mut r = String::from_str("Output over size limit, retrying (");
    let a = u64_to_dec(retry as u64);
    r.append(a.as_str());
    r.append("/");
    let b = u64_to_dec(max_retry as u64);
    r.append(b.as_str());
    r.append(")");
    r
}

/// The notice when the user cancels a task.
pub fn cancelled_message(name: &str) -> (r: String)
    ensures
        r@ == "Task cancelled: "@ + name@,
{
    let mut r = String::from_str("Task cancelled: ");
    r.append(name);
    r
}

} // verus!
