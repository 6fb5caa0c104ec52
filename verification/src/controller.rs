//! The iteration loop controller and the interview gate.
//!
//! The controller is a pure state machine: every decision it takes per pass
//! is a function here, from plain inputs (the loaded task list, the prompt
//! read, the agent outcome) to the next action.  The caller performs the
//! outside work — reading files, invoking the agent, sleeping — and feeds
//! the results back in.  A pass runs: limit check, completion check,
//! iteration (prompt read, then either a dry-run display or an agent
//! invocation), sleep.  The completion check always precedes the invocation.

use vstd::prelude::*;
use vstd::string::*;
use crate::task_list::{LoadError, TaskList, TaskListModel, spec_is_complete};
use crate::text::{spec_dec, spec_dec_signed, u64_to_string, i32_to_string};

verus! {

/// Outcome of one run of the external agent process.
#[derive(Clone, Copy, Debug, PartialEq, Eq, Structural)]
pub enum AgentOutcome {
    Exited(i32),
    Signaled,
    LaunchFailed,
}

/// The loop's configuration, fixed for a whole run.
#[derive(Clone, Copy, Debug, PartialEq, Eq, Structural)]
pub struct LoopConfig {
    /// Cap on the iteration count; `0` means unlimited.
    pub max_iterations: u32,
    /// Pause between passes, in seconds; `0` means none.
    pub delay_secs: u64,
    /// When set, show the prompt instead of invoking the agent, and write no
    /// progress-log entry.
    pub dry_run: bool,
    /// When set, pass the permission-skip flag to the agent.
    pub skip_permissions: bool,
}

/// Why the loop ended.
#[derive(Clone, Copy, Debug, PartialEq, Eq, Structural)]
pub enum Termination {
    MaxIterationsReached,
    PrdComplete,
}

/// Whether the iteration cap stops the loop before iteration `n` runs.
pub open spec fn spec_limit_stop(max: int, n: int) -> bool {
    max > 0 && n > max
}

/// First step of a pass: stop iff a positive cap exists and `n` exceeds it.
pub fn check_limit(cfg: &LoopConfig, n: u32) -> (r: bool)
    ensures
        r == spec_limit_stop(cfg.max_iterations as int, n as int),
{
    cfg.max_iterations > 0 && n > cfg.max_iterations
}

/// Whether a load attempt stops the loop: only a successfully loaded,
/// complete task list does.
pub open spec fn spec_completion_stop(load: Option<TaskListModel>) -> bool {
    match load {
        Option::Some(t) => spec_is_complete(t),
        Option::None => false,
    }
}

/// Second step of a pass, after the task list was (re)loaded.
#[derive(Clone, Copy, Debug, PartialEq, Eq, Structural)]
pub enum CompletionCheck {
    /// The task list is complete: terminate with `PrdComplete`.
    Finished,
    /// Keep going; `warn` is set when the load failed and a warning is owed.
    NotYet { warn: bool },
}

/// Judges a load attempt: `Finished` iff the task list loaded and is
/// complete; a failed load warns and continues.
pub fn check_completion(load: &Result<TaskList, LoadError>) -> (r: CompletionCheck)
    ensures
        (r is Finished) == spec_completion_stop(match load {
            Result::Ok(t) => Option::Some(t@),
            Result::Err(_) => Option::None,
        }),
        (r matches CompletionCheck::NotYet { warn: w } ==> w == (load is Err)),
{
    match load {
        Result::Ok(t) => {
            if t.is_complete() {
                CompletionCheck::Finished
            } else {
                CompletionCheck::NotYet { warn: false }
            }
        },
        Result::Err(_) => CompletionCheck::NotYet { warn: true },
    }
}

/// Third step of a pass, after the prompt document was read.
#[derive(Clone, Copy, Debug, PartialEq, Eq, Structural)]
pub enum IterationPlan {
    /// The prompt document could not be read: the whole process must abort.
    FatalPromptError,
    /// Dry-run mode: display the prompt; no log entry, no invocation.
    DryRun,
    /// Log the start entry and invoke the agent with the prompt.
    Invoke,
}

/// Plans the iteration: an unreadable prompt is fatal; otherwise dry-run
/// mode displays only, and normal mode invokes the agent.
pub fn plan_iteration(cfg: &LoopConfig, prompt: &Option<String>) -> (r: IterationPlan)
    ensures
        (r is FatalPromptError) == (prompt is None),
        prompt is Some ==> (r is DryRun) == cfg.dry_run,
        prompt is Some ==> (r is Invoke) == !cfg.dry_run,
{
    match prompt {
        Option::None => IterationPlan::FatalPromptError,
        Option::Some(_) => {
            if cfg.dry_run {
                IterationPlan::DryRun
            } else {
                IterationPlan::Invoke
            }
        },
    }
}

/// Last step of a pass: sleep for the configured delay, if positive.
pub fn plan_sleep(cfg: &LoopConfig) -> (r: Option<u64>)
    ensures
        cfg.delay_secs > 0 ==> r == Option::Some(cfg.delay_secs),
        cfg.delay_secs == 0 ==> r is None,
{
    if cfg.delay_secs > 0 {
        Option::Some(cfg.delay_secs)
    } else {
        Option::None
    }
}

/// The iteration counter starts at 1 and increments by exactly 1 per pass.
pub fn next_iteration(n: u32) -> (r: u32)
    requires
        n < u32::MAX,
    ensures
        r == n + 1,
{
    n + 1
}

/// The progress-log message written before an invocation.
pub open spec fn spec_start_message(n: int) -> Seq<char> {
    "Starting iteration "@ + spec_dec(n)
}

/// The progress-log message written after an invocation.
pub open spec fn spec_result_message(n: int, outcome: AgentOutcome) -> Seq<char> {
    match outcome {
        AgentOutcome::Exited(code) => if code == 0 {
            "Iteration "@ + spec_dec(n) + " completed successfully"@
        } else {
            "Iteration "@ + spec_dec(n) + " exited with status: "@ + spec_dec_signed(code as int)
        },
        AgentOutcome::Signaled => "Iteration "@ + spec_dec(n) + " terminated by a signal"@,
        AgentOutcome::LaunchFailed => "Iteration "@ + spec_dec(n)
            + " failed: could not launch the agent"@,
    }
}

/// Builds the start-of-iteration log message.
pub fn start_message(n: u32) -> (r: String)
    ensures
        r@ == spec_start_message(n as int),
{
    let head = String::from_str("Starting iteration ");
    let num = u64_to_string(n as u64);
    head.concat(num.as_str())
}

/// Builds the end-of-iteration log message classifying the agent outcome.
pub fn result_message(n: u32, outcome: &AgentOutcome) -> (r: String)
    ensures
        r@ == spec_result_message(n as int, *outcome),
{
    let head = String::from_str("Iteration ");
    let num = u64_to_string(n as u64);
    let lead = head.concat(num.as_str());
    match outcome {
        AgentOutcome::Exited(code) => {
            if *code == 0i32 {
                lead.concat(" completed successfully")
            } else {
                let mid = lead.concat(" exited with status: ");
                let code_text = i32_to_string(*code);
                let r = mid.concat(code_text.as_str());
                proof {
                    assert(r@ =~= spec_result_message(n as int, *outcome));
                }
                r
            }
        },
        AgentOutcome::Signaled => lead.concat(" terminated by a signal"),
        AgentOutcome::LaunchFailed => lead.concat(" failed: could not launch the agent"),
    }
}

/// What a whole run of the loop does, given the sequence of task-list load
/// results the completion checks will observe.
pub struct RunOutcome {
    /// How many times the agent is invoked.
    pub invocations: nat,
    /// How the loop ends; `None` when the observations run out first.
    pub termination: Option<Termination>,
}

/// The loop, pass by pass, starting at iteration `n`: the limit check, then
/// the completion check on the next observed load, then (outside dry-run
/// mode) one agent invocation.  One load is observed per pass.
pub open spec fn spec_run(cfg: LoopConfig, n: int, loads: Seq<Option<TaskListModel>>) -> RunOutcome
    decreases loads.len(),
{
    if spec_limit_stop(cfg.max_iterations as int, n) {
        RunOutcome { invocations: 0, termination: Option::Some(Termination::MaxIterationsReached) }
    } else if loads.len() == 0 {
        RunOutcome { invocations: 0, termination: Option::None }
    } else if spec_completion_stop(loads[0]) {
        RunOutcome { invocations: 0, termination: Option::Some(Termination::PrdComplete) }
    } else {
        let rest = spec_run(cfg, n + 1, loads.drop_first());
        RunOutcome {
            invocations: rest.invocations + if cfg.dry_run {
                0nat
            } else {
                1nat
            },
            termination: rest.termination,
        }
    }
}

proof fn lemma_cap_helper(cfg: LoopConfig, n: int, loads: Seq<Option<TaskListModel>>)
    requires
        cfg.max_iterations > 0,
        !cfg.dry_run,
        1 <= n <= cfg.max_iterations + 1,
        loads.len() >= cfg.max_iterations + 1 - n,
        forall|i: int| 0 <= i < loads.len() ==> !spec_completion_stop(loads[i]),
    ensures
        spec_run(cfg, n, loads).invocations == cfg.max_iterations + 1 - n,
        spec_run(cfg, n, loads).termination == Option::Some(Termination::MaxIterationsReached),
    decreases cfg.max_iterations + 1 - n,
{
    if n > cfg.max_iterations {
    } else {
        let rest = loads.drop_first();
        assert(forall|i: int| 0 <= i < rest.len() ==> rest[i] == loads[i + 1]);
        lemma_cap_helper(cfg, n + 1, rest);
    }
}

/// With a positive cap `M` and a task list that is never observed complete,
/// the loop performs exactly `M` agent invocations and then terminates with
/// `MaxIterationsReached`.
pub proof fn lemma_max_iterations_cap(cfg: LoopConfig, loads: Seq<Option<TaskListModel>>)
    requires
        cfg.max_iterations > 0,
        !cfg.dry_run,
        loads.len() >= cfg.max_iterations,
        forall|i: int| 0 <= i < loads.len() ==> !spec_completion_stop(loads[i]),
    ensures
        spec_run(cfg, 1, loads).invocations == cfg.max_iterations,
        spec_run(cfg, 1, loads).termination == Option::Some(Termination::MaxIterationsReached),
{
    lemma_cap_helper(cfg, 1, loads);
}

proof fn lemma_complete_helper(cfg: LoopConfig, n: int, loads: Seq<Option<TaskListModel>>, k: int)
    requires
        !cfg.dry_run,
        n >= 1,
        0 <= k < loads.len(),
        spec_completion_stop(loads[k]),
        forall|i: int| 0 <= i < k ==> !spec_completion_stop(loads[i]),
        cfg.max_iterations == 0 || n + k <= cfg.max_iterations,
    ensures
        spec_run(cfg, n, loads).invocations == k,
        spec_run(cfg, n, loads).termination == Option::Some(Termination::PrdComplete),
    decreases k,
{
    assert(!spec_limit_stop(cfg.max_iterations as int, n));
    if k == 0 {
    } else {
        let rest = loads.drop_first();
        assert(forall|i: int| 0 <= i < rest.len() ==> rest[i] == loads[i + 1]);
        lemma_complete_helper(cfg, n + 1, rest, k - 1);
    }
}

/// Once a completion check observes a complete task list — at position `k`,
/// before the cap cuts in — the loop performs exactly the `k` earlier
/// invocations and none after: it terminates with `PrdComplete` at once.
/// The completion check precedes the invocation in every pass, including the
/// first, so a list complete from the start is never built against.
pub proof fn lemma_stops_at_completion(
    cfg: LoopConfig,
    loads: Seq<Option<TaskListModel>>,
    k: int,
)
    requires
        !cfg.dry_run,
        0 <= k < loads.len(),
        spec_completion_stop(loads[k]),
        forall|i: int| 0 <= i < k ==> !spec_completion_stop(loads[i]),
        cfg.max_iterations == 0 || k + 1 <= cfg.max_iterations,
    ensures
        spec_run(cfg, 1, loads).invocations == k,
        spec_run(cfg, 1, loads).termination == Option::Some(Termination::PrdComplete),
{
    lemma_complete_helper(cfg, 1, loads, k);
}

/// In dry-run mode the loop never invokes the agent, whatever it observes;
/// and (by `plan_iteration`) it writes no progress-log entry either, since
/// the log is written only around an `Invoke` plan.
pub proof fn lemma_dry_run_never_invokes(cfg: LoopConfig, n: int, loads: Seq<Option<TaskListModel>>)
    requires
        cfg.dry_run,
    ensures
        spec_run(cfg, n, loads).invocations == 0,
    decreases loads.len(),
{
    if spec_limit_stop(cfg.max_iterations as int, n) {
    } else if loads.len() == 0 {
    } else if spec_completion_stop(loads[0]) {
    } else {
        lemma_dry_run_never_invokes(cfg, n + 1, loads.drop_first());
    }
}

/// The interview gate's plan, given the interview-instruction document read.
#[derive(Clone, Copy, Debug, PartialEq, Eq, Structural)]
pub enum InterviewPlan {
    /// The instruction document is missing: the whole process must abort.
    MissingInstructions,
    /// Invoke the agent once with the instruction text.
    Run,
}

/// The interview step runs iff the instruction document could be read; its absence is
/// fatal.
pub fn plan_interview(instructions: &Option<String>) -> (r: InterviewPlan)
    ensures
        (r is Run) == (instructions is Some),
{
    match instructions {
        Option::Some(_) => InterviewPlan::Run,
        Option::None => InterviewPlan::MissingInstructions,
    }
}

/// How the interview step judges the interview session: only a launch failure is
/// fatal; a non-zero exit or a signal proceeds into the loop regardless.
#[derive(Clone, Copy, Debug, PartialEq, Eq, Structural)]
pub enum InterviewJudgement {
    Fatal,
    Proceed,
}

/// Judges the interview agent session.
pub fn judge_interview(outcome: &AgentOutcome) -> (r: InterviewJudgement)
    ensures
        (r is Fatal) == (outcome is LaunchFailed),
{
    match outcome {
        AgentOutcome::LaunchFailed => InterviewJudgement::Fatal,
        _ => InterviewJudgement::Proceed,
    }
}

/// Whether the agent run counts as a success (exit status zero).
pub fn agent_run_succeeded(outcome: &AgentOutcome) -> (r: bool)
    ensures
        r == (outcome matches AgentOutcome::Exited(0)),
{
    match outcome {
        AgentOutcome::Exited(code) => *code == 0i32,
        _ => false,
    }
}

} // verus!
