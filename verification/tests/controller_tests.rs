use ralph::controller::{
    agent_run_succeeded, check_completion, check_limit, judge_interview, next_iteration,
    plan_interview, plan_iteration, plan_sleep, result_message, start_message, AgentOutcome,
    CompletionCheck, InterviewJudgement, InterviewPlan, IterationPlan, LoopConfig, Termination,
};
use ralph::task_list::{Feature, LoadError, Status, TaskList};

fn config(max_iterations: u32, dry_run: bool) -> LoopConfig {
    LoopConfig { max_iterations, delay_secs: 0, dry_run, skip_permissions: false }
}

fn list(statuses: &[Status]) -> TaskList {
    TaskList {
        project: "demo".to_string(),
        features: statuses
            .iter()
            .enumerate()
            .map(|(i, s)| Feature {
                id: format!("f{}", i),
                title: format!("F{}", i),
                description: String::new(),
                status: *s,
                acceptance_criteria: Vec::new(),
            })
            .collect(),
    }
}

#[test]
fn limit_check_stops_only_past_a_positive_cap() {
    let cfg = config(3, false);
    assert!(!check_limit(&cfg, 1));
    assert!(!check_limit(&cfg, 3));
    assert!(check_limit(&cfg, 4));
    let unlimited = config(0, false);
    assert!(!check_limit(&unlimited, 1_000_000));
}

#[test]
fn completion_check_judges_the_load() {
    let complete: Result<TaskList, LoadError> = Ok(list(&[Status::Passing, Status::Passing]));
    assert_eq!(check_completion(&complete), CompletionCheck::Finished);

    let incomplete: Result<TaskList, LoadError> = Ok(list(&[Status::Passing, Status::Failing]));
    assert_eq!(check_completion(&incomplete), CompletionCheck::NotYet { warn: false });

    let empty: Result<TaskList, LoadError> = Ok(list(&[]));
    assert_eq!(check_completion(&empty), CompletionCheck::NotYet { warn: false });

    let failed: Result<TaskList, LoadError> = Err(LoadError::Unreadable);
    assert_eq!(check_completion(&failed), CompletionCheck::NotYet { warn: true });
}

#[test]
fn iteration_plan_is_fatal_without_a_prompt() {
    let cfg = config(0, false);
    assert_eq!(plan_iteration(&cfg, &None), IterationPlan::FatalPromptError);
    let dry = config(0, true);
    assert_eq!(plan_iteration(&dry, &None), IterationPlan::FatalPromptError);
}

#[test]
fn dry_run_displays_and_normal_mode_invokes() {
    let prompt = Some("do the work".to_string());
    let cfg = config(0, false);
    assert_eq!(plan_iteration(&cfg, &prompt), IterationPlan::Invoke);
    let dry = config(0, true);
    assert_eq!(plan_iteration(&dry, &prompt), IterationPlan::DryRun);
}

#[test]
fn sleep_only_for_a_positive_delay() {
    let mut cfg = config(0, false);
    cfg.delay_secs = 2;
    assert_eq!(plan_sleep(&cfg), Some(2));
    cfg.delay_secs = 0;
    assert_eq!(plan_sleep(&cfg), None);
}

#[test]
fn iteration_counter_increments_by_one() {
    assert_eq!(next_iteration(1), 2);
    assert_eq!(next_iteration(41), 42);
}

#[test]
fn log_messages_are_exact() {
    assert_eq!(start_message(7), "Starting iteration 7");
    assert_eq!(
        result_message(7, &AgentOutcome::Exited(0)),
        "Iteration 7 completed successfully"
    );
    assert_eq!(
        result_message(7, &AgentOutcome::Exited(3)),
        "Iteration 7 exited with status: 3"
    );
    assert_eq!(
        result_message(12, &AgentOutcome::Exited(-9)),
        "Iteration 12 exited with status: -9"
    );
    assert_eq!(
        result_message(1, &AgentOutcome::Signaled),
        "Iteration 1 terminated by a signal"
    );
    assert_eq!(
        result_message(2, &AgentOutcome::LaunchFailed),
        "Iteration 2 failed: could not launch the agent"
    );
}

#[test]
fn only_exit_zero_counts_as_success() {
    assert!(agent_run_succeeded(&AgentOutcome::Exited(0)));
    assert!(!agent_run_succeeded(&AgentOutcome::Exited(1)));
    assert!(!agent_run_succeeded(&AgentOutcome::Signaled));
    assert!(!agent_run_succeeded(&AgentOutcome::LaunchFailed));
}

#[test]
fn interview_gate_plans_and_judgements() {
    assert_eq!(plan_interview(&None), InterviewPlan::MissingInstructions);
    assert_eq!(
        plan_interview(&Some("interview text".to_string())),
        InterviewPlan::Run
    );
    assert_eq!(judge_interview(&AgentOutcome::LaunchFailed), InterviewJudgement::Fatal);
    assert_eq!(judge_interview(&AgentOutcome::Exited(1)), InterviewJudgement::Proceed);
    assert_eq!(judge_interview(&AgentOutcome::Exited(0)), InterviewJudgement::Proceed);
    assert_eq!(judge_interview(&AgentOutcome::Signaled), InterviewJudgement::Proceed);
}

/// Drives the controller the way the surrounding program does: one pass is
/// limit check, completion check over the scripted load, then an invocation
/// unless dry-run.  Returns the invocation count and the termination.
fn drive(cfg: &LoopConfig, loads: Vec<Result<TaskList, LoadError>>) -> (u32, Option<Termination>) {
    let mut invocations = 0u32;
    let mut n = 1u32;
    let mut loads = loads.into_iter();
    loop {
        if check_limit(cfg, n) {
            return (invocations, Some(Termination::MaxIterationsReached));
        }
        let load = match loads.next() {
            Some(l) => l,
            None => return (invocations, None),
        };
        match check_completion(&load) {
            CompletionCheck::Finished => {
                return (invocations, Some(Termination::PrdComplete));
            }
            CompletionCheck::NotYet { warn: _ } => {}
        }
        match plan_iteration(cfg, &Some("prompt".to_string())) {
            IterationPlan::Invoke => invocations += 1,
            IterationPlan::DryRun => {}
            IterationPlan::FatalPromptError => unreachable!(),
        }
        n = next_iteration(n);
    }
}

#[test]
fn never_complete_list_runs_exactly_the_cap() {
    let cfg = config(3, false);
    let loads: Vec<Result<TaskList, LoadError>> =
        (0..5).map(|_| Ok(list(&[Status::Pending]))).collect();
    let (invocations, term) = drive(&cfg, loads);
    assert_eq!(invocations, 3);
    assert_eq!(term, Some(Termination::MaxIterationsReached));
}

#[test]
fn completion_stops_the_loop_before_the_next_invocation() {
    let cfg = config(10, false);
    let loads: Vec<Result<TaskList, LoadError>> = vec![
        Ok(list(&[Status::InProgress])),
        Ok(list(&[Status::Passing])),
        Ok(list(&[Status::Passing])),
    ];
    let (invocations, term) = drive(&cfg, loads);
    assert_eq!(invocations, 1);
    assert_eq!(term, Some(Termination::PrdComplete));
}

#[test]
fn a_list_complete_from_the_start_is_never_built_against() {
    let cfg = config(10, false);
    let loads: Vec<Result<TaskList, LoadError>> = vec![Ok(list(&[Status::Passing]))];
    let (invocations, term) = drive(&cfg, loads);
    assert_eq!(invocations, 0);
    assert_eq!(term, Some(Termination::PrdComplete));
}

#[test]
fn failed_loads_keep_the_loop_going() {
    let cfg = config(2, false);
    let loads: Vec<Result<TaskList, LoadError>> =
        vec![Err(LoadError::Unreadable), Err(LoadError::Malformed), Err(LoadError::Unreadable)];
    let (invocations, term) = drive(&cfg, loads);
    assert_eq!(invocations, 2);
    assert_eq!(term, Some(Termination::MaxIterationsReached));
}

#[test]
fn dry_run_never_invokes() {
    let cfg = config(3, true);
    let loads: Vec<Result<TaskList, LoadError>> =
        (0..5).map(|_| Ok(list(&[Status::Pending]))).collect();
    let (invocations, term) = drive(&cfg, loads);
    assert_eq!(invocations, 0);
    assert_eq!(term, Some(Termination::MaxIterationsReached));
}
