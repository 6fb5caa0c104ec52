use ralph::bootstrap::{
    bootstrap_plan, resolve_root, scaffold_dirs, scaffold_present, template_paths, FileAction,
    RootAction,
};

#[test]
fn existing_root_is_entered_and_missing_root_is_created() {
    assert_eq!(resolve_root(true), RootAction::EnterExisting);
    assert_eq!(resolve_root(false), RootAction::CreateAndEnter);
}

#[test]
fn template_paths_are_the_scaffold() {
    let paths = template_paths();
    assert_eq!(
        paths,
        vec![
            "AGENT.md",
            "PRD.json",
            "progress.md",
            "guardrails.md",
            ".agent/settings.json",
            ".agent/commands/interview.md",
            ".agent/commands/plan.md",
            ".agent/commands/build.md",
            ".agent/commands/ralph.md",
        ]
    );
    assert_eq!(scaffold_dirs(), vec![".agent/commands"]);
}

#[test]
fn scaffold_presence_needs_both_entry_documents() {
    assert!(scaffold_present(true, true));
    assert!(!scaffold_present(true, false));
    assert!(!scaffold_present(false, true));
    assert!(!scaffold_present(false, false));
}

#[test]
fn plan_creates_missing_and_skips_existing() {
    let exists = vec![true, false, true, false];
    assert_eq!(
        bootstrap_plan(&exists),
        vec![FileAction::Skip, FileAction::Create, FileAction::Skip, FileAction::Create]
    );
}

#[test]
fn second_run_over_the_same_directory_only_skips() {
    // First run: some files are missing and get created, so afterwards every
    // file exists.
    let before = vec![false, true, false];
    let first = bootstrap_plan(&before);
    assert!(first.contains(&FileAction::Create));
    let after: Vec<bool> = before.iter().map(|_| true).collect();
    // Second run: everything exists, nothing is written, and the report is a
    // fixed point from here on.
    let second = bootstrap_plan(&after);
    assert_eq!(second, vec![FileAction::Skip, FileAction::Skip, FileAction::Skip]);
    let third = bootstrap_plan(&after);
    assert_eq!(second, third);
}

#[test]
fn runs_over_an_already_complete_directory_report_identically() {
    let complete = vec![true, true, true, true];
    let first = bootstrap_plan(&complete);
    let second = bootstrap_plan(&complete);
    assert_eq!(first, second);
    assert!(first.iter().all(|a| *a == FileAction::Skip));
}
