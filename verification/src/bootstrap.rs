//! Project bootstrapping: which scaffold files and directories a project
//! needs, and the idempotent creation plan — a file already present is
//! skipped, never overwritten.

use vstd::prelude::*;
use vstd::string::*;

verus! {

/// The scaffold template files, in creation order.
pub open spec fn spec_template_paths() -> Seq<Seq<char>> {
    seq![
        "AGENT.md"@,
        "PRD.json"@,
        "progress.md"@,
        "guardrails.md"@,
        ".agent/settings.json"@,
        ".agent/commands/interview.md"@,
        ".agent/commands/plan.md"@,
        ".agent/commands/build.md"@,
        ".agent/commands/ralph.md"@,
    ]
}

/// The scaffold template file paths, in creation order.
pub fn template_paths() -> (r: Vec<String>)
    ensures
        r.deep_view() == spec_template_paths(),
{
    let mut r: Vec<String> = Vec::new();
    r.push(String::from_str("AGENT.md"));
    r.push(String::from_str("PRD.json"));
    r.push(String::from_str("progress.md"));
    r.push(String::from_str("guardrails.md"));
    r.push(String::from_str(".agent/settings.json"));
    r.push(String::from_str(".agent/commands/interview.md"));
    r.push(String::from_str(".agent/commands/plan.md"));
    r.push(String::from_str(".agent/commands/build.md"));
    r.push(String::from_str(".agent/commands/ralph.md"));
    proof {
        assert(r.deep_view() =~= spec_template_paths());
    }
    r
}

/// The directories the scaffold needs.
pub fn scaffold_dirs() -> (r: Vec<String>)
    ensures
        r.deep_view() == seq![".agent/commands"@],
{
    let mut r: Vec<String> = Vec::new();
    r.push(String::from_str(".agent/commands"));
    proof {
        assert(r.deep_view() =~= seq![".agent/commands"@]);
    }
    r
}

/// The scaffold is present when its two entry documents exist.
pub fn scaffold_present(agent_md_exists: bool, task_list_exists: bool) -> (r: bool)
    ensures
        r == (agent_md_exists && task_list_exists),
{
    agent_md_exists && task_list_exists
}

/// What to do with a supplied project name.
#[derive(Clone, Copy, Debug, PartialEq, Eq, Structural)]
pub enum RootAction {
    /// The directory does not exist: create it, then enter it.
    CreateAndEnter,
    /// The directory already exists: enter it and proceed.  This is the
    /// chosen policy for an existing directory — entering is safe because
    /// bootstrap never overwrites a file that is already there.
    EnterExisting,
}

/// Resolves the project root from whether the named directory exists.
pub fn resolve_root(exists: bool) -> (r: RootAction)
    ensures
        (r is EnterExisting) == exists,
{
    if exists {
        RootAction::EnterExisting
    } else {
        RootAction::CreateAndEnter
    }
}

/// What bootstrap does with one scaffold file.
#[derive(Clone, Copy, Debug, PartialEq, Eq, Structural)]
pub enum FileAction {
    /// The file does not exist yet: write it, report "create".
    Create,
    /// The file already exists: leave it untouched, report "skip".
    Skip,
}

/// The plan for a given existence map: create what is missing, skip the rest.
pub open spec fn spec_bootstrap_plan(exists: Seq<bool>) -> Seq<FileAction> {
    exists.map(|i: int, b: bool| if b { FileAction::Skip } else { FileAction::Create })
}

/// Which files exist after a run: all of them.
pub open spec fn spec_exists_after(exists: Seq<bool>) -> Seq<bool> {
    exists.map(|i: int, b: bool| true)
}

/// Plans one bootstrap run over the files' current existence, in order.
pub fn bootstrap_plan(exists: &Vec<bool>) -> (r: Vec<FileAction>)
    ensures
        r@ == spec_bootstrap_plan(exists@),
{
    let n = exists.len();
    let mut r: Vec<FileAction> = Vec::new();
    let mut i: usize = 0;
    while i < n
        invariant
            0 <= i <= n,
            n == exists@.len(),
            r@ =~= spec_bootstrap_plan(exists@.take(i as int)),
        decreases n - i,
    {
        proof {
            assert(spec_bootstrap_plan(exists@.take(i + 1 as int)) =~= spec_bootstrap_plan(
                exists@.take(i as int),
            ).push(if exists@[i as int] {
                FileAction::Skip
            } else {
                FileAction::Create
            }));
        }
        if exists[i] {
            r.push(FileAction::Skip);
        } else {
            r.push(FileAction::Create);
        }
        i = i + 1;
    }
    proof {
        assert(exists@.take(n as int) =~= exists@);
    }
    r
}

/// Bootstrapping is idempotent.  After one run every scaffold file exists,
/// so the next run plans only skips — it changes no file — and the state,
/// hence the report, of every later run equals the second run's.  When
/// nothing was missing to begin with, the first report already equals the
/// second.
pub proof fn lemma_bootstrap_idempotent(exists: Seq<bool>)
    ensures
        forall|i: int|
            0 <= i < exists.len() ==> spec_bootstrap_plan(spec_exists_after(exists))[i]
                == FileAction::Skip,
        spec_exists_after(spec_exists_after(exists)) == spec_exists_after(exists),
        spec_bootstrap_plan(spec_exists_after(exists)) == spec_bootstrap_plan(
            spec_exists_after(spec_exists_after(exists)),
        ),
        (forall|i: int| 0 <= i < exists.len() ==> exists[i]) ==> spec_bootstrap_plan(exists)
            == spec_bootstrap_plan(spec_exists_after(exists)),
{
    assert(spec_exists_after(spec_exists_after(exists)) =~= spec_exists_after(exists));
    if forall|i: int| 0 <= i < exists.len() ==> exists[i] {
        assert(spec_bootstrap_plan(exists) =~= spec_bootstrap_plan(spec_exists_after(exists)));
    }
}

} // verus!
