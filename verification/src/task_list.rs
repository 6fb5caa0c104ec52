//! The task list: the declarative document that the loop reads every pass.
//!
//! A task list is complete exactly when it has at least one feature and every
//! feature's status is `Passing`.  An empty feature sequence is never complete:
//! it is the signal that the interview gate must run.

use vstd::prelude::*;

verus! {

/// Status of one feature, as recorded in the task list document.
#[derive(Clone, Copy, Debug, PartialEq, Eq, Structural)]
pub enum Status {
    Pending,
    InProgress,
    Failing,
    Passing,
}

/// One entry of the task list.
pub struct Feature {
    pub id: String,
    pub title: String,
    pub description: String,
    pub status: Status,
    pub acceptance_criteria: Vec<String>,
}

/// Mathematical model of a `Feature`.
pub struct FeatureModel {
    pub id: Seq<char>,
    pub title: Seq<char>,
    pub description: Seq<char>,
    pub status: Status,
    pub acceptance_criteria: Seq<Seq<char>>,
}

impl View for Feature {
    type V = FeatureModel;

    open spec fn view(&self) -> FeatureModel {
        FeatureModel {
            id: self.id@,
            title: self.title@,
            description: self.description@,
            status: self.status,
            acceptance_criteria: self.acceptance_criteria@.map(|i: int, s: String| s@),
        }
    }
}

/// The whole task list document.
pub struct TaskList {
    pub project: String,
    pub features: Vec<Feature>,
}

/// Mathematical model of a `TaskList`.
pub struct TaskListModel {
    pub project: Seq<char>,
    pub features: Seq<FeatureModel>,
}

impl View for TaskList {
    type V = TaskListModel;

    open spec fn view(&self) -> TaskListModel {
        TaskListModel {
            project: self.project@,
            features: self.features@.map(|i: int, f: Feature| f@),
        }
    }
}

/// Why a task list could not be obtained: the file could not be read, or its
/// text was not a well-shaped task list document.
#[derive(Clone, Copy, Debug, PartialEq, Eq, Structural)]
pub enum LoadError {
    Unreadable,
    Malformed,
}

impl LoadError {
    /// A fixed description, for warnings printed by the caller.
    pub fn describe(&self) -> (r: &'static str)
        ensures
            *self is Unreadable ==> r@ == "could not read the task list file"@,
            *self is Malformed ==> r@ == "the task list file is not a valid task list document"@,
    {
        match self {
            LoadError::Unreadable => "could not read the task list file",
            LoadError::Malformed => "the task list file is not a valid task list document",
        }
    }
}

/// A task list is complete iff it has at least one feature and every feature
/// is `Passing`.
pub open spec fn spec_is_complete(t: TaskListModel) -> bool {
    &&& t.features.len() > 0
    &&& forall|i: int| 0 <= i < t.features.len() ==> t.features[i].status is Passing
}

/// How many features of the sequence are `Passing`.
pub open spec fn spec_passing_count(fs: Seq<FeatureModel>) -> nat
    decreases fs.len(),
{
    if fs.len() == 0 {
        0
    } else {
        spec_passing_count(fs.drop_last()) + if fs.last().status is Passing {
            1nat
        } else {
            0nat
        }
    }
}

/// The interview gate runs iff the task list could not be loaded at all, or
/// it loaded with an empty feature sequence.
pub open spec fn spec_needs_interview(load: Option<TaskListModel>) -> bool {
    match load {
        Option::Some(t) => t.features.len() == 0,
        Option::None => true,
    }
}

/// The model of a load attempt: `Some` on success, `None` on any failure.
pub open spec fn load_model(load: Result<TaskList, LoadError>) -> Option<TaskListModel> {
    match load {
        Result::Ok(t) => Option::Some(t@),
        Result::Err(_) => Option::None,
    }
}

impl TaskList {
    /// True iff the task list is complete.
    pub fn is_complete(&self) -> (r: bool)
        ensures
            r == spec_is_complete(self@),
    {
        let n = self.features.len();
        if n == 0 {
            return false;
        }
        let mut i: usize = 0;
        while i < n
            invariant
                0 <= i <= n,
                n == self.features.len(),
                forall|j: int| 0 <= j < i ==> self@.features[j].status is Passing,
            decreases n - i,
        {
            match self.features[i].status {
                Status::Passing => {},
                _ => {
                    assert(!(self@.features[i as int].status is Passing));
                    return false;
                },
            }
            i = i + 1;
        }
        true
    }

    /// `(passing, total)`: how many features are `Passing`, out of how many.
    pub fn summarize(&self) -> (r: (usize, usize))
        ensures
            r.0 == spec_passing_count(self@.features),
            r.1 == self@.features.len(),
    {
        let n = self.features.len();
        let mut passing: usize = 0;
        let mut i: usize = 0;
        while i < n
            invariant
                0 <= i <= n,
                n == self.features.len(),
                passing <= i,
                passing == spec_passing_count(self@.features.subrange(0, i as int)),
            decreases n - i,
        {
            let is_passing = match self.features[i].status {
                Status::Passing => true,
                _ => false,
            };
            proof {
                let pre = self@.features.subrange(0, i as int);
                let post = self@.features.subrange(0, i + 1 as int);
                assert(post.drop_last() =~= pre);
                assert(post.last() == self@.features[i as int]);
            }
            if is_passing {
                passing = passing + 1;
            }
            i = i + 1;
        }
        proof {
            assert(self@.features.subrange(0, n as int) =~= self@.features);
        }
        (passing, n)
    }
}

/// Whether the interview gate must run, judged from a load attempt.
pub fn needs_interview_from(load: &Result<TaskList, LoadError>) -> (r: bool)
    ensures
        r == spec_needs_interview(match load {
            Result::Ok(t) => Option::Some(t@),
            Result::Err(_) => Option::None,
        }),
{
    match load {
        Result::Ok(t) => t.features.len() == 0,
        Result::Err(_) => true,
    }
}

/// An empty feature sequence always needs the interview and is never complete.
pub proof fn lemma_empty_features(t: TaskListModel)
    requires
        t.features.len() == 0,
    ensures
        spec_needs_interview(Option::Some(t)),
        !spec_is_complete(t),
{
}

/// A non-empty task list is complete iff every feature is `Passing`; one
/// non-`Passing` feature anywhere forces it incomplete.
pub proof fn lemma_completion_characterization(t: TaskListModel)
    requires
        t.features.len() > 0,
    ensures
        spec_is_complete(t) <==> (forall|i: int|
            0 <= i < t.features.len() ==> t.features[i].status is Passing),
        forall|i: int|
            0 <= i < t.features.len() && !(t.features[i].status is Passing)
                ==> !spec_is_complete(t),
{
}

} // verus!
