use ralph::task_list::{Feature, LoadError, Status, TaskList};

fn feature(id: &str, status: Status) -> Feature {
    Feature {
        id: id.to_string(),
        title: format!("title for {}", id),
        description: String::new(),
        status,
        acceptance_criteria: Vec::new(),
    }
}

#[test]
fn empty_features_is_not_complete_and_needs_interview() {
    let t = TaskList { project: "demo".to_string(), features: Vec::new() };
    assert!(!t.is_complete());
    let load: Result<TaskList, LoadError> = Ok(t);
    assert!(ralph::task_list::needs_interview_from(&load));
}

#[test]
fn failed_load_needs_interview() {
    let unreadable: Result<TaskList, LoadError> = Err(LoadError::Unreadable);
    let malformed: Result<TaskList, LoadError> = Err(LoadError::Malformed);
    assert!(ralph::task_list::needs_interview_from(&unreadable));
    assert!(ralph::task_list::needs_interview_from(&malformed));
}

#[test]
fn loaded_nonempty_list_needs_no_interview() {
    let t = TaskList {
        project: "demo".to_string(),
        features: vec![feature("a", Status::Pending)],
    };
    let load: Result<TaskList, LoadError> = Ok(t);
    assert!(!ralph::task_list::needs_interview_from(&load));
}

#[test]
fn all_passing_is_complete() {
    let t = TaskList {
        project: "demo".to_string(),
        features: vec![feature("a", Status::Passing), feature("b", Status::Passing)],
    };
    assert!(t.is_complete());
}

#[test]
fn one_non_passing_feature_forces_incomplete() {
    for bad in [Status::Pending, Status::InProgress, Status::Failing] {
        let t = TaskList {
            project: "demo".to_string(),
            features: vec![
                feature("a", Status::Passing),
                feature("b", bad),
                feature("c", Status::Passing),
            ],
        };
        assert!(!t.is_complete());
    }
}

#[test]
fn summarize_counts_passing_out_of_total() {
    let t = TaskList {
        project: "demo".to_string(),
        features: vec![
            feature("a", Status::Passing),
            feature("b", Status::Failing),
            feature("c", Status::Passing),
            feature("d", Status::InProgress),
        ],
    };
    assert_eq!(t.summarize(), (2, 4));
    let empty = TaskList { project: "demo".to_string(), features: Vec::new() };
    assert_eq!(empty.summarize(), (0, 0));
}

#[test]
fn load_error_descriptions_differ() {
    assert_ne!(
        LoadError::Unreadable.describe(),
        LoadError::Malformed.describe()
    );
}
