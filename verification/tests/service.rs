//! Service-layer behavior: validation, name resolution, error remapping.

use doit::errors::{DatabaseError, ServiceError};
use doit::svc::DoitService;

#[test]
fn duplicate_project_fails_already_exists() {
    let mut s = DoitService::new();
    let first = s.add_new_project("Inbox".to_string());
    assert!(first.is_ok());
    let second = s.add_new_project("Inbox".to_string());
    match second {
        Err(ServiceError::Database(DatabaseError::AlreadyExists(_))) => {},
        other => panic!("expected AlreadyExists, got {:?}", other),
    }
    // the store is unchanged: the original project still resolves, and the
    // failed creation inserted nothing under the name
    let tasks = s.get_all_tasks("Inbox".to_string()).unwrap();
    assert_eq!(tasks.len(), 0);
}

#[test]
fn task_under_missing_project_fails_not_found() {
    let mut s = DoitService::new();
    let r = s.add_task("Home".to_string(), "Buy milk".to_string());
    match r {
        Err(ServiceError::Database(DatabaseError::NotFound(_))) => {},
        other => panic!("expected pass-through NotFound, got {:?}", other),
    }
    // nothing was inserted
    assert!(matches!(
        s.get_all_tasks("Home".to_string()),
        Err(ServiceError::InvalidInput(_))
    ));
}

#[test]
fn subtask_under_missing_project_fails_invalid_input() {
    let mut s = DoitService::new();
    let r = s.add_subtask(
        "Home".to_string(),
        "Buy milk".to_string(),
        "Oat milk".to_string(),
    );
    match r {
        Err(ServiceError::InvalidInput(m)) => {
            assert_eq!(m, "Project 'Home' does not exist");
        },
        other => panic!("expected InvalidInput, got {:?}", other),
    }
}

#[test]
fn subtask_under_missing_task_fails_invalid_input() {
    let mut s = DoitService::new();
    s.add_new_project("Home".to_string()).unwrap();
    let r = s.add_subtask(
        "Home".to_string(),
        "Buy milk".to_string(),
        "Oat milk".to_string(),
    );
    match r {
        Err(ServiceError::InvalidInput(m)) => {
            assert_eq!(m, "Task 'Buy milk' does not exist in project 'Home'");
        },
        other => panic!("expected InvalidInput, got {:?}", other),
    }
}

#[test]
fn add_subtask_succeeds_and_collides_within_task() {
    let mut s = DoitService::new();
    s.add_new_project("Home".to_string()).unwrap();
    s.add_task("Home".to_string(), "Buy milk".to_string()).unwrap();
    let sid = s
        .add_subtask(
            "Home".to_string(),
            "Buy milk".to_string(),
            "Oat milk".to_string(),
        )
        .unwrap();
    assert_eq!(sid, 1);
    let again = s.add_subtask(
        "Home".to_string(),
        "Buy milk".to_string(),
        "Oat milk".to_string(),
    );
    assert!(matches!(
        again,
        Err(ServiceError::Database(DatabaseError::AlreadyExists(_)))
    ));
}

#[test]
fn whitespace_only_names_fail_invalid_input() {
    let mut s = DoitService::new();
    assert!(matches!(
        s.add_new_project("   ".to_string()),
        Err(ServiceError::InvalidInput(_))
    ));
    assert!(matches!(
        s.add_new_project("".to_string()),
        Err(ServiceError::InvalidInput(_))
    ));
    assert!(matches!(
        s.add_new_project("\t\n ".to_string()),
        Err(ServiceError::InvalidInput(_))
    ));
    // the rejected creations touched nothing: a real name is still free
    s.add_new_project("Home".to_string()).unwrap();
    assert!(matches!(
        s.add_task("Home".to_string(), "   ".to_string()),
        Err(ServiceError::InvalidInput(_))
    ));
    assert!(matches!(
        s.add_subtask("Home".to_string(), "t".to_string(), "   ".to_string()),
        Err(ServiceError::InvalidInput(_))
    ));
    let tasks = s.get_all_tasks("Home".to_string()).unwrap();
    assert_eq!(tasks.len(), 0);
}

#[test]
fn end_to_end_scenario() {
    let mut s = DoitService::new();
    assert!(s.add_new_project("Home".to_string()).is_ok());
    assert!(s.add_task("Home".to_string(), "Buy milk".to_string()).is_ok());
    let again = s.add_task("Home".to_string(), "Buy milk".to_string());
    assert!(matches!(
        again,
        Err(ServiceError::Database(DatabaseError::AlreadyExists(_)))
    ));
    let tasks = s.get_all_tasks("Home".to_string()).unwrap();
    assert_eq!(tasks.len(), 1);
    assert_eq!(tasks[0].name, "Buy milk");
    assert!(!tasks[0].completed);
}

#[test]
fn list_tasks_of_missing_project_fails_invalid_input() {
    let s = DoitService::new();
    assert!(matches!(
        s.get_all_tasks("Nowhere".to_string()),
        Err(ServiceError::InvalidInput(_))
    ));
}

#[test]
fn list_tasks_is_scoped_to_the_project() {
    let mut s = DoitService::new();
    s.add_new_project("Home".to_string()).unwrap();
    s.add_new_project("Work".to_string()).unwrap();
    s.add_task("Home".to_string(), "Buy milk".to_string()).unwrap();
    s.add_task("Work".to_string(), "File report".to_string()).unwrap();
    s.add_task("Home".to_string(), "Mow lawn".to_string()).unwrap();
    let home = s.get_all_tasks("Home".to_string()).unwrap();
    let work = s.get_all_tasks("Work".to_string()).unwrap();
    assert_eq!(home.len(), 2);
    assert_eq!(home[0].name, "Buy milk");
    assert_eq!(home[1].name, "Mow lawn");
    assert_eq!(work.len(), 1);
    assert_eq!(work[0].name, "File report");
}
