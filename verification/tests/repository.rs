//! Repository behavior: identifiers, lookups, renames, status changes and
//! cascading deletes.

use doit::errors::DatabaseError;
use doit::models::{NewProject, NewSubTask, NewTask, Project, SubTask, Task, Thoughts};
use doit::operations::Database;

fn new_project(name: &str) -> NewProject {
    NewProject { name: name.to_string() }
}

fn new_task(pid: i32, name: &str) -> NewTask {
    NewTask { project_id: pid, name: name.to_string(), completed: false }
}

fn new_subtask(tid: i32, name: &str) -> NewSubTask {
    NewSubTask { task_id: tid, name: name.to_string(), completed: false }
}

#[test]
fn created_project_round_trips_by_name() {
    let mut db = Database::new();
    let pid = db.create_project(new_project("Inbox")).unwrap();
    let found = db.get_project_by_name("Inbox".to_string()).unwrap();
    assert_eq!(found.name, "Inbox");
    assert_eq!(found.id, pid);
    let by_id = db.get_project_by_id(pid).unwrap();
    assert_eq!(by_id.name, "Inbox");
}

#[test]
fn identifiers_grow_and_are_never_reused() {
    let mut db = Database::new();
    let a = db.create_project(new_project("A")).unwrap();
    let b = db.create_project(new_project("B")).unwrap();
    assert_eq!(a, 1);
    assert_eq!(b, 2);
    db.delete_project("B".to_string()).unwrap();
    let c = db.create_project(new_project("C")).unwrap();
    assert_eq!(c, 3);
}

#[test]
fn missing_lookups_fail_not_found() {
    let db = Database::new();
    assert!(matches!(
        db.get_project_by_id(7),
        Err(DatabaseError::NotFound(_))
    ));
    assert!(matches!(
        db.get_project_by_name("X".to_string()),
        Err(DatabaseError::NotFound(_))
    ));
    assert!(matches!(
        db.get_tasks_by_name("X".to_string()),
        Err(DatabaseError::NotFound(_))
    ));
    assert!(matches!(db.get_tasks_by_id(7), Err(DatabaseError::NotFound(_))));
    assert!(matches!(
        db.get_subtask_by_id(7),
        Err(DatabaseError::NotFound(_))
    ));
    assert!(matches!(
        db.get_task_by_name_and_project_id("X".to_string(), 1),
        Err(DatabaseError::NotFound(_))
    ));
}

#[test]
fn rename_project_checks_collisions() {
    let mut db = Database::new();
    let pid = db.create_project(new_project("Old")).unwrap();
    db.create_project(new_project("Taken")).unwrap();
    assert!(matches!(
        db.update_project("Old".to_string(), "Taken".to_string()),
        Err(DatabaseError::AlreadyExists(_))
    ));
    assert!(matches!(
        db.update_project("Missing".to_string(), "New".to_string()),
        Err(DatabaseError::NotFound(_))
    ));
    let r = db.update_project("Old".to_string(), "New".to_string()).unwrap();
    assert_eq!(r, pid);
    assert_eq!(db.get_project_by_name("New".to_string()).unwrap().id, pid);
    assert!(matches!(
        db.get_project_by_name("Old".to_string()),
        Err(DatabaseError::NotFound(_))
    ));
}

#[test]
fn task_rename_collides_only_within_its_project() {
    let mut db = Database::new();
    let home = db.create_project(new_project("Home")).unwrap();
    let work = db.create_project(new_project("Work")).unwrap();
    db.add_new_task(new_task(home, "alpha")).unwrap();
    db.add_new_task(new_task(home, "beta")).unwrap();
    db.add_new_task(new_task(work, "gamma")).unwrap();
    // a name already used by a different task in the same project is refused
    assert!(matches!(
        db.update_task("alpha".to_string(), "beta".to_string()),
        Err(DatabaseError::AlreadyExists(_))
    ));
    // a name used only in a different project is fine
    let tid = db.update_task("alpha".to_string(), "gamma".to_string()).unwrap();
    let renamed = db.get_tasks_by_id(tid).unwrap();
    assert_eq!(renamed.name, "gamma");
    assert_eq!(renamed.project_id, home);
}

#[test]
fn task_creation_requires_existing_project() {
    let mut db = Database::new();
    assert!(matches!(
        db.add_new_task(new_task(9, "orphan")),
        Err(DatabaseError::NotFound(_))
    ));
    let pid = db.create_project(new_project("Home")).unwrap();
    let tid = db.add_new_task(new_task(pid, "chore")).unwrap();
    assert_eq!(tid, 1);
    assert!(matches!(
        db.add_new_task(new_task(pid, "chore")),
        Err(DatabaseError::AlreadyExists(_))
    ));
}

#[test]
fn task_status_updates_only_the_target() {
    let mut db = Database::new();
    let pid = db.create_project(new_project("Home")).unwrap();
    db.add_new_task(new_task(pid, "chore")).unwrap();
    db.add_new_task(new_task(pid, "errand")).unwrap();
    let tid = db.update_task_status("chore".to_string(), true).unwrap();
    assert!(db.get_tasks_by_id(tid).unwrap().completed);
    let other = db.get_task_by_name_and_project_id("errand".to_string(), pid).unwrap();
    assert!(!other.completed);
    assert!(matches!(
        db.update_task_status("missing".to_string(), true),
        Err(DatabaseError::NotFound(_))
    ));
}

#[test]
fn deleting_a_task_cascades_to_its_subtasks() {
    let mut db = Database::new();
    let pid = db.create_project(new_project("Home")).unwrap();
    let t1 = db.add_new_task(new_task(pid, "chore")).unwrap();
    let t2 = db.add_new_task(new_task(pid, "errand")).unwrap();
    let s1 = db.add_new_subtask(new_subtask(t1, "step one")).unwrap();
    let s2 = db.add_new_subtask(new_subtask(t1, "step two")).unwrap();
    let s3 = db.add_new_subtask(new_subtask(t2, "other step")).unwrap();
    let deleted = db.delete_task("chore".to_string()).unwrap();
    assert_eq!(deleted, t1);
    assert!(matches!(db.get_tasks_by_id(t1), Err(DatabaseError::NotFound(_))));
    assert!(matches!(db.get_subtask_by_id(s1), Err(DatabaseError::NotFound(_))));
    assert!(matches!(db.get_subtask_by_id(s2), Err(DatabaseError::NotFound(_))));
    // the unrelated task and its subtask survive
    assert!(db.get_tasks_by_id(t2).is_ok());
    assert!(db.get_subtask_by_id(s3).is_ok());
}

#[test]
fn deleting_a_project_cascades_and_spares_the_rest() {
    let mut db = Database::new();
    let home = db.create_project(new_project("Home")).unwrap();
    let work = db.create_project(new_project("Work")).unwrap();
    let t1 = db.add_new_task(new_task(home, "chore")).unwrap();
    let t2 = db.add_new_task(new_task(home, "errand")).unwrap();
    let t3 = db.add_new_task(new_task(work, "report")).unwrap();
    let s1 = db.add_new_subtask(new_subtask(t1, "step")).unwrap();
    let s2 = db.add_new_subtask(new_subtask(t2, "step")).unwrap();
    let s3 = db.add_new_subtask(new_subtask(t3, "step")).unwrap();
    let deleted = db.delete_project("Home".to_string()).unwrap();
    assert_eq!(deleted, home);
    // the project, both its tasks and both their subtasks are gone
    assert!(matches!(db.get_project_by_id(home), Err(DatabaseError::NotFound(_))));
    assert!(matches!(db.get_tasks_by_id(t1), Err(DatabaseError::NotFound(_))));
    assert!(matches!(db.get_tasks_by_id(t2), Err(DatabaseError::NotFound(_))));
    assert!(matches!(db.get_subtask_by_id(s1), Err(DatabaseError::NotFound(_))));
    assert!(matches!(db.get_subtask_by_id(s2), Err(DatabaseError::NotFound(_))));
    // only those rows: the other project and its subtree are untouched
    assert!(db.get_project_by_id(work).is_ok());
    assert!(db.get_tasks_by_id(t3).is_ok());
    assert!(db.get_subtask_by_id(s3).is_ok());
    assert!(matches!(
        db.delete_project("Home".to_string()),
        Err(DatabaseError::NotFound(_))
    ));
}

#[test]
fn subtask_operations_are_scoped_to_the_owning_task() {
    let mut db = Database::new();
    let pid = db.create_project(new_project("Home")).unwrap();
    let t1 = db.add_new_task(new_task(pid, "chore")).unwrap();
    let t2 = db.add_new_task(new_task(pid, "errand")).unwrap();
    assert!(matches!(
        db.add_new_subtask(new_subtask(99, "step")),
        Err(DatabaseError::NotFound(_))
    ));
    let s1 = db.add_new_subtask(new_subtask(t1, "step")).unwrap();
    // the same name under another task is fine
    let s2 = db.add_new_subtask(new_subtask(t2, "step")).unwrap();
    assert_ne!(s1, s2);
    assert!(matches!(
        db.add_new_subtask(new_subtask(t1, "step")),
        Err(DatabaseError::AlreadyExists(_))
    ));
    // renaming checks the target's task only
    assert!(matches!(
        db.update_subtask(t1, s1, "step".to_string()),
        Err(DatabaseError::AlreadyExists(_))
    ));
    let renamed = db.update_subtask(t1, s1, "first step".to_string()).unwrap();
    assert_eq!(renamed, s1);
    assert_eq!(db.get_subtask_by_id(s1).unwrap().name, "first step");
    // a lookup under the wrong task fails
    assert!(matches!(
        db.update_subtask(t2, s1, "x".to_string()),
        Err(DatabaseError::NotFound(_))
    ));
    // completion state
    let done = db.update_subtask_status(true, s1, t1).unwrap();
    assert_eq!(done, s1);
    assert!(db.get_subtask_by_id(s1).unwrap().completed);
    // direct delete with no cascade
    let gone = db.delete_subtask(s1, t1).unwrap();
    assert_eq!(gone, s1);
    assert!(matches!(db.get_subtask_by_id(s1), Err(DatabaseError::NotFound(_))));
    assert!(db.get_subtask_by_id(s2).is_ok());
}

#[test]
fn get_all_tasks_returns_store_order() {
    let mut db = Database::new();
    let pid = db.create_project(new_project("Home")).unwrap();
    db.add_new_task(new_task(pid, "one")).unwrap();
    db.add_new_task(new_task(pid, "two")).unwrap();
    let all = db.get_all_tasks(pid).unwrap();
    assert_eq!(all.len(), 2);
    assert_eq!(all[0].name, "one");
    assert_eq!(all[1].name, "two");
    assert_eq!(db.get_all_tasks(42).unwrap().len(), 0);
}

#[test]
fn first_task_by_name_wins_across_projects() {
    let mut db = Database::new();
    let home = db.create_project(new_project("Home")).unwrap();
    let work = db.create_project(new_project("Work")).unwrap();
    let t1 = db.add_new_task(new_task(home, "shared")).unwrap();
    let t2 = db.add_new_task(new_task(work, "shared")).unwrap();
    let found = db.get_tasks_by_name("shared".to_string()).unwrap();
    assert_eq!(found.id, t1);
    // status change by name hits the first match only
    db.update_task_status("shared".to_string(), true).unwrap();
    assert!(db.get_tasks_by_id(t1).unwrap().completed);
    assert!(!db.get_tasks_by_id(t2).unwrap().completed);
}

#[test]
fn rows_from_a_persisted_copy_are_validated() {
    let projects = vec![
        Project { id: 1, name: "Home".to_string(), created_on: 100 },
        Project { id: 4, name: "Work".to_string(), created_on: 101 },
    ];
    let tasks = vec![Task {
        id: 2,
        project_id: 4,
        name: "report".to_string(),
        completed: false,
        created_on: 102,
    }];
    let subtasks = vec![SubTask {
        id: 9,
        task_id: 2,
        name: "draft".to_string(),
        completed: true,
        created_on: 103,
    }];
    let thoughts: Vec<Thoughts> = Vec::new();
    let mut db = Database::from_rows(projects, tasks, subtasks, thoughts).unwrap();
    // lookups see the loaded rows unchanged
    assert_eq!(db.get_project_by_name("Work".to_string()).unwrap().id, 4);
    assert_eq!(db.get_subtask_by_id(9).unwrap().name, "draft");
    // new identifiers resume above the largest loaded one
    assert_eq!(db.create_project(new_project("Errands")).unwrap(), 5);
    assert_eq!(db.add_new_task(new_task(4, "file")).unwrap(), 3);
}

#[test]
fn corrupt_rows_are_refused() {
    let dup_ids = vec![
        Project { id: 1, name: "A".to_string(), created_on: 0 },
        Project { id: 1, name: "B".to_string(), created_on: 0 },
    ];
    let r = Database::from_rows(dup_ids, Vec::new(), Vec::new(), Vec::<Thoughts>::new());
    assert!(matches!(r, Err(DatabaseError::Unknown(_))));

    let orphan_task = vec![Task {
        id: 1,
        project_id: 7,
        name: "t".to_string(),
        completed: false,
        created_on: 0,
    }];
    let r = Database::from_rows(Vec::new(), orphan_task, Vec::new(), Vec::<Thoughts>::new());
    assert!(matches!(r, Err(DatabaseError::Unknown(_))));

    let p = vec![Project { id: 1, name: "A".to_string(), created_on: 0 }];
    let t = vec![Task { id: 1, project_id: 1, name: "t".to_string(), completed: false, created_on: 0 }];
    let orphan_subtask = vec![SubTask {
        id: 1,
        task_id: 9,
        name: "s".to_string(),
        completed: false,
        created_on: 0,
    }];
    let r = Database::from_rows(p, t, orphan_subtask, Vec::<Thoughts>::new());
    assert!(matches!(r, Err(DatabaseError::Unknown(_))));
}

#[test]
fn renaming_to_the_current_name_counts_as_a_collision() {
    let mut db = Database::new();
    db.create_project(new_project("Home")).unwrap();
    // the target itself already carries the requested name
    assert!(matches!(
        db.update_project("Home".to_string(), "Home".to_string()),
        Err(DatabaseError::AlreadyExists(_))
    ));
    let pid = db.get_project_by_name("Home".to_string()).unwrap().id;
    let tid = db.add_new_task(new_task(pid, "chore")).unwrap();
    assert!(matches!(
        db.update_task("chore".to_string(), "chore".to_string()),
        Err(DatabaseError::AlreadyExists(_))
    ));
    let sid = db.add_new_subtask(new_subtask(tid, "s")).unwrap();
    assert!(matches!(
        db.update_subtask(tid, sid, "s".to_string()),
        Err(DatabaseError::AlreadyExists(_))
    ));
}

#[test]
fn rows_at_the_identifier_ceiling_are_refused() {
    let p = vec![Project { id: i32::MAX, name: "A".to_string(), created_on: 0 }];
    let r = Database::from_rows(p, Vec::new(), Vec::new(), Vec::<Thoughts>::new());
    assert!(matches!(r, Err(DatabaseError::Unknown(_))));
    let p = vec![Project { id: 0, name: "A".to_string(), created_on: 0 }];
    let r = Database::from_rows(p, Vec::new(), Vec::new(), Vec::<Thoughts>::new());
    assert!(matches!(r, Err(DatabaseError::Unknown(_))));
}

#[test]
fn duplicate_names_in_loaded_rows_are_refused_per_scope() {
    let p = vec![
        Project { id: 1, name: "A".to_string(), created_on: 0 },
        Project { id: 2, name: "A".to_string(), created_on: 0 },
    ];
    let r = Database::from_rows(p, Vec::new(), Vec::new(), Vec::<Thoughts>::new());
    assert!(matches!(r, Err(DatabaseError::Unknown(_))));
    // the same task name in two different projects is legitimate
    let p = vec![
        Project { id: 1, name: "A".to_string(), created_on: 0 },
        Project { id: 2, name: "B".to_string(), created_on: 0 },
    ];
    let t = vec![
        Task { id: 1, project_id: 1, name: "x".to_string(), completed: false, created_on: 0 },
        Task { id: 2, project_id: 2, name: "x".to_string(), completed: false, created_on: 0 },
    ];
    assert!(Database::from_rows(p, t, Vec::new(), Vec::<Thoughts>::new()).is_ok());
}

#[test]
fn status_change_under_the_wrong_task_fails_not_found() {
    let mut db = Database::new();
    let pid = db.create_project(new_project("Home")).unwrap();
    let t1 = db.add_new_task(new_task(pid, "chore")).unwrap();
    let t2 = db.add_new_task(new_task(pid, "errand")).unwrap();
    let sid = db.add_new_subtask(new_subtask(t1, "step")).unwrap();
    assert!(matches!(
        db.update_subtask_status(true, sid, t2),
        Err(DatabaseError::NotFound(_))
    ));
    assert!(matches!(
        db.delete_subtask(sid, t2),
        Err(DatabaseError::NotFound(_))
    ));
    // the subtask is untouched
    let st = db.get_subtask_by_id(sid).unwrap();
    assert!(!st.completed);
}
