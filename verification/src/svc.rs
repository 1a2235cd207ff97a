//! The service layer: validates caller intent (names must not be blank),
//! resolves human-readable names to store identifiers, and presents the
//! caller-facing error domain. A storage `NotFound` that answers a
//! name-resolution step made on behalf of the caller is remapped to
//! `InvalidInput` — a missing parent named by the caller is the caller's
//! mistake, not a system malfunction — while identifier-based lookups and
//! all other storage errors pass through unchanged.

use vstd::prelude::*;
use vstd::string::StringExecFns;

use crate::errors::ServiceError;
use crate::models::{NewProject, NewSubTask, NewTask, Task};
use crate::operations::{
    has_project_named, has_subtask_in_task, has_task_in_project, project_created,
    project_id_by_name, store_wf, subtask_created, task_created, task_id_by_name_in_project,
    Database, StoreModel,
};
use crate::validate::{is_blank, is_blank_str};

verus! {

/// The service. It owns the repository for the lifetime of the process.
pub struct DoitService {
    db: Database,
}

impl View for DoitService {
    type V = StoreModel;

    closed spec fn view(&self) -> StoreModel {
        self.db@
    }
}

impl DoitService {
    /// The underlying store is well formed.
    pub open spec fn wf(self) -> bool {
        store_wf(self@)
    }

    /// Opens a service over an empty store.
    pub fn new() -> (s: DoitService)
        ensures
            s.wf(),
            s@.projects.len() == 0,
            s@.tasks.len() == 0,
            s@.subtasks.len() == 0,
            s@.thoughts.len() == 0,
            s@.next_project_id == 1,
            s@.next_task_id == 1,
            s@.next_subtask_id == 1,
    {
        DoitService { db: Database::new() }
    }

    /// Opens a service over an existing store, as read back from a
    /// persisted copy.
    pub fn with_database(db: Database) -> (s: DoitService)
        ensures
            s@ == db@,
    {
        DoitService { db }
    }

    /// The store the service works on, for a caller that persists it.
    pub fn database(&self) -> (r: &Database)
        ensures
            r@ == self@,
    {
        &self.db
    }

    /// Whether every table can still assign a fresh identifier.
    pub fn has_capacity(&self) -> (r: bool)
        ensures
            r == (self@.next_project_id < i32::MAX && self@.next_task_id < i32::MAX
                && self@.next_subtask_id < i32::MAX),
    {
        self.db.has_capacity()
    }

    /// Creates a project under the given name. A blank name is rejected as
    /// `InvalidInput` before the store is touched; a name collision surfaces
    /// as the storage error, passed through unchanged.
    pub fn add_new_project(&mut self, project_name: String) -> (r: Result<i32, ServiceError>)
        requires
            old(self).wf(),
            old(self)@.next_project_id < i32::MAX,
        ensures
            final(self).wf(),
            match r {
                Ok(pid) => {
                    &&& !is_blank(project_name@)
                    &&& !has_project_named(old(self)@.projects, project_name@)
                    &&& project_created(old(self)@, final(self)@, project_name@, pid)
                },
                Err(e) => final(self)@ == old(self)@ && match e {
                    ServiceError::InvalidInput(_) => is_blank(project_name@),
                    ServiceError::Database(de) => {
                        &&& !is_blank(project_name@)
                        &&& de is AlreadyExists
                        &&& has_project_named(old(self)@.projects, project_name@)
                    },
                    ServiceError::OperationFailed(_) => false,
                },
            },
    {
        if is_blank_str(project_name.as_str()) {
            return Err(
                ServiceError::InvalidInput(String::from_str("Project name cannot be empty")),
            );
        }
        match self.db.create_project(NewProject { name: project_name }) {
            Ok(pid) => Ok(pid),
            Err(e) => Err(ServiceError::Database(e)),
        }
    }

    /// Creates a task under the project carrying the given name. A blank
    /// task name is rejected as `InvalidInput`; a missing project surfaces
    /// as the storage `NotFound`, passed through unchanged; a task-name
    /// collision within the project surfaces as the storage error.
    pub fn add_task(&mut self, project_name: String, task_name: String) -> (r: Result<
        i32,
        ServiceError,
    >)
        requires
            old(self).wf(),
            old(self)@.next_task_id < i32::MAX,
        ensures
            final(self).wf(),
            match r {
                Ok(tid) => {
                    &&& !is_blank(task_name@)
                    &&& has_project_named(old(self)@.projects, project_name@)
                    &&& !has_task_in_project(
                        old(self)@.tasks,
                        task_name@,
                        project_id_by_name(old(self)@.projects, project_name@),
                    )
                    &&& task_created(
                        old(self)@,
                        final(self)@,
                        project_id_by_name(old(self)@.projects, project_name@),
                        task_name@,
                        false,
                        tid,
                    )
                },
                Err(e) => final(self)@ == old(self)@ && match e {
                    ServiceError::InvalidInput(_) => is_blank(task_name@),
                    ServiceError::Database(de) => {
                        &&& !is_blank(task_name@)
                        &&& (de is NotFound <==> !has_project_named(
                            old(self)@.projects,
                            project_name@,
                        ))
                        &&& (de is AlreadyExists <==> has_project_named(
                            old(self)@.projects,
                            project_name@,
                        ) && has_task_in_project(
                            old(self)@.tasks,
                            task_name@,
                            project_id_by_name(old(self)@.projects, project_name@),
                        ))
                        &&& (de is NotFound || de is AlreadyExists)
                    },
                    ServiceError::OperationFailed(_) => false,
                },
            },
    {
        if is_blank_str(task_name.as_str()) {
            return Err(ServiceError::InvalidInput(String::from_str("Task name cannot be empty")));
        }
        let project = match self.db.get_project_by_name(project_name) {
            Ok(p) => p,
            Err(e) => {
                return Err(ServiceError::Database(e));
            },
        };
        proof {
            let k = choose|k: int|
                0 <= k < self@.projects.len() && self@.projects[k] == project;
            assert(self@.projects[k].id == project.id);
        }
        match self.db.add_new_task(
            NewTask { project_id: project.id, name: task_name, completed: false },
        ) {
            Ok(tid) => Ok(tid),
            Err(e) => Err(ServiceError::Database(e)),
        }
    }

    /// Creates a subtask under the task carrying the given name within the
    /// project carrying the given name. A blank subtask name is rejected as
    /// `InvalidInput`; a missing project or task — both resolved from
    /// caller-supplied names — is remapped from the storage `NotFound` to
    /// `InvalidInput`; a subtask-name collision surfaces as the storage
    /// error.
    pub fn add_subtask(
        &mut self,
        project_name: String,
        task_name: String,
        subtask_name: String,
    ) -> (r: Result<i32, ServiceError>)
        requires
            old(self).wf(),
            old(self)@.next_subtask_id < i32::MAX,
        ensures
            final(self).wf(),
            match r {
                Ok(sid) => {
                    &&& !is_blank(subtask_name@)
                    &&& has_project_named(old(self)@.projects, project_name@)
                    &&& has_task_in_project(
                        old(self)@.tasks,
                        task_name@,
                        project_id_by_name(old(self)@.projects, project_name@),
                    )
                    &&& !has_subtask_in_task(
                        old(self)@.subtasks,
                        subtask_name@,
                        task_id_by_name_in_project(
                            old(self)@.tasks,
                            task_name@,
                            project_id_by_name(old(self)@.projects, project_name@),
                        ),
                    )
                    &&& subtask_created(
                        old(self)@,
                        final(self)@,
                        task_id_by_name_in_project(
                            old(self)@.tasks,
                            task_name@,
                            project_id_by_name(old(self)@.projects, project_name@),
                        ),
                        subtask_name@,
                        false,
                        sid,
                    )
                },
                Err(e) => final(self)@ == old(self)@ && match e {
                    ServiceError::InvalidInput(_) => is_blank(subtask_name@) || !has_project_named(
                        old(self)@.projects,
                        project_name@,
                    ) || !has_task_in_project(
                        old(self)@.tasks,
                        task_name@,
                        project_id_by_name(old(self)@.projects, project_name@),
                    ),
                    ServiceError::Database(de) => {
                        &&& !is_blank(subtask_name@)
                        &&& has_project_named(old(self)@.projects, project_name@)
                        &&& has_task_in_project(
                            old(self)@.tasks,
                            task_name@,
                            project_id_by_name(old(self)@.projects, project_name@),
                        )
                        &&& de is AlreadyExists
                        &&& has_subtask_in_task(
                            old(self)@.subtasks,
                            subtask_name@,
                            task_id_by_name_in_project(
                                old(self)@.tasks,
                                task_name@,
                                project_id_by_name(old(self)@.projects, project_name@),
                            ),
                        )
                    },
                    ServiceError::OperationFailed(_) => false,
                },
            },
    {
        if is_blank_str(subtask_name.as_str()) {
            return Err(
                ServiceError::InvalidInput(String::from_str("Subtask name cannot be empty")),
            );
        }
        let project = match self.db.get_project_by_name(project_name.clone()) {
            Ok(p) => p,
            Err(e) => {
                return if matches!(e, crate::errors::DatabaseError::NotFound(_)) {
                    Err(
                        ServiceError::InvalidInput(
                            String::from_str("Project '").concat(project_name.as_str()).concat(
                                "' does not exist",
                            ),
                        ),
                    )
                } else {
                    Err(ServiceError::Database(e))
                };
            },
        };
        let task = match self.db.get_task_by_name_and_project_id(task_name.clone(), project.id) {
            Ok(t) => t,
            Err(e) => {
                return if matches!(e, crate::errors::DatabaseError::NotFound(_)) {
                    Err(
                        ServiceError::InvalidInput(
                            String::from_str("Task '").concat(task_name.as_str()).concat(
                                "' does not exist in project '",
                            ).concat(project_name.as_str()).concat("'"),
                        ),
                    )
                } else {
                    Err(ServiceError::Database(e))
                };
            },
        };
        proof {
            let k = choose|k: int| 0 <= k < self@.tasks.len() && self@.tasks[k] == task;
            assert(self@.tasks[k].id == task.id);
        }
        match self.db.add_new_subtask(
            NewSubTask { task_id: task.id, name: subtask_name, completed: false },
        ) {
            Ok(sid) => Ok(sid),
            Err(e) => Err(ServiceError::Database(e)),
        }
    }

    /// Reads every task of the project carrying the given name, in store
    /// order. A missing project — resolved from a caller-supplied name — is
    /// remapped from the storage `NotFound` to `InvalidInput`.
    pub fn get_all_tasks(&self, project_name: String) -> (r: Result<Vec<Task>, ServiceError>)
        requires
            self.wf(),
        ensures
            match r {
                Ok(v) => {
                    &&& has_project_named(self@.projects, project_name@)
                    &&& v@ == self@.tasks.filter(
                        (|t: Task|
                            t.project_id == project_id_by_name(self@.projects, project_name@)),
                    )
                },
                Err(e) => e is InvalidInput && !has_project_named(self@.projects, project_name@),
            },
    {
        let project = match self.db.get_project_by_name(project_name.clone()) {
            Ok(p) => p,
            Err(e) => {
                return if matches!(e, crate::errors::DatabaseError::NotFound(_)) {
                    Err(
                        ServiceError::InvalidInput(
                            String::from_str("Project '").concat(project_name.as_str()).concat(
                                "' does not exist",
                            ),
                        ),
                    )
                } else {
                    Err(ServiceError::Database(e))
                };
            },
        };
        let pid = project.id;
        match self.db.get_all_tasks(pid) {
            Ok(v) => {
                proof {
                    assert((|t: Task| t.project_id == pid) =~= (|t: Task|
                        t.project_id == project_id_by_name(self@.projects, project_name@)));
                }
                Ok(v)
            },
            Err(e) => Err(ServiceError::Database(e)),
        }
    }
}

} // verus!
