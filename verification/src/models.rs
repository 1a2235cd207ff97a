//! The entity model: plain records for projects, tasks, subtasks and
//! thoughts, each in two shapes — a "new" shape holding the fields a caller
//! may set before an identifier exists, and a persisted shape that adds the
//! store-assigned identifier and creation time (seconds since the Unix epoch).

use vstd::prelude::*;

verus! {

/// A persisted project. Its name is unique across all projects.
#[derive(Debug)]
pub struct Project {
    pub id: i32,
    pub name: String,
    pub created_on: i64,
}

/// The fields a caller supplies to create a project.
#[derive(Debug)]
pub struct NewProject {
    pub name: String,
}

/// A persisted task, owned by exactly one project. Its name is unique
/// within its project.
#[derive(Debug)]
pub struct Task {
    pub id: i32,
    pub project_id: i32,
    pub name: String,
    pub completed: bool,
    pub created_on: i64,
}

/// The fields a caller supplies to create a task.
#[derive(Debug)]
pub struct NewTask {
    pub project_id: i32,
    pub name: String,
    pub completed: bool,
}

/// A persisted subtask, owned by exactly one task. Its name is unique
/// within its task.
#[derive(Debug)]
pub struct SubTask {
    pub id: i32,
    pub task_id: i32,
    pub name: String,
    pub completed: bool,
    pub created_on: i64,
}

/// The fields a caller supplies to create a subtask.
#[derive(Debug)]
pub struct NewSubTask {
    pub task_id: i32,
    pub name: String,
    pub completed: bool,
}

/// A persisted thought: a flat log entry unrelated to the hierarchy.
/// The creation flow for thoughts is a declared placeholder and is not
/// wired to any operation.
#[derive(Debug)]
pub struct Thoughts {
    pub id: i32,
    pub heading: String,
    pub note: String,
    pub created_on: i64,
}

/// The fields a caller would supply to create a thought (placeholder).
#[derive(Debug)]
pub struct NewThought {
    pub heading: String,
    pub note: String,
}

impl Clone for Project {
    fn clone(&self) -> (r: Self)
        ensures
            r == *self,
    {
        Project { id: self.id, name: self.name.clone(), created_on: self.created_on }
    }
}

impl Clone for Task {
    fn clone(&self) -> (r: Self)
        ensures
            r == *self,
    {
        Task {
            id: self.id,
            project_id: self.project_id,
            name: self.name.clone(),
            completed: self.completed,
            created_on: self.created_on,
        }
    }
}

impl Clone for SubTask {
    fn clone(&self) -> (r: Self)
        ensures
            r == *self,
    {
        SubTask {
            id: self.id,
            task_id: self.task_id,
            name: self.name.clone(),
            completed: self.completed,
            created_on: self.created_on,
        }
    }
}

impl Clone for Thoughts {
    fn clone(&self) -> (r: Self)
        ensures
            r == *self,
    {
        Thoughts {
            id: self.id,
            heading: self.heading.clone(),
            note: self.note.clone(),
            created_on: self.created_on,
        }
    }
}

} // verus!
