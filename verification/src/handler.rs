//! The command handler: dispatches a parsed command to the service and
//! renders the outcome as the success message the caller sees, or passes
//! the service error through unchanged.

use vstd::prelude::*;
use vstd::string::StringExecFns;

use crate::cli::{AddCommands, Cli, Commands};
use crate::errors::ServiceError;
use crate::operations::{
    has_project_named, has_task_in_project, project_created, project_id_by_name, store_wf,
    task_created, StoreModel,
};
use crate::svc::DoitService;
use crate::validate::is_blank;

verus! {

/// Dispatches parsed commands to the service it owns.
pub struct CommandHandler {
    service: DoitService,
}

impl View for CommandHandler {
    type V = StoreModel;

    closed spec fn view(&self) -> StoreModel {
        self.service@
    }
}

/// What handling a creation command guarantees: the store transition and
/// error taxonomy of the service call it dispatches to, and the exact text
/// of the success message.
pub open spec fn add_command_handled(
    pre: StoreModel,
    post: StoreModel,
    command: AddCommands,
    r: Result<String, ServiceError>,
) -> bool {
    match command {
        AddCommands::Project { project } => match r {
            Ok(msg) => {
                &&& msg@ == "Successfully created project '"@ + project@ + "'"@
                &&& !is_blank(project@)
                &&& !has_project_named(pre.projects, project@)
                &&& project_created(pre, post, project@, (pre.next_project_id) as i32)
            },
            Err(e) => post == pre && match e {
                ServiceError::InvalidInput(_) => is_blank(project@),
                ServiceError::Database(de) => {
                    &&& !is_blank(project@)
                    &&& de is AlreadyExists
                    &&& has_project_named(pre.projects, project@)
                },
                ServiceError::OperationFailed(_) => false,
            },
        },
        AddCommands::Task { project, task } => match r {
            Ok(msg) => {
                &&& msg@ == "Successfully added task '"@ + task@ + "' to project '"@ + project@
                    + "'"@
                &&& !is_blank(task@)
                &&& has_project_named(pre.projects, project@)
                &&& !has_task_in_project(
                    pre.tasks,
                    task@,
                    project_id_by_name(pre.projects, project@),
                )
                &&& task_created(
                    pre,
                    post,
                    project_id_by_name(pre.projects, project@),
                    task@,
                    false,
                    (pre.next_task_id) as i32,
                )
            },
            Err(e) => post == pre && match e {
                ServiceError::InvalidInput(_) => is_blank(task@),
                ServiceError::Database(de) => {
                    &&& !is_blank(task@)
                    &&& (de is NotFound <==> !has_project_named(pre.projects, project@))
                    &&& (de is AlreadyExists <==> has_project_named(pre.projects, project@)
                        && has_task_in_project(
                        pre.tasks,
                        task@,
                        project_id_by_name(pre.projects, project@),
                    ))
                    &&& (de is NotFound || de is AlreadyExists)
                },
                ServiceError::OperationFailed(_) => false,
            },
        },
        AddCommands::Point { .. } => {
            &&& post == pre
            &&& r matches Ok(msg) && msg@ == "Point command not implemented yet"@
        },
        AddCommands::Thought { .. } => {
            &&& post == pre
            &&& r matches Ok(msg) && msg@ == "Thought command not implemented yet"@
        },
    }
}

impl CommandHandler {
    /// The underlying store is well formed.
    pub open spec fn wf(self) -> bool {
        store_wf(self@)
    }

    /// Opens a handler over an empty store.
    pub fn new() -> (h: CommandHandler)
        ensures
            h.wf(),
            h@.projects.len() == 0,
            h@.tasks.len() == 0,
            h@.subtasks.len() == 0,
            h@.next_project_id == 1,
            h@.next_task_id == 1,
            h@.next_subtask_id == 1,
    {
        CommandHandler { service: DoitService::new() }
    }

    /// Opens a handler over an existing service.
    pub fn with_service(service: DoitService) -> (h: CommandHandler)
        ensures
            h@ == service@,
    {
        CommandHandler { service }
    }

    /// The service the handler dispatches to, for a caller that persists
    /// its store.
    pub fn service(&self) -> (r: &DoitService)
        ensures
            r@ == self@,
    {
        &self.service
    }

    /// Whether every table can still assign a fresh identifier. Handling a
    /// creation command requires headroom; a caller outside the verified
    /// library tests this before dispatching.
    pub fn has_capacity(&self) -> (r: bool)
        ensures
            r == (self@.next_project_id < i32::MAX && self@.next_task_id < i32::MAX
                && self@.next_subtask_id < i32::MAX),
    {
        self.service.has_capacity()
    }

    /// Handles a parsed command line: creation commands are dispatched to
    /// the service; the update command is a declared placeholder that
    /// leaves the store untouched.
    pub fn handle_command(&mut self, cli: Cli) -> (r: Result<String, ServiceError>)
        requires
            old(self).wf(),
            old(self)@.next_project_id < i32::MAX,
            old(self)@.next_task_id < i32::MAX,
        ensures
            final(self).wf(),
            match cli.command {
                Commands::Add { subcmd } => add_command_handled(
                    old(self)@,
                    final(self)@,
                    subcmd,
                    r,
                ),
                Commands::Update { .. } => {
                    &&& final(self)@ == old(self)@
                    &&& r matches Ok(msg) && msg@ == "Update command to be implemented"@
                },
            },
    {
        match cli.command {
            Commands::Add { subcmd } => self.handle_add_command(subcmd),
            Commands::Update {  } => Ok(String::from_str("Update command to be implemented")),
        }
    }

    /// Handles one creation command.
    fn handle_add_command(&mut self, command: AddCommands) -> (r: Result<String, ServiceError>)
        requires
            old(self).wf(),
            old(self)@.next_project_id < i32::MAX,
            old(self)@.next_task_id < i32::MAX,
        ensures
            final(self).wf(),
            add_command_handled(old(self)@, final(self)@, command, r),
    {
        match command {
            AddCommands::Project { project } => {
                match self.service.add_new_project(project.clone()) {
                    Ok(_) => Ok(
                        String::from_str("Successfully created project '").concat(
                            project.as_str(),
                        ).concat("'"),
                    ),
                    Err(e) => Err(e),
                }
            },
            AddCommands::Task { project, task } => {
                match self.service.add_task(project.clone(), task.clone()) {
                    Ok(_) => Ok(
                        String::from_str("Successfully added task '").concat(task.as_str()).concat(
                            "' to project '",
                        ).concat(project.as_str()).concat("'"),
                    ),
                    Err(e) => Err(e),
                }
            },
            AddCommands::Point { point: _ } => Ok(
                String::from_str("Point command not implemented yet"),
            ),
            AddCommands::Thought { thought: _ } => Ok(
                String::from_str("Thought command not implemented yet"),
            ),
        }
    }
}

} // verus!
