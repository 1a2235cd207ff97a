//! Command handling and error rendering.

use doit::cli::{AddCommands, Cli, Commands};
use doit::errors::{DatabaseError, ServiceError};
use doit::validate::is_blank_str;
use doit::handler::CommandHandler;

#[test]
fn handler_creates_a_project_and_reports_it() {
    let mut h = CommandHandler::new();
    let cli = Cli {
        command: Commands::Add {
            subcmd: AddCommands::Project { project: "Home".to_string() },
        },
    };
    let msg = h.handle_command(cli).unwrap();
    assert_eq!(msg, "Successfully created project 'Home'");
}

#[test]
fn handler_adds_a_task_and_reports_it() {
    let mut h = CommandHandler::new();
    h.handle_command(Cli {
        command: Commands::Add {
            subcmd: AddCommands::Project { project: "Home".to_string() },
        },
    })
    .unwrap();
    let msg = h
        .handle_command(Cli {
            command: Commands::Add {
                subcmd: AddCommands::Task {
                    project: "Home".to_string(),
                    task: "Buy milk".to_string(),
                },
            },
        })
        .unwrap();
    assert_eq!(msg, "Successfully added task 'Buy milk' to project 'Home'");
}

#[test]
fn handler_reports_duplicate_project() {
    let mut h = CommandHandler::new();
    let add = |name: &str| Cli {
        command: Commands::Add {
            subcmd: AddCommands::Project { project: name.to_string() },
        },
    };
    h.handle_command(add("Home")).unwrap();
    let err = h.handle_command(add("Home")).unwrap_err();
    assert!(matches!(
        err,
        ServiceError::Database(DatabaseError::AlreadyExists(_))
    ));
}

#[test]
fn handler_placeholders_answer_without_touching_the_store() {
    let mut h = CommandHandler::new();
    let point = h
        .handle_command(Cli {
            command: Commands::Add {
                subcmd: AddCommands::Point { point: "p".to_string() },
            },
        })
        .unwrap();
    assert_eq!(point, "Point command not implemented yet");
    let thought = h
        .handle_command(Cli {
            command: Commands::Add {
                subcmd: AddCommands::Thought { thought: "t".to_string() },
            },
        })
        .unwrap();
    assert_eq!(thought, "Thought command not implemented yet");
    let update = h.handle_command(Cli { command: Commands::Update {} }).unwrap();
    assert_eq!(update, "Update command to be implemented");
}

#[test]
fn database_errors_render_their_kind_and_detail() {
    let e = DatabaseError::NotFound("Project 'X' not found".to_string());
    assert_eq!(e.message(), "Entity not found: Project 'X' not found");
    let e = DatabaseError::AlreadyExists("Task".to_string());
    assert_eq!(e.message(), "Entity already exists: Task");
    let e = DatabaseError::ConnectionError("refused".to_string());
    assert_eq!(e.message(), "Database connection error: refused");
    let e = DatabaseError::TransactionError("rollback".to_string());
    assert_eq!(e.message(), "Database transaction error: rollback");
    let e = DatabaseError::Unknown("boom".to_string());
    assert_eq!(e.message(), "Unknown database error: boom");
}

#[test]
fn service_errors_render_and_expose_their_source() {
    let e = ServiceError::InvalidInput("Project name cannot be empty".to_string());
    assert_eq!(e.message(), "Invalid input: Project name cannot be empty");
    assert!(e.source().is_none());
    let e = ServiceError::OperationFailed("nope".to_string());
    assert_eq!(e.message(), "Operation failed: nope");
    assert!(e.source().is_none());
    let e = ServiceError::from(DatabaseError::NotFound("Entity".to_string()));
    assert_eq!(e.message(), "Database error: Entity not found: Entity");
    assert!(matches!(e.source(), Some(DatabaseError::NotFound(_))));
}

#[test]
fn real_error_messages_name_the_lookup_key() {
    let mut h = CommandHandler::new();
    let err = h
        .handle_command(Cli {
            command: Commands::Add {
                subcmd: AddCommands::Task {
                    project: "Nowhere".to_string(),
                    task: "x".to_string(),
                },
            },
        })
        .unwrap_err();
    match err {
        ServiceError::Database(DatabaseError::NotFound(detail)) => {
            assert_eq!(detail, "Project 'Nowhere' not found");
        },
        other => panic!("expected NotFound, got {:?}", other),
    }
}

#[test]
fn blank_project_name_is_rejected_at_the_handler() {
    let mut h = CommandHandler::new();
    let err = h
        .handle_command(Cli {
            command: Commands::Add {
                subcmd: AddCommands::Project { project: "   ".to_string() },
            },
        })
        .unwrap_err();
    match err {
        ServiceError::InvalidInput(m) => assert_eq!(m, "Project name cannot be empty"),
        other => panic!("expected InvalidInput, got {:?}", other),
    }
}

#[test]
fn blank_check_spans_unicode_whitespace() {
    assert!(is_blank_str(""));
    assert!(is_blank_str("   "));
    assert!(is_blank_str(" \t\r\n\u{a0}\u{2003}\u{3000}"));
    assert!(!is_blank_str(" a "));
    assert!(!is_blank_str("Inbox"));
}
