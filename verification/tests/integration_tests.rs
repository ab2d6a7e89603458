use tasklist::board::column_title;
use tasklist::cli::{Cli, Commands};
use tasklist::manager::{Listing, Mngr, StoreError, NO_TASKS_NOTICE};
use tasklist::task::Status;

fn store() -> Mngr {
    Mngr::new(".tasklist".to_string(), None)
}

fn add(content: &mut String, description: &str) {
    let result = store().add_task(content, description.to_string());
    assert!(result.is_ok(), "Command failed: {:?}", result);
}

#[test]
fn test_add_task_creates_metadata() {
    let mut content = String::new();
    let result = store().add_task(&mut content, "First task".to_string());
    assert!(result.is_ok(), "Command failed: {:?}", result);
    assert!(content.starts_with("#max_id=1"), "Content: {}", content);
    assert!(content.contains("First task"));
}

#[test]
fn test_add_multiple_tasks_increments_id() {
    let mut content = String::new();
    add(&mut content, "Task 1");
    add(&mut content, "Task 2");
    assert!(content.starts_with("#max_id=2"));
    assert!(content.contains("Task 1"));
    assert!(content.contains("Task 2"));
    let task_count = content.lines().filter(|l| !l.starts_with("#")).count();
    assert_eq!(task_count, 2);
}

#[test]
fn test_update_task_preserves_metadata() {
    let mut content = String::new();
    add(&mut content, "Original task");
    let result = store().update_task(&mut content, 1, Status::InProgress, None);
    assert!(result.is_ok());
    assert!(content.starts_with("#max_id=1"));
    assert!(content.contains("In Progress"));
}

#[test]
fn test_update_nonexistent_task_fails() {
    let mut content = String::new();
    add(&mut content, "Task 1");
    let before = content.clone();
    let result = store().update_task(&mut content, 999, Status::Done, None);
    assert!(!result.is_ok());
    let error = result.unwrap_err();
    assert_eq!(error, StoreError::NotFound(999));
    assert!(error.message().contains("Task with ID 999 not found"));
    assert_eq!(content, before);
}

#[test]
fn test_delete_task_preserves_metadata() {
    let mut content = String::new();
    add(&mut content, "Task 1");
    add(&mut content, "Task 2");
    let result = store().delete_task(&mut content, 1);
    assert!(result.is_ok());
    assert!(content.starts_with("#max_id=2"));
    assert!(!content.contains("Task 1"));
    assert!(content.contains("Task 2"));
}

#[test]
fn test_delete_nonexistent_task_fails() {
    let mut content = String::new();
    add(&mut content, "Task 1");
    let before = content.clone();
    let result = store().delete_task(&mut content, 999);
    assert!(!result.is_ok());
    let error = result.unwrap_err();
    assert_eq!(error, StoreError::NotFound(999));
    assert!(error.message().contains("Task with ID 999 not found"));
    assert_eq!(content, before);
}

#[test]
fn test_migration_from_old_format() {
    let mut content = String::from(
        "1\t🚀 Not Started\tOld task 1\t2025-01-01 10:00\n\
         2\t✅ Done\tOld task 2\t2025-01-01 11:00\n",
    );
    let result = store().add_task(&mut content, "New task after migration".to_string());
    assert!(result.is_ok());
    assert!(content.starts_with("#max_id=3"));
    assert!(content.contains("Old task 1"));
    assert!(content.contains("Old task 2"));
    assert!(content.contains("New task after migration"));
}

#[test]
fn test_list_tasks_skips_metadata() {
    let mut content = String::new();
    add(&mut content, "Task 1");
    add(&mut content, "Task 2");
    let listing = store().list_tasks(&content, false);
    match listing {
        Listing::Table(tasks) => {
            assert_eq!(tasks.len(), 2);
            assert!(tasks.iter().any(|t| t.description.contains("Task 1")));
            assert!(tasks.iter().any(|t| t.description.contains("Task 2")));
            assert!(!tasks.iter().any(|t| t.to_string().contains("#max_id")));
            assert!(!tasks.iter().any(|t| t.to_file_string().contains("#max_id")));
        }
        other => panic!("a table was expected: {:?}", other),
    }
}

#[test]
fn test_empty_tasklist_shows_message() {
    let content = String::from("#max_id=0\n");
    let listing = store().list_tasks(&content, false);
    assert!(matches!(listing, Listing::Empty));
    assert!(NO_TASKS_NOTICE.contains("No tasks found"));
}

#[test]
fn test_kanban_view_works() {
    let mut content = String::new();
    add(&mut content, "Todo task");
    add(&mut content, "In progress task");
    let updated = store().update_task(&mut content, 2, Status::InProgress, None);
    assert!(updated.is_ok());
    let listing = store().list_tasks(&content, true);
    match listing {
        Listing::Board(board) => {
            assert!(column_title(Status::NotStarted).contains("NOT STARTED"));
            assert!(column_title(Status::InProgress).contains("IN PROGRESS"));
            assert!(column_title(Status::Done).contains("DONE"));
            assert_eq!(board.not_started.len(), 1);
            assert_eq!(board.in_progress.len(), 1);
            assert_eq!(board.done.len(), 0);
            assert_eq!(board.not_started[0].text, "[1] Todo task");
            assert_eq!(board.in_progress[0].text, "[2] In progress task");
        }
        other => panic!("a board was expected: {:?}", other),
    }
}

#[test]
fn test_verbose_flag_shows_file_path() {
    let mut content = String::new();
    add(&mut content, "Test task");
    let cli = Cli {
        file: Some(".tasklist".to_string()),
        verbose: true,
        kanban: false,
        command: Some(Commands::Show { kanban: false }),
    };
    let note = cli.verbose_note("/tmp/project/.tasklist");
    assert!(note.is_some());
    let stderr = note.unwrap();
    assert!(stderr.contains("Using tasklist file:"));
    assert!(stderr.contains(".tasklist"));
    let quiet = Cli { file: None, verbose: false, kanban: false, command: None };
    assert!(quiet.verbose_note("/tmp/project/.tasklist").is_none());
}

#[test]
fn test_default_command_shows_tasks() {
    let mut content = String::new();
    add(&mut content, "Test task");
    let cli = Cli { file: Some(".tasklist".to_string()), verbose: false, kanban: false, command: None };
    let mngr = Mngr::new(cli.tasklist_file(), Some("project".to_string()));
    let command = cli.resolve();
    match command {
        Commands::Show { kanban } => {
            assert!(!kanban);
            let listing = mngr.list_tasks(&content, kanban);
            match listing {
                Listing::Table(tasks) => {
                    assert!(tasks[0].description.contains("Test task"));
                }
                other => panic!("a table was expected: {:?}", other),
            }
            assert!(mngr.heading().contains("Project:"));
            assert_eq!(mngr.heading(), "Project: project");
        }
        other => panic!("show was expected: {:?}", other),
    }
}

#[test]
fn test_global_kanban_flag() {
    let mut content = String::new();
    add(&mut content, "Task 1");
    add(&mut content, "Task 2");
    let cli = Cli { file: Some(".tasklist".to_string()), verbose: false, kanban: true, command: None };
    let command = cli.resolve();
    match command {
        Commands::Show { kanban } => {
            assert!(kanban);
            match store().list_tasks(&content, kanban) {
                Listing::Board(board) => {
                    assert!(column_title(Status::NotStarted).contains("NOT STARTED"));
                    assert!(column_title(Status::InProgress).contains("IN PROGRESS"));
                    assert!(column_title(Status::Done).contains("DONE"));
                    assert!(board.not_started.iter().any(|c| c.text.contains("Task 1")));
                }
                other => panic!("a board was expected: {:?}", other),
            }
        }
        other => panic!("show was expected: {:?}", other),
    }
}

#[test]
fn test_kanban_shows_dates() {
    let mut content = String::new();
    add(&mut content, "Task with date");
    match store().list_tasks(&content, true) {
        Listing::Board(board) => {
            assert_eq!(board.not_started.len(), 1);
            assert!(board.not_started[0].date.contains("20"));
            assert!(board.not_started[0].text.contains("Task with date"));
        }
        other => panic!("a board was expected: {:?}", other),
    }
}

#[test]
fn test_atomic_write_prevents_corruption() {
    let mut content = String::new();
    for i in 1..=5 {
        let result = store().add_task(&mut content, format!("Task {}", i));
        assert!(result.is_ok());
    }
    assert!(content.starts_with("#max_id=5"));
    for i in 1..=5 {
        assert!(content.contains(&format!("Task {}", i)));
    }
    assert_eq!(content.lines().count(), 6);
}
