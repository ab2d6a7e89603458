use tasklist::manager::{Listing, Mngr, StoreError};
use tasklist::task::{Status, Task};

const DATE: &str = "2025-01-01 10:00";

fn store() -> Mngr {
    Mngr::new("/tmp/project/.tasklist".to_string(), Some("project".to_string()))
}

fn add_at(content: &mut String, description: &str) -> Task {
    store().add_task_at(content, description.to_string(), DATE.to_string()).unwrap()
}

fn ids(content: &str) -> Vec<i32> {
    store().get_tasks(content).iter().map(|t| t.id).collect()
}

#[test]
fn the_store_keeps_its_path_and_title() {
    let mngr = store();
    assert_eq!(mngr.tasklist_path(), "/tmp/project/.tasklist");
    assert_eq!(mngr.title(), &Some("project".to_string()));
    assert_eq!(mngr.heading(), "Project: project");
    let bare = Mngr::new(".tasklist".to_string(), None);
    assert_eq!(bare.title(), &None);
    assert_eq!(bare.heading(), "Project: My Tasks");
}

#[test]
fn first_add_on_an_empty_store() {
    let mut content = String::new();
    let task = add_at(&mut content, "First task");
    assert_eq!(content, "#max_id=1\n1\t🚀 Not Started\tFirst task\t2025-01-01 10:00\n");
    assert_eq!(task.id, 1);
    assert_eq!(task.status, Status::NotStarted);
    assert_eq!(task.status.as_label(), "🚀 Not Started");
    assert_eq!(task.description, "First task");
    assert_eq!(task.date, DATE);
}

#[test]
fn delete_then_add_does_not_reuse_the_id() {
    let mut content = String::new();
    add_at(&mut content, "Task 1");
    add_at(&mut content, "Task 2");
    assert_eq!(ids(&content), vec![1, 2]);
    assert_eq!(store().delete_task(&mut content, 1), Ok(()));
    let task = add_at(&mut content, "Task 3");
    assert_eq!(task.id, 3);
    assert_eq!(ids(&content), vec![2, 3]);
    assert!(content.starts_with("#max_id=3\n"));
    assert_eq!(
        content,
        "#max_id=3\n2\t🚀 Not Started\tTask 2\t2025-01-01 10:00\n3\t🚀 Not Started\tTask 3\t2025-01-01 10:00\n"
    );
}

#[test]
fn add_then_list_has_exactly_one_new_record() {
    let mut content = String::from("#max_id=7\n2\t✅ Done\tb\td2\n5\t⏳ In Progress\te\td5\n");
    let before = store().get_tasks(&content);
    let task = add_at(&mut content, "new one");
    let after = store().get_tasks(&content);
    assert_eq!(task.id, 8);
    assert_eq!(after.len(), before.len() + 1);
    assert_eq!(&after[..before.len()], &before[..]);
    assert_eq!(after[before.len()], task);
    assert_eq!(store().max_id(&content), 8);
}

#[test]
fn an_empty_description_is_refused() {
    let mut content = String::from("#max_id=2\n1\t✅ Done\ta\td\n");
    let before = content.clone();
    let result = store().add_task_at(&mut content, String::new(), DATE.to_string());
    assert_eq!(result, Err(StoreError::InvalidInput));
    assert_eq!(content, before);
    assert_eq!(store().add_task(&mut content, String::new()), Err(StoreError::InvalidInput));
    assert_eq!(content, before);
    assert_eq!(StoreError::InvalidInput.message(), "Task description cannot be empty");
}

#[test]
fn error_messages_name_the_id() {
    assert_eq!(StoreError::NotFound(999).message(), "Task with ID 999 not found");
    assert_eq!(StoreError::NotFound(-4).message(), "Task with ID -4 not found");
}

#[test]
fn add_stamps_the_present_time() {
    let mut content = String::new();
    let task = store().add_task(&mut content, "now".to_string()).unwrap();
    let stamp: Vec<char> = task.date.chars().collect();
    assert!(stamp.len() >= 16);
    assert!(stamp.iter().all(|c| c.is_ascii_digit() || "-+ :".contains(*c)));
    let n = stamp.len();
    assert_eq!(stamp[n - 3], ':');
    assert_eq!(stamp[n - 6], ' ');
    assert_eq!(stamp[n - 9], '-');
    assert_eq!(stamp[n - 12], '-');
    assert!(content.ends_with(&format!("1\t🚀 Not Started\tnow\t{}\n", task.date)));
    assert_eq!(store().get_tasks(&content), vec![task]);
}

#[test]
fn update_changes_status_and_timestamp() {
    let mut content = String::from("#max_id=2\n1\t🚀 Not Started\tfirst\told\n2\t✅ Done\tsecond\told\n");
    let changed = store()
        .update_task_at(&mut content, 1, Status::InProgress, None, DATE.to_string())
        .unwrap();
    assert_eq!(
        changed,
        vec![Task::new(1, Status::InProgress, "first".to_string(), DATE.to_string())]
    );
    assert_eq!(
        content,
        "#max_id=2\n1\t⏳ In Progress\tfirst\t2025-01-01 10:00\n2\t✅ Done\tsecond\told\n"
    );
}

#[test]
fn update_replaces_the_description_where_one_is_given() {
    let mut content = String::from("#max_id=2\n1\t🚀 Not Started\tfirst\told\n");
    let changed = store()
        .update_task_at(
            &mut content,
            1,
            Status::Done,
            Some("rewritten".to_string()),
            DATE.to_string(),
        )
        .unwrap();
    assert_eq!(changed.len(), 1);
    assert_eq!(changed[0].description, "rewritten");
    assert_eq!(content, "#max_id=2\n1\t✅ Done\trewritten\t2025-01-01 10:00\n");
}

#[test]
fn update_stamps_the_present_time() {
    let mut content = String::from("#max_id=1\n1\t🚀 Not Started\tfirst\told\n");
    let changed = store().update_task(&mut content, 1, Status::Done, None).unwrap();
    assert_eq!(changed.len(), 1);
    assert_ne!(changed[0].date, "old");
    assert!(changed[0].date.chars().all(|c| c.is_ascii_digit() || "-+ :".contains(c)));
    assert_eq!(content, format!("#max_id=1\n1\t✅ Done\tfirst\t{}\n", changed[0].date));
}

#[test]
fn update_of_an_unknown_id_changes_nothing() {
    let before = "#max_id=9\n\n# note\n1\t✅ Done\ta\td\njunk line\n";
    let mut content = String::from(before);
    let result =
        store().update_task_at(&mut content, 2, Status::Done, None, DATE.to_string());
    assert_eq!(result, Err(StoreError::NotFound(2)));
    assert_eq!(content, before);
}

#[test]
fn delete_of_an_unknown_id_changes_nothing() {
    let before = "1\t✅ Done\ta\td\r\n7\n";
    let mut content = String::from(before);
    assert_eq!(store().delete_task(&mut content, 7), Err(StoreError::NotFound(7)));
    assert_eq!(content, before);
}

#[test]
fn delete_keeps_the_highest_id() {
    let mut content = String::from("#max_id=5\n4\t✅ Done\ta\td\n5\t✅ Done\tb\td\n");
    assert_eq!(store().delete_task(&mut content, 5), Ok(()));
    assert_eq!(content, "#max_id=5\n4\t✅ Done\ta\td\n");
    assert_eq!(store().max_id(&content), 5);
    assert_eq!(store().delete_task(&mut content, 4), Ok(()));
    assert_eq!(content, "#max_id=5\n");
    assert_eq!(add_at(&mut content, "next").id, 6);
}

#[test]
fn a_legacy_file_gains_a_header_on_add() {
    let mut content = String::from("3\t✅ Done\tc\td\n1\t🚀 Not Started\ta\td\n");
    assert_eq!(store().read_metadata(&content), (0, false));
    assert_eq!(store().scan_max_id(&content), 3);
    let task = add_at(&mut content, "fresh");
    assert_eq!(task.id, 4);
    assert_eq!(store().read_metadata(&content), (4, true));
    assert_eq!(
        content,
        "#max_id=4\n3\t✅ Done\tc\td\n1\t🚀 Not Started\ta\td\n4\t🚀 Not Started\tfresh\t2025-01-01 10:00\n"
    );
}

#[test]
fn a_legacy_file_gains_a_header_on_update_and_delete() {
    let legacy = "3\t✅ Done\tc\td\n1\t🚀 Not Started\ta\td\n";
    let mut content = String::from(legacy);
    store().update_task_at(&mut content, 1, Status::Done, None, DATE.to_string()).unwrap();
    assert_eq!(content, "#max_id=3\n3\t✅ Done\tc\td\n1\t✅ Done\ta\t2025-01-01 10:00\n");
    let mut content = String::from(legacy);
    store().delete_task(&mut content, 3).unwrap();
    assert_eq!(content, "#max_id=3\n1\t🚀 Not Started\ta\td\n");
    assert_eq!(add_at(&mut content, "x").id, 4);
}

#[test]
fn comma_lines_are_migrated_to_tabs() {
    let mut content = String::from("1,✅ Done,Old one,2024-01-01 09:00\n2,🚀 Not Started,Old two,2024-01-02 09:00\n");
    assert_eq!(ids(&content), vec![1, 2]);
    let task = add_at(&mut content, "New");
    assert_eq!(task.id, 3);
    assert_eq!(
        content,
        "#max_id=3\n1\t✅ Done\tOld one\t2024-01-01 09:00\n2\t🚀 Not Started\tOld two\t2024-01-02 09:00\n3\t🚀 Not Started\tNew\t2025-01-01 10:00\n"
    );
    assert_eq!(ids(&content), vec![1, 2, 3]);
}

#[test]
fn malformed_lines_are_skipped_on_read_and_kept_on_write() {
    let mut content = String::from("#max_id=2\nnot a task\n1\t✅ Done\ta\td\n\n# a comment\n2\tx\n");
    let tasks = store().get_tasks(&content);
    assert_eq!(tasks, vec![Task::new(1, Status::Done, "a".to_string(), "d".to_string())]);
    add_at(&mut content, "b");
    assert_eq!(
        content,
        "#max_id=3\nnot a task\n1\t✅ Done\ta\td\n2\tx\n3\t🚀 Not Started\tb\t2025-01-01 10:00\n"
    );
}

#[test]
fn the_header_is_read_from_the_first_line_only() {
    assert_eq!(store().read_metadata("#max_id=12\n"), (12, true));
    assert_eq!(store().read_metadata("#max_id=12"), (12, true));
    assert_eq!(store().read_metadata("#max_id=12\r\n1\ta\tb\n"), (12, true));
    assert_eq!(store().read_metadata("#max_id=-3\n"), (-3, true));
    assert_eq!(store().read_metadata(""), (0, false));
    assert_eq!(store().read_metadata("\n#max_id=12\n"), (0, false));
    assert_eq!(store().read_metadata("#max_id=\n"), (0, false));
    assert_eq!(store().read_metadata("#max_id=abc\n"), (0, false));
    assert_eq!(store().read_metadata("#max_id=99999999999\n"), (0, false));
    assert_eq!(store().read_metadata("# max_id=1\n"), (0, false));
    assert_eq!(store().read_metadata("1\ta\tb\n#max_id=5\n"), (0, false));
}

#[test]
fn the_header_is_authoritative() {
    let content = "#max_id=10\n1\t✅ Done\ta\td\n";
    assert_eq!(store().max_id(content), 10);
    assert_eq!(store().scan_max_id(content), 1);
    let legacy = "4\t✅ Done\ta\td\n9\t✅ Done\ta\td\n2\t✅ Done\ta\td\n";
    assert_eq!(store().max_id(legacy), 9);
    assert_eq!(store().scan_max_id(""), 0);
    assert_eq!(store().scan_max_id("-5\ta\tb\n"), 0);
}

#[test]
fn write_metadata_appends_the_header_line() {
    let mut out = String::new();
    store().write_metadata(&mut out, 17);
    assert_eq!(out, "#max_id=17\n");
    store().write_metadata(&mut out, -1);
    assert_eq!(out, "#max_id=17\n#max_id=-1\n");
}

#[test]
fn update_changes_every_record_with_the_id() {
    let mut content = String::from("#max_id=4\n4\t✅ Done\ta\td\n4\t✅ Done\tb\td\n3\t✅ Done\tc\td\n");
    let changed = store()
        .update_task_at(&mut content, 4, Status::NotStarted, None, DATE.to_string())
        .unwrap();
    assert_eq!(changed.len(), 2);
    assert_eq!(changed[0].description, "a");
    assert_eq!(changed[1].description, "b");
    assert_eq!(
        content,
        "#max_id=4\n4\t🚀 Not Started\ta\t2025-01-01 10:00\n4\t🚀 Not Started\tb\t2025-01-01 10:00\n3\t✅ Done\tc\td\n"
    );
}

#[test]
fn listing_of_an_empty_store() {
    assert!(matches!(store().list_tasks_at("", false, Some(80)), Listing::Empty));
    assert!(matches!(store().list_tasks_at("#max_id=3\n\n", true, None), Listing::Empty));
}

#[test]
fn listing_as_a_table_keeps_the_order_of_the_file() {
    let content = "#max_id=3\n3\t✅ Done\tc\td3\n1\t🚀 Not Started\ta\td1\n";
    match store().list_tasks_at(content, false, None) {
        Listing::Table(tasks) => {
            assert_eq!(tasks, vec![
                Task::new(3, Status::Done, "c".to_string(), "d3".to_string()),
                Task::new(1, Status::NotStarted, "a".to_string(), "d1".to_string()),
            ]);
        }
        other => panic!("a table was expected: {:?}", other),
    }
}

#[test]
fn listing_as_a_board_uses_the_terminal_width() {
    let content = "#max_id=1\n1\t🚀 Not Started\ta\td1\n";
    match store().list_tasks_at(content, true, Some(120)) {
        Listing::Board(board) => {
            assert_eq!(board.column_width, 38);
            assert_eq!(board.not_started.len(), 1);
        }
        other => panic!("a board was expected: {:?}", other),
    }
    match store().list_tasks(content, true) {
        Listing::Board(board) => {
            assert!(board.column_width >= 25 && board.column_width <= 50);
        }
        other => panic!("a board was expected: {:?}", other),
    }
    let board = store().display_kanban(&store().get_tasks(content));
    assert!(board.column_width >= 25 && board.column_width <= 50);
    assert_eq!(board.not_started[0].text, "[1] a");
}

#[test]
fn a_short_line_in_a_legacy_file_counts_for_the_highest_id() {
    let mut content = String::from("7\tx\n");
    assert_eq!(store().read_metadata(&content), (0, false));
    assert_eq!(store().scan_max_id(&content), 7);
    assert_eq!(store().max_id(&content), 7);
    assert_eq!(ids(&content), Vec::<i32>::new());
    let task = add_at(&mut content, "next");
    assert_eq!(task.id, 8);
    assert_eq!(content, "#max_id=8\n7\tx\n8\t🚀 Not Started\tnext\t2025-01-01 10:00\n");
    assert_eq!(ids(&content), vec![8]);
}

#[test]
fn the_scan_takes_the_id_field_of_every_task_line() {
    assert_eq!(store().scan_max_id("5\n"), 5);
    assert_eq!(store().scan_max_id("9,x\n"), 9);
    assert_eq!(store().scan_max_id("3\t✅ Done\ta\td\n12\tcut short\n4,✅ Done,b,d\n"), 12);
    assert_eq!(store().scan_max_id("3\t✅ Done\ta\td\n2\tb\n15,c\n"), 15);
    assert_eq!(store().scan_max_id("x\t9\n\n#7\n# 8\tnote\n"), 0);
    assert_eq!(store().scan_max_id("-4\tx\n"), 0);
    assert_eq!(store().scan_max_id("99999999999\tx\n1\ty\n"), 1);
    assert_eq!(store().scan_max_id("6,a\tb\n"), 6);
}

#[test]
fn a_legacy_file_with_short_lines_gains_a_header_above_every_id() {
    let mut content = String::from("2\t✅ Done\ta\td\n9,cut\n4\n");
    store().update_task_at(&mut content, 2, Status::InProgress, None, DATE.to_string()).unwrap();
    assert_eq!(content, "#max_id=9\n2\t⏳ In Progress\ta\t2025-01-01 10:00\n9,cut\n4\n");
    let mut content = String::from("2\t✅ Done\ta\td\n9,cut\n4\n");
    store().delete_task(&mut content, 2).unwrap();
    assert_eq!(content, "#max_id=9\n9,cut\n4\n");
    assert_eq!(add_at(&mut content, "x").id, 10);
}

#[test]
fn a_comma_line_is_rewritten_only_where_nothing_is_lost() {
    let mut content = String::from(
        "1,✅ Done,Buy milk, eggs,2025-01-01 10:00\n2,someday,Unknown token,d\n003,✅ Done,Padded id,d\n4,✅ Done,No date\n5,⏳ In Progress,Plain,d5\n",
    );
    let before = store().get_tasks(&content);
    assert_eq!(before.len(), 5);
    add_at(&mut content, "new");
    assert_eq!(
        content,
        "#max_id=6\n1,✅ Done,Buy milk, eggs,2025-01-01 10:00\n2,someday,Unknown token,d\n003,✅ Done,Padded id,d\n4\t✅ Done\tNo date\t\n5\t⏳ In Progress\tPlain\td5\n6\t🚀 Not Started\tnew\t2025-01-01 10:00\n"
    );
    let after = store().get_tasks(&content);
    assert_eq!(&after[..5], &before[..]);
    assert_eq!(after[0].description, "Buy milk");
    assert_eq!(after[0].date, " eggs");
    assert_eq!(after[1].status, Status::NotStarted);
    assert_eq!(after[2].id, 3);
}
