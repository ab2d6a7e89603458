use tasklist::board::{column_title, column_width, make_card, Board, Card};
use tasklist::task::{Status, Task};

fn task(id: i32, status: Status, description: &str) -> Task {
    Task::new(id, status, description.to_string(), "2025-01-01 10:00".to_string())
}

#[test]
fn board_groups_by_status_in_read_order() {
    let tasks = vec![
        task(1, Status::NotStarted, "a"),
        task(2, Status::InProgress, "b"),
        task(3, Status::Done, "c"),
        task(4, Status::NotStarted, "d"),
    ];
    let board = Board::layout(&tasks, Some(100));
    assert_eq!(board.not_started.len(), 2);
    assert_eq!(board.in_progress.len(), 1);
    assert_eq!(board.done.len(), 1);
    assert_eq!(board.not_started[0].text, "[1] a");
    assert_eq!(board.not_started[1].text, "[4] d");
    assert_eq!(board.in_progress[0].text, "[2] b");
    assert_eq!(board.done[0].text, "[3] c");
    assert_eq!(board.height(), 2);
    assert_eq!(board.column(Status::NotStarted).len(), 2);
    assert_eq!(board.column(Status::InProgress), &board.in_progress);
    assert_eq!(board.column(Status::Done), &board.done);
}

#[test]
fn an_empty_board_has_no_rows() {
    let board = Board::layout(&Vec::new(), None);
    assert_eq!(board.height(), 0);
    assert_eq!(board.column_width, 31);
    assert!(board.not_started.is_empty() && board.in_progress.is_empty() && board.done.is_empty());
}

#[test]
fn column_width_follows_the_terminal() {
    assert_eq!(column_width(None), 31);
    assert_eq!(column_width(Some(100)), 31);
    assert_eq!(column_width(Some(120)), 38);
    assert_eq!(column_width(Some(81)), 25);
    assert_eq!(column_width(Some(84)), 26);
    assert_eq!(column_width(Some(156)), 50);
    assert_eq!(column_width(Some(153)), 49);
}

#[test]
fn column_width_is_clamped() {
    assert_eq!(column_width(Some(0)), 25);
    assert_eq!(column_width(Some(3)), 25);
    assert_eq!(column_width(Some(6)), 25);
    assert_eq!(column_width(Some(80)), 25);
    assert_eq!(column_width(Some(157)), 50);
    assert_eq!(column_width(Some(u16::MAX)), 50);
}

#[test]
fn a_short_description_is_shown_whole() {
    let card = make_card(&task(1, Status::Done, "Short"), 31);
    assert_eq!(card, Card { text: "[1] Short".to_string(), date: "  2025-01-01 10:00".to_string() });
    let exact = make_card(&task(1, Status::Done, "abcdefghijklmnopqrstuvwx"), 31);
    assert_eq!(exact.text, "[1] abcdefghijklmnopqrstuvwx");
}

#[test]
fn a_long_description_is_cut_with_an_ellipsis() {
    let card = make_card(&task(1, Status::Done, "abcdefghijklmnopqrstuvwxy"), 31);
    assert_eq!(card.text, "[1] abcdefghijklmnopqrstu...");
    assert_eq!(card.text.chars().count(), 28);
    let wide_id = make_card(&task(12345, Status::Done, &"x".repeat(100)), 25);
    assert_eq!(wide_id.text, format!("[12345] {}...", "x".repeat(11)));
    assert_eq!(wide_id.text.chars().count(), 22);
}

#[test]
fn the_card_never_exceeds_the_column() {
    for width in [25usize, 31, 38, 50] {
        for id in [1, 42, 2147483647, -2147483648] {
            for len in [0usize, 1, 5, 20, 40, 60, 300] {
                let card = make_card(&task(id, Status::Done, &"é".repeat(len)), width);
                assert!(card.text.chars().count() <= width - 3);
                assert!(card.text.starts_with(&format!("[{}] ", id)));
            }
        }
    }
}

#[test]
fn a_card_is_cut_by_characters() {
    let card = make_card(&task(7, Status::Done, &"🚀".repeat(30)), 25);
    assert_eq!(card.text, format!("[7] {}...", "🚀".repeat(15)));
}

#[test]
fn a_narrow_column_leaves_only_the_ellipsis() {
    let card = make_card(&task(1, Status::Done, "abcdef"), 9);
    assert_eq!(card.text, "[1] ...");
    let none = make_card(&task(1, Status::Done, ""), 0);
    assert_eq!(none.text, "[1] ");
}

#[test]
fn a_task_without_a_date_has_an_empty_date_line() {
    let bare = Task::new(3, Status::Done, "x".to_string(), String::new());
    assert_eq!(make_card(&bare, 31).date, "");
}

#[test]
fn column_titles() {
    assert_eq!(column_title(Status::NotStarted), "🚀 NOT STARTED");
    assert_eq!(column_title(Status::InProgress), "⏳ IN PROGRESS");
    assert_eq!(column_title(Status::Done), "✅ DONE");
}
