use tasklist::cli::{Cli, Commands};
use tasklist::manager::Mngr;
use tasklist::task::Status;
use tasklist::tui::{Action, App, AppMode, Key, KeyPress, Outcome, Request};

const THREE: &str = "#max_id=3\n1\t🚀 Not Started\ta\td\n2\t⏳ In Progress\tb\td\n3\t✅ Done\tc\td\n";

fn app(content: &str) -> App {
    App::new(Mngr::new(".tasklist".to_string(), None), content)
}

fn key(k: Key) -> KeyPress {
    KeyPress { key: k, control: false }
}

fn ch(c: char) -> KeyPress {
    key(Key::Char(c))
}

#[test]
fn a_session_starts_browsing_on_the_first_task() {
    let session = app(THREE);
    assert_eq!(session.mode(), AppMode::Normal);
    assert_eq!(session.selected(), Some(0));
    assert_eq!(session.tasks().len(), 3);
    assert_eq!(session.input(), "");
    assert_eq!(session.error_message(), &None);
    assert_eq!(session.manager().tasklist_path(), ".tasklist");
    let empty = app("");
    assert_eq!(empty.selected(), None);
    assert_eq!(empty.tasks().len(), 0);
}

#[test]
fn the_cursor_wraps_at_both_ends() {
    let mut session = app(THREE);
    assert_eq!(session.handle_key(key(Key::Down)), Action::Continue);
    assert_eq!(session.selected(), Some(1));
    session.handle_key(ch('j'));
    assert_eq!(session.selected(), Some(2));
    session.handle_key(ch('j'));
    assert_eq!(session.selected(), Some(0));
    session.handle_key(key(Key::Up));
    assert_eq!(session.selected(), Some(2));
    session.handle_key(ch('k'));
    assert_eq!(session.selected(), Some(1));
    session.next();
    session.next();
    assert_eq!(session.selected(), Some(0));
    session.previous();
    assert_eq!(session.selected(), Some(2));
}

#[test]
fn navigation_on_an_empty_list_does_nothing() {
    let mut session = app("");
    assert_eq!(session.handle_key(key(Key::Down)), Action::Continue);
    assert_eq!(session.selected(), None);
    assert_eq!(session.handle_key(key(Key::Up)), Action::Continue);
    assert_eq!(session.selected(), None);
    assert_eq!(session.handle_key(ch('d')), Action::Continue);
    assert_eq!(session.mode(), AppMode::Normal);
    assert_eq!(session.handle_key(ch('2')), Action::Continue);
}

#[test]
fn quit_keys_end_the_session() {
    let mut session = app(THREE);
    assert_eq!(session.handle_key(ch('q')), Action::Quit);
    assert_eq!(session.handle_key(KeyPress { key: Key::Char('c'), control: true }), Action::Quit);
    assert_eq!(session.handle_key(ch('c')), Action::Continue);
    assert_eq!(session.handle_key(key(Key::Other)), Action::Continue);
    assert_eq!(session.handle_key(key(Key::Enter)), Action::Continue);
    assert_eq!(session.mode(), AppMode::Normal);
}

#[test]
fn digits_assign_a_status_to_the_selected_task() {
    let mut session = app(THREE);
    session.handle_key(key(Key::Down));
    assert_eq!(
        session.handle_key(ch('1')),
        Action::Store(Request::Update { id: 2, status: Status::NotStarted })
    );
    assert_eq!(
        session.handle_key(ch('2')),
        Action::Store(Request::Update { id: 2, status: Status::InProgress })
    );
    assert_eq!(
        session.handle_key(ch('3')),
        Action::Store(Request::Update { id: 2, status: Status::Done })
    );
    assert_eq!(
        session.update_task_status(Status::Done),
        Action::Store(Request::Update { id: 2, status: Status::Done })
    );
    assert_eq!(session.mode(), AppMode::Normal);
    assert_eq!(session.selected(), Some(1));
}

#[test]
fn a_successful_update_reloads_the_list() {
    let mut session = app(THREE);
    let request = Request::Update { id: 1, status: Status::Done };
    let after = "#max_id=3\n1\t✅ Done\ta\tnow\n2\t⏳ In Progress\tb\td\n3\t✅ Done\tc\td\n";
    session.handle_outcome(&request, Outcome::Reloaded(after.to_string()));
    assert_eq!(session.tasks()[0].status, Status::Done);
    assert_eq!(session.tasks()[0].date, "now");
    assert_eq!(session.selected(), Some(0));
    assert_eq!(session.error_message(), &None);
}

#[test]
fn a_failed_update_shows_the_error_and_changes_nothing_else() {
    let mut session = app(THREE);
    session.handle_key(key(Key::Down));
    let request = Request::Update { id: 2, status: Status::Done };
    session.handle_outcome(&request, Outcome::Refused("Task with ID 2 not found".to_string()));
    assert_eq!(session.error_message(), &Some("Error: Task with ID 2 not found".to_string()));
    assert_eq!(session.mode(), AppMode::Normal);
    assert_eq!(session.selected(), Some(1));
    assert_eq!(session.tasks().len(), 3);
    session.handle_outcome(&request, Outcome::Unread("gone".to_string()));
    assert_eq!(session.error_message(), &Some("Error: gone".to_string()));
}

#[test]
fn typing_a_new_task() {
    let mut session = app(THREE);
    assert_eq!(session.handle_key(ch('n')), Action::Continue);
    assert_eq!(session.mode(), AppMode::AddingTask);
    assert_eq!(session.handle_key(key(Key::Enter)), Action::Continue);
    assert_eq!(session.add_task(), Action::Continue);
    assert_eq!(session.mode(), AppMode::AddingTask);
    for c in "Buyx".chars() {
        assert_eq!(session.handle_key(ch(c)), Action::Continue);
    }
    assert_eq!(session.handle_key(key(Key::Backspace)), Action::Continue);
    assert_eq!(session.handle_key(KeyPress { key: Key::Char('q'), control: true }), Action::Continue);
    assert_eq!(session.input(), "Buyq");
    let action = session.handle_key(key(Key::Enter));
    assert_eq!(action, Action::Store(Request::Add("Buyq".to_string())));
    assert_eq!(session.mode(), AppMode::AddingTask);
    let after = format!("{}4\t🚀 Not Started\tBuyq\tnow\n", THREE.replace("#max_id=3", "#max_id=4"));
    session.handle_outcome(&Request::Add("Buyq".to_string()), Outcome::Reloaded(after));
    assert_eq!(session.mode(), AppMode::Normal);
    assert_eq!(session.input(), "");
    assert_eq!(session.tasks().len(), 4);
    assert_eq!(session.selected(), Some(3));
}

#[test]
fn backspace_on_an_empty_input_does_nothing() {
    let mut session = app(THREE);
    session.handle_key(ch('n'));
    assert_eq!(session.handle_key(key(Key::Backspace)), Action::Continue);
    assert_eq!(session.input(), "");
    assert_eq!(session.mode(), AppMode::AddingTask);
}

#[test]
fn escape_discards_the_typed_text() {
    let mut session = app(THREE);
    session.handle_key(ch('n'));
    session.handle_key(ch('x'));
    assert_eq!(session.handle_key(key(Key::Esc)), Action::Continue);
    assert_eq!(session.mode(), AppMode::Normal);
    assert_eq!(session.input(), "");
    session.handle_key(ch('n'));
    assert_eq!(session.input(), "");
}

#[test]
fn a_refused_add_keeps_the_typed_text() {
    let mut session = app(THREE);
    session.handle_key(ch('n'));
    session.handle_key(ch('x'));
    let request = Request::Add("x".to_string());
    session.handle_outcome(&request, Outcome::Refused("disk full".to_string()));
    assert_eq!(session.mode(), AppMode::Normal);
    assert_eq!(session.input(), "x");
    assert_eq!(session.error_message(), &Some("Error: disk full".to_string()));
    assert_eq!(session.tasks().len(), 3);
}

#[test]
fn an_add_that_cannot_be_read_back_clears_the_typed_text() {
    let mut session = app(THREE);
    session.handle_key(ch('n'));
    session.handle_key(ch('x'));
    let request = Request::Add("x".to_string());
    session.handle_outcome(&request, Outcome::Unread("unreadable".to_string()));
    assert_eq!(session.mode(), AppMode::Normal);
    assert_eq!(session.input(), "");
    assert_eq!(session.error_message(), &Some("Error: unreadable".to_string()));
}

#[test]
fn delete_asks_for_confirmation() {
    let mut session = app(THREE);
    session.handle_key(key(Key::Up));
    assert_eq!(session.handle_key(ch('d')), Action::Continue);
    assert_eq!(session.mode(), AppMode::ConfirmDelete);
    assert_eq!(session.handle_key(ch('x')), Action::Continue);
    assert_eq!(session.mode(), AppMode::ConfirmDelete);
    assert_eq!(session.delete_current_task(), Action::Store(Request::Delete { id: 3 }));
    assert_eq!(session.handle_key(ch('y')), Action::Store(Request::Delete { id: 3 }));
    assert_eq!(session.mode(), AppMode::Normal);
    let after = "#max_id=3\n1\t🚀 Not Started\ta\td\n2\t⏳ In Progress\tb\td\n";
    session.handle_outcome(&Request::Delete { id: 3 }, Outcome::Reloaded(after.to_string()));
    assert_eq!(session.tasks().len(), 2);
    assert_eq!(session.selected(), Some(1));
}

#[test]
fn a_delete_can_be_denied() {
    for deny in [Key::Char('n'), Key::Char('N'), Key::Esc] {
        let mut session = app(THREE);
        session.handle_key(ch('d'));
        assert_eq!(session.handle_key(key(deny)), Action::Continue);
        assert_eq!(session.mode(), AppMode::Normal);
        assert_eq!(session.tasks().len(), 3);
    }
    let mut session = app(THREE);
    session.handle_key(ch('d'));
    assert_eq!(session.handle_key(ch('Y')), Action::Store(Request::Delete { id: 1 }));
}

#[test]
fn a_failed_delete_shows_the_error() {
    let mut session = app(THREE);
    session.handle_key(ch('d'));
    session.handle_key(ch('y'));
    session.handle_outcome(&Request::Delete { id: 1 }, Outcome::Refused("no".to_string()));
    assert_eq!(session.mode(), AppMode::Normal);
    assert_eq!(session.error_message(), &Some("Error: no".to_string()));
}

#[test]
fn reload_reads_the_store_anew() {
    let mut session = app(THREE);
    session.handle_outcome(&Request::Reload, Outcome::Unread("x".to_string()));
    assert_eq!(session.error_message(), &Some("Error reloading: x".to_string()));
    assert_eq!(session.handle_key(ch('r')), Action::Store(Request::Reload));
    session.handle_key(key(Key::Up));
    assert_eq!(session.selected(), Some(2));
    session.handle_outcome(
        &Request::Reload,
        Outcome::Reloaded("#max_id=3\n1\t🚀 Not Started\ta\td\n".to_string()),
    );
    assert_eq!(session.error_message(), &None);
    assert_eq!(session.tasks().len(), 1);
    assert_eq!(session.selected(), Some(0));
    session.handle_outcome(&Request::Reload, Outcome::Reloaded("#max_id=3\n".to_string()));
    assert_eq!(session.selected(), None);
    session.reload_tasks(THREE);
    assert_eq!(session.selected(), Some(0));
    assert_eq!(session.tasks().len(), 3);
}

#[test]
fn reload_keeps_the_cursor_when_the_list_does_not_shrink() {
    let mut session = app(THREE);
    session.handle_key(key(Key::Down));
    session.reload_tasks(&format!("{}4\t✅ Done\td\td\n", THREE));
    assert_eq!(session.selected(), Some(1));
    assert_eq!(session.tasks().len(), 4);
}

#[test]
fn the_command_defaults_to_show() {
    let cli = Cli { file: None, verbose: false, kanban: true, command: None };
    assert_eq!(cli.tasklist_file(), ".tasklist");
    assert!(matches!(cli.resolve(), Commands::Show { kanban: true }));
    let cli = Cli {
        file: Some("other".to_string()),
        verbose: false,
        kanban: true,
        command: Some(Commands::Delete { id: 4 }),
    };
    assert_eq!(cli.tasklist_file(), "other");
    assert!(matches!(cli.resolve(), Commands::Delete { id: 4 }));
    let cli = Cli {
        file: None,
        verbose: false,
        kanban: true,
        command: Some(Commands::Show { kanban: false }),
    };
    assert!(matches!(cli.resolve(), Commands::Show { kanban: false }));
}
