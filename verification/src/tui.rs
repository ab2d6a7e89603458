//! The interactive session as a state machine. A key moves the session to
//! its next state and may ask for work on the store; the outcome of that
//! work moves it on. The session itself touches no file and no terminal.

use crate::manager::Mngr;
use crate::store::records_in;
use crate::task::{task_views, Status, Task, TaskView};
use crate::text::text_view;
use vstd::prelude::*;
use vstd::string::StringExecFns;

verus! {

/// What the session is doing.
#[derive(Debug, Clone, Copy, PartialEq, Eq, Structural)]
pub enum AppMode {
    /// Browsing the list.
    Normal,
    /// Typing the description of a new task.
    AddingTask,
    /// Asked whether the selected task is to be deleted.
    ConfirmDelete,
}

/// A key of the keyboard, as far as the session tells keys apart.
#[derive(Debug, Clone, Copy, PartialEq, Eq, Structural)]
pub enum Key {
    Char(char),
    Up,
    Down,
    Enter,
    Esc,
    Backspace,
    Other,
}

/// A key that was pressed, and whether the control key was held with it.
#[derive(Debug, Clone, Copy, PartialEq, Eq, Structural)]
pub struct KeyPress {
    pub key: Key,
    pub control: bool,
}

/// Work on the store that the session asks for.
#[derive(Debug, PartialEq, Eq)]
pub enum Request {
    /// Add a task with this description, then read the store.
    Add(String),
    /// Give the task with this id this status, then read the store.
    Update { id: i32, status: Status },
    /// Delete the task with this id, then read the store.
    Delete { id: i32 },
    /// Read the store.
    Reload,
}

/// What is to be done after a key.
#[derive(Debug, PartialEq, Eq)]
pub enum Action {
    /// Nothing: draw and wait for the next key.
    Continue,
    /// End the session.
    Quit,
    /// Do this work on the store and hand the outcome back.
    Store(Request),
}

/// How work on the store ended.
#[derive(Debug, PartialEq, Eq)]
pub enum Outcome {
    /// The work was done; this is the text of the backing file after it.
    Reloaded(String),
    /// The store was not changed; this is why.
    Refused(String),
    /// The store was changed as asked, but could not be read afterwards;
    /// this is why.
    Unread(String),
}

/// A request as a mathematical value.
pub enum RequestView {
    Add(Seq<char>),
    Update { id: int, status: Status },
    Delete { id: int },
    Reload,
}

/// An action as a mathematical value.
pub enum ActionView {
    Continue,
    Quit,
    Store(RequestView),
}

/// An outcome as a mathematical value.
pub enum OutcomeView {
    Reloaded(Seq<char>),
    Refused(Seq<char>),
    Unread(Seq<char>),
}

impl View for Request {
    type V = RequestView;

    open spec fn view(&self) -> RequestView {
        match self {
            Request::Add(d) => RequestView::Add(d@),
            Request::Update { id, status } => RequestView::Update {
                id: *id as int,
                status: *status,
            },
            Request::Delete { id } => RequestView::Delete { id: *id as int },
            Request::Reload => RequestView::Reload,
        }
    }
}

impl View for Action {
    type V = ActionView;

    open spec fn view(&self) -> ActionView {
        match self {
            Action::Continue => ActionView::Continue,
            Action::Quit => ActionView::Quit,
            Action::Store(r) => ActionView::Store(r@),
        }
    }
}

impl View for Outcome {
    type V = OutcomeView;

    open spec fn view(&self) -> OutcomeView {
        match self {
            Outcome::Reloaded(text) => OutcomeView::Reloaded(text@),
            Outcome::Refused(why) => OutcomeView::Refused(why@),
            Outcome::Unread(why) => OutcomeView::Unread(why@),
        }
    }
}

/// The state of a session as a mathematical value.
pub struct AppView {
    /// The tasks as they were last read.
    pub tasks: Seq<TaskView>,
    /// The position of the cursor in the list, if there is one.
    pub selected: Option<int>,
    pub mode: AppMode,
    /// What has been typed of a new description.
    pub input: Seq<char>,
    /// The error that is shown, if any.
    pub error_message: Option<Seq<char>>,
}

/// Whether the cursor is where it may be: on a task of the list, and
/// nowhere only if the list is empty.
pub open spec fn is_valid(s: AppView) -> bool {
    match s.selected {
        Some(i) => 0 <= i < s.tasks.len(),
        None => s.tasks.len() == 0,
    }
}

/// The state at the start of a session on a store with the given text.
pub open spec fn initial_state(text: Seq<char>) -> AppView {
    AppView {
        tasks: records_in(text),
        selected: if records_in(text).len() == 0 {
            None
        } else {
            Some(0)
        },
        mode: AppMode::Normal,
        input: Seq::<char>::empty(),
        error_message: None,
    }
}

/// The cursor after the list was read anew and has `len` tasks: nowhere in
/// an empty list; on the last task where it stood beyond it; on the first
/// task where there was none; else where it was.
pub open spec fn selection_after_reload(selected: Option<int>, len: int) -> Option<int> {
    if len == 0 {
        None
    } else {
        match selected {
            Some(i) => if i >= len {
                Some(len - 1)
            } else {
                Some(i)
            },
            None => Some(0),
        }
    }
}

/// The state after the list was read anew from a store with the given text.
pub open spec fn reloaded(s: AppView, text: Seq<char>) -> AppView {
    AppView {
        tasks: records_in(text),
        selected: selection_after_reload(s.selected, records_in(text).len() as int),
        ..s
    }
}

/// The state after the cursor moved down: to the next task, and from the
/// last task to the first.
pub open spec fn moved_down(s: AppView) -> AppView {
    if s.tasks.len() == 0 {
        s
    } else {
        AppView {
            selected: Some(
                match s.selected {
                    Some(i) => if i >= s.tasks.len() - 1 {
                        0
                    } else {
                        i + 1
                    },
                    None => 0,
                },
            ),
            ..s
        }
    }
}

/// The state after the cursor moved up: to the task before, and from the
/// first task to the last.
pub open spec fn moved_up(s: AppView) -> AppView {
    if s.tasks.len() == 0 {
        s
    } else {
        AppView {
            selected: Some(
                match s.selected {
                    Some(i) => if i == 0 {
                        s.tasks.len() - 1
                    } else {
                        i - 1
                    },
                    None => 0,
                },
            ),
            ..s
        }
    }
}

/// The id of the task under the cursor.
pub open spec fn selected_id(s: AppView) -> Option<int> {
    match s.selected {
        Some(i) => if 0 <= i < s.tasks.len() {
            Some(s.tasks[i].id)
        } else {
            None
        },
        None => None,
    }
}

/// The status that a digit key assigns.
pub open spec fn status_for(c: char) -> Option<Status> {
    if c == '1' {
        Some(Status::NotStarted)
    } else if c == '2' {
        Some(Status::InProgress)
    } else if c == '3' {
        Some(Status::Done)
    } else {
        None
    }
}

/// A key while browsing. `q`, and `c` with the control key, end the session.
/// The arrows and `j`, `k` move the cursor. `n` begins a new task. `d` asks
/// whether to delete the selected task. `1`, `2`, `3` assign a status to
/// it. `r` reads the store anew. Other keys do nothing.
pub open spec fn normal_step(s: AppView, press: KeyPress) -> (AppView, ActionView) {
    match press.key {
        Key::Char(c) => {
            if c == 'q' || (c == 'c' && press.control) {
                (s, ActionView::Quit)
            } else if c == 'j' {
                (moved_down(s), ActionView::Continue)
            } else if c == 'k' {
                (moved_up(s), ActionView::Continue)
            } else if c == 'n' {
                (
                    AppView {
                        mode: AppMode::AddingTask,
                        input: Seq::<char>::empty(),
                        error_message: None,
                        ..s
                    },
                    ActionView::Continue,
                )
            } else if c == 'd' {
                if s.selected is Some && s.tasks.len() > 0 {
                    (
                        AppView { mode: AppMode::ConfirmDelete, error_message: None, ..s },
                        ActionView::Continue,
                    )
                } else {
                    (s, ActionView::Continue)
                }
            } else if status_for(c) is Some {
                match selected_id(s) {
                    Some(id) => (
                        s,
                        ActionView::Store(RequestView::Update { id, status: status_for(c)->0 }),
                    ),
                    None => (s, ActionView::Continue),
                }
            } else if c == 'r' {
                (s, ActionView::Store(RequestView::Reload))
            } else {
                (s, ActionView::Continue)
            }
        },
        Key::Down => (moved_down(s), ActionView::Continue),
        Key::Up => (moved_up(s), ActionView::Continue),
        _ => (s, ActionView::Continue),
    }
}

/// A key while a description is typed. A character is added to it, and
/// backspace takes the last one away. Enter asks the store to add the task,
/// unless nothing was typed. Escape gives up.
pub open spec fn adding_step(s: AppView, press: KeyPress) -> (AppView, ActionView) {
    match press.key {
        Key::Enter => if s.input.len() > 0 {
            (s, ActionView::Store(RequestView::Add(s.input)))
        } else {
            (s, ActionView::Continue)
        },
        Key::Esc => (
            AppView {
                mode: AppMode::Normal,
                input: Seq::<char>::empty(),
                error_message: None,
                ..s
            },
            ActionView::Continue,
        ),
        Key::Char(c) => (AppView { input: s.input.push(c), ..s }, ActionView::Continue),
        Key::Backspace => (
            AppView {
                input: if s.input.len() > 0 {
                    s.input.drop_last()
                } else {
                    s.input
                },
                ..s
            },
            ActionView::Continue,
        ),
        _ => (s, ActionView::Continue),
    }
}

/// A key while a delete waits to be confirmed. `y` asks the store to delete
/// the selected task; `n` and escape give up. Either way the session browses
/// again. Other keys do nothing.
pub open spec fn confirm_step(s: AppView, press: KeyPress) -> (AppView, ActionView) {
    match press.key {
        Key::Char(c) => {
            if c == 'y' || c == 'Y' {
                (
                    AppView { mode: AppMode::Normal, ..s },
                    match selected_id(s) {
                        Some(id) => ActionView::Store(RequestView::Delete { id }),
                        None => ActionView::Continue,
                    },
                )
            } else if c == 'n' || c == 'N' {
                (AppView { mode: AppMode::Normal, error_message: None, ..s }, ActionView::Continue)
            } else {
                (s, ActionView::Continue)
            }
        },
        Key::Esc => (
            AppView { mode: AppMode::Normal, error_message: None, ..s },
            ActionView::Continue,
        ),
        _ => (s, ActionView::Continue),
    }
}

/// The state after a key, and what is to be done.
pub open spec fn key_step(s: AppView, press: KeyPress) -> (AppView, ActionView) {
    match s.mode {
        AppMode::Normal => normal_step(s, press),
        AppMode::AddingTask => adding_step(s, press),
        AppMode::ConfirmDelete => confirm_step(s, press),
    }
}

/// The state with an error shown: the reason behind a few words of
/// introduction.
pub open spec fn with_error(s: AppView, intro: Seq<char>, why: Seq<char>) -> AppView {
    AppView { error_message: Some(intro + why), ..s }
}

/// The state after work on the store has ended.
///
/// After a status was assigned or a task deleted, the list is read anew;
/// where that failed the error is shown and nothing else changes. After a
/// task was added, the typed text is gone, the session browses again and the
/// cursor stands on the last task; where the store refused, the error is
/// shown, the session browses again and the typed text stays. After a
/// reload, the list is read anew and no error is shown.
pub open spec fn outcome_step(s: AppView, request: RequestView, outcome: OutcomeView) -> AppView {
    match request {
        RequestView::Add(_) => match outcome {
            OutcomeView::Reloaded(text) => {
                let r = reloaded(
                    AppView { mode: AppMode::Normal, input: Seq::<char>::empty(), ..s },
                    text,
                );
                if r.tasks.len() > 0 {
                    AppView { selected: Some(r.tasks.len() - 1), ..r }
                } else {
                    r
                }
            },
            OutcomeView::Refused(why) => with_error(
                AppView { mode: AppMode::Normal, ..s },
                "Error: "@,
                why,
            ),
            OutcomeView::Unread(why) => with_error(
                AppView { mode: AppMode::Normal, input: Seq::<char>::empty(), ..s },
                "Error: "@,
                why,
            ),
        },
        RequestView::Reload => match outcome {
            OutcomeView::Reloaded(text) => AppView { error_message: None, ..reloaded(s, text) },
            OutcomeView::Refused(why) => with_error(s, "Error reloading: "@, why),
            OutcomeView::Unread(why) => with_error(s, "Error reloading: "@, why),
        },
        _ => match outcome {
            OutcomeView::Reloaded(text) => reloaded(s, text),
            OutcomeView::Refused(why) => with_error(s, "Error: "@, why),
            OutcomeView::Unread(why) => with_error(s, "Error: "@, why),
        },
    }
}

/// A key leaves the cursor where it may be.
pub proof fn lemma_key_keeps_valid(s: AppView, press: KeyPress)
    requires
        is_valid(s),
    ensures
        is_valid(key_step(s, press).0),
{
}

/// The outcome of work on the store leaves the cursor where it may be.
pub proof fn lemma_outcome_keeps_valid(s: AppView, request: RequestView, outcome: OutcomeView)
    requires
        is_valid(s),
    ensures
        is_valid(outcome_step(s, request, outcome)),
{
}

/// Moving the cursor touches neither the list nor the store, and wraps at
/// both ends: down from the last task is the first, up from the first is
/// the last, and up undoes down.
pub proof fn lemma_navigation_wraps(s: AppView)
    requires
        is_valid(s),
        s.tasks.len() > 0,
    ensures
        moved_down(s).tasks == s.tasks,
        moved_up(s).tasks == s.tasks,
        s.selected == Some(s.tasks.len() - 1) ==> moved_down(s).selected == Some(0int),
        s.selected == Some(0int) ==> moved_up(s).selected == Some(s.tasks.len() - 1),
        moved_up(moved_down(s)) == s,
        moved_down(moved_up(s)) == s,
{
}

/// The view of a cursor that may be absent.
pub open spec fn cursor_view(selected: Option<usize>) -> Option<int> {
    match selected {
        Some(i) => Some(i as int),
        None => None,
    }
}

/// The interactive session: the store it works on, the tasks as they were
/// last read, the cursor, and what is being typed or shown.
#[derive(Debug)]
pub struct App {
    manager: Mngr,
    tasks: Vec<Task>,
    selected: Option<usize>,
    mode: AppMode,
    input: String,
    error_message: Option<String>,
}

impl View for App {
    type V = AppView;

    closed spec fn view(&self) -> AppView {
        AppView {
            tasks: task_views(self.tasks@),
            selected: cursor_view(self.selected),
            mode: self.mode,
            input: self.input@,
            error_message: text_view(self.error_message),
        }
    }
}

/// The status that a digit key assigns.
fn status_for_key(c: char) -> (r: Option<Status>)
    ensures
        r == status_for(c),
{
    if c == '1' {
        Some(Status::NotStarted)
    } else if c == '2' {
        Some(Status::InProgress)
    } else if c == '3' {
        Some(Status::Done)
    } else {
        None
    }
}

impl App {
    /// The store that the session works on.
    pub closed spec fn store(&self) -> Mngr {
        self.manager
    }

    /// A session on `manager`, whose backing file holds `content`. The
    /// session browses, with the cursor on the first task if there is one.
    pub fn new(manager: Mngr, content: &str) -> (app: App)
        ensures
            app@ == initial_state(content@),
            is_valid(app@),
            app.store() == manager,
    {
        let tasks = manager.get_tasks(content);
        let selected = if tasks.len() == 0 {
            None
        } else {
            Some(0)
        };
        App {
            manager,
            tasks,
            selected,
            mode: AppMode::Normal,
            input: String::new(),
            error_message: None,
        }
    }

    /// The store that the session works on.
    pub fn manager(&self) -> (manager: &Mngr)
        ensures
            *manager == self.store(),
    {
        &self.manager
    }

    /// The tasks as they were last read.
    pub fn tasks(&self) -> (tasks: &Vec<Task>)
        ensures
            task_views(tasks@) == self@.tasks,
    {
        &self.tasks
    }

    /// The position of the cursor in the list, if there is one.
    pub fn selected(&self) -> (selected: Option<usize>)
        ensures
            cursor_view(selected) == self@.selected,
    {
        self.selected
    }

    /// What the session is doing.
    pub fn mode(&self) -> (mode: AppMode)
        ensures
            mode == self@.mode,
    {
        self.mode
    }

    /// What has been typed of a new description.
    pub fn input(&self) -> (input: &str)
        ensures
            input@ == self@.input,
    {
        self.input.as_str()
    }

    /// The error that is shown, if any.
    pub fn error_message(&self) -> (message: &Option<String>)
        ensures
            text_view(*message) == self@.error_message,
    {
        &self.error_message
    }

    /// Takes the list as it is read from a backing file that holds
    /// `content`, and puts the cursor where it may be.
    pub fn reload_tasks(&mut self, content: &str)
        ensures
            final(self)@ == reloaded(old(self)@, content@),
            final(self).store() == old(self).store(),
    {
        self.tasks = self.manager.get_tasks(content);
        let len = self.tasks.len();
        if len == 0 {
            self.selected = None;
        } else {
            match self.selected {
                Some(i) => {
                    if i >= len {
                        self.selected = Some(len - 1);
                    }
                },
                None => {
                    self.selected = Some(0);
                },
            }
        }
    }

    /// Moves the cursor down, from the last task to the first.
    pub fn next(&mut self)
        ensures
            final(self)@ == moved_down(old(self)@),
            final(self).store() == old(self).store(),
    {
        let len = self.tasks.len();
        if len == 0 {
            return ;
        }
        let i: usize = match self.selected {
            Some(i) => if i >= len - 1 {
                0
            } else {
                i + 1
            },
            None => 0,
        };
        self.selected = Some(i);
    }

    /// Moves the cursor up, from the first task to the last.
    pub fn previous(&mut self)
        ensures
            final(self)@ == moved_up(old(self)@),
            final(self).store() == old(self).store(),
    {
        let len = self.tasks.len();
        if len == 0 {
            return ;
        }
        let i: usize = match self.selected {
            Some(i) => if i == 0 {
                len - 1
            } else {
                i - 1
            },
            None => 0,
        };
        self.selected = Some(i);
    }

    /// The id of the task under the cursor.
    pub fn selected_task_id(&self) -> (id: Option<i32>)
        ensures
            match id {
                Some(v) => selected_id(self@) == Some(v as int),
                None => selected_id(self@) is None,
            },
    {
        match self.selected {
            Some(i) => if i < self.tasks.len() {
                Some(self.tasks[i].id)
            } else {
                None
            },
            None => None,
        }
    }

    /// What assigning `status` to the task under the cursor asks of the
    /// store: an update of that task, and nothing where no task is selected.
    pub fn update_task_status(&self, status: Status) -> (action: Action)
        ensures
            action@ == match selected_id(self@) {
                Some(id) => ActionView::Store(RequestView::Update { id, status }),
                None => ActionView::Continue,
            },
    {
        match self.selected_task_id() {
            Some(id) => Action::Store(Request::Update { id, status }),
            None => Action::Continue,
        }
    }

    /// What deleting the task under the cursor asks of the store: a delete
    /// of that task, and nothing where no task is selected.
    pub fn delete_current_task(&self) -> (action: Action)
        ensures
            action@ == match selected_id(self@) {
                Some(id) => ActionView::Store(RequestView::Delete { id }),
                None => ActionView::Continue,
            },
    {
        match self.selected_task_id() {
            Some(id) => Action::Store(Request::Delete { id }),
            None => Action::Continue,
        }
    }

    /// What confirming the typed description asks of the store: to add a
    /// task with it, and nothing where nothing was typed.
    pub fn add_task(&self) -> (action: Action)
        ensures
            action@ == if self@.input.len() > 0 {
                ActionView::Store(RequestView::Add(self@.input))
            } else {
                ActionView::Continue
            },
    {
        if !self.input.as_str().is_empty() {
            Action::Store(Request::Add(self.input.clone()))
        } else {
            Action::Continue
        }
    }

    /// Takes a key: moves the session to its next state and says what is to
    /// be done.
    pub fn handle_key(&mut self, press: KeyPress) -> (action: Action)
        ensures
            (final(self)@, action@) == key_step(old(self)@, press),
            final(self).store() == old(self).store(),
            is_valid(old(self)@) ==> is_valid(final(self)@),
    {
        proof {
            if is_valid(self@) {
                lemma_key_keeps_valid(self@, press);
            }
        }
        match self.mode {
            AppMode::Normal => match press.key {
                Key::Char(c) => {
                    if c == 'q' || (c == 'c' && press.control) {
                        Action::Quit
                    } else if c == 'j' {
                        self.next();
                        Action::Continue
                    } else if c == 'k' {
                        self.previous();
                        Action::Continue
                    } else if c == 'n' {
                        self.mode = AppMode::AddingTask;
                        self.input = String::new();
                        self.error_message = None;
                        Action::Continue
                    } else if c == 'd' {
                        if self.selected.is_some() && self.tasks.len() > 0 {
                            self.mode = AppMode::ConfirmDelete;
                            self.error_message = None;
                        }
                        Action::Continue
                    } else {
                        match status_for_key(c) {
                            Some(status) => self.update_task_status(status),
                            None => if c == 'r' {
                                Action::Store(Request::Reload)
                            } else {
                                Action::Continue
                            },
                        }
                    }
                },
                Key::Down => {
                    self.next();
                    Action::Continue
                },
                Key::Up => {
                    self.previous();
                    Action::Continue
                },
                _ => Action::Continue,
            },
            AppMode::AddingTask => match press.key {
                Key::Enter => self.add_task(),
                Key::Esc => {
                    self.mode = AppMode::Normal;
                    self.input = String::new();
                    self.error_message = None;
                    Action::Continue
                },
                Key::Char(c) => {
                    self.input.push(c);
                    Action::Continue
                },
                Key::Backspace => {
                    let _ = self.input.pop();
                    Action::Continue
                },
                _ => Action::Continue,
            },
            AppMode::ConfirmDelete => match press.key {
                Key::Char(c) => {
                    if c == 'y' || c == 'Y' {
                        let action = self.delete_current_task();
                        self.mode = AppMode::Normal;
                        action
                    } else if c == 'n' || c == 'N' {
                        self.mode = AppMode::Normal;
                        self.error_message = None;
                        Action::Continue
                    } else {
                        Action::Continue
                    }
                },
                Key::Esc => {
                    self.mode = AppMode::Normal;
                    self.error_message = None;
                    Action::Continue
                },
                _ => Action::Continue,
            },
        }
    }

    /// Shows an error: the reason behind a few words of introduction.
    fn show_error(&mut self, intro: &str, why: &str)
        ensures
            final(self)@ == with_error(old(self)@, intro@, why@),
            final(self).store() == old(self).store(),
    {
        let mut message = intro.to_owned();
        message.append(why);
        self.error_message = Some(message);
    }

    /// Takes the outcome of the work that `request` asked for.
    pub fn handle_outcome(&mut self, request: &Request, outcome: Outcome)
        ensures
            final(self)@ == outcome_step(old(self)@, request@, outcome@),
            final(self).store() == old(self).store(),
            is_valid(old(self)@) ==> is_valid(final(self)@),
    {
        proof {
            if is_valid(self@) {
                lemma_outcome_keeps_valid(self@, request@, outcome@);
            }
        }
        match request {
            Request::Add(_) => match outcome {
                Outcome::Reloaded(text) => {
                    self.input = String::new();
                    self.mode = AppMode::Normal;
                    self.reload_tasks(text.as_str());
                    if self.tasks.len() > 0 {
                        self.selected = Some(self.tasks.len() - 1);
                    }
                },
                Outcome::Refused(why) => {
                    self.mode = AppMode::Normal;
                    self.show_error("Error: ", why.as_str());
                },
                Outcome::Unread(why) => {
                    self.input = String::new();
                    self.mode = AppMode::Normal;
                    self.show_error("Error: ", why.as_str());
                },
            },
            Request::Reload => match outcome {
                Outcome::Reloaded(text) => {
                    self.reload_tasks(text.as_str());
                    self.error_message = None;
                },
                Outcome::Refused(why) => {
                    self.show_error("Error reloading: ", why.as_str());
                },
                Outcome::Unread(why) => {
                    self.show_error("Error reloading: ", why.as_str());
                },
            },
            _ => match outcome {
                Outcome::Reloaded(text) => {
                    self.reload_tasks(text.as_str());
                },
                Outcome::Refused(why) => {
                    self.show_error("Error: ", why.as_str());
                },
                Outcome::Unread(why) => {
                    self.show_error("Error: ", why.as_str());
                },
            },
        }
    }
}

} // verus!
