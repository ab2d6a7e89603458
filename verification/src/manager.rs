//! The task store: a path, and the operations that read the text of the
//! backing file and say what text takes its place.

use crate::board::{
    board_of, column_width_for, terminal_columns, Board, MAX_COLUMN_WIDTH, MIN_COLUMN_WIDTH,
};
use crate::clock::{is_timestamp, timestamp_now};
use crate::decimal::{dec_int, format_id};
use crate::store::{
    added_text, current_max_id, deleted_text, has_id, header_line, header_of, keep_lines,
    new_record, push_header, read_header, read_records, records_in, remove_lines, render_store,
    resolve_max_id, scan_lines, scanned_max_id, update_lines, updated_records, updated_text,
};
use crate::task::{task_views, Status, Task, TaskView};
use crate::text::{lines_of, push_chars, rows, split_lines, text_view, to_chars};
use vstd::prelude::*;
use vstd::string::StringExecFns;

verus! {

/// Why a store operation did not take place. Failures to read or replace
/// the backing file arise where the file is handled, not here.
#[derive(Debug, Clone, Copy, PartialEq, Eq, Structural)]
pub enum StoreError {
    /// The description of a new task was empty.
    InvalidInput,
    /// No record has the id that was named.
    NotFound(i32),
}

/// The message that goes with an error.
pub open spec fn error_text(e: StoreError) -> Seq<char> {
    match e {
        StoreError::InvalidInput => "Task description cannot be empty"@,
        StoreError::NotFound(id) => "Task with ID "@ + dec_int(id as int) + " not found"@,
    }
}

impl StoreError {
    /// The message that goes with this error.
    pub fn message(&self) -> (text: String)
        ensures
            text@ == error_text(*self),
    {
        match self {
            StoreError::InvalidInput => "Task description cannot be empty".to_owned(),
            StoreError::NotFound(id) => {
                let mut text = "Task with ID ".to_owned();
                let number = format_id(*id);
                push_chars(&mut text, &number);
                text.append(" not found");
                text
            },
        }
    }
}

/// What `show` has to present.
#[derive(Debug)]
pub enum Listing {
    /// The store holds no task: a notice stands in place of a table.
    Empty,
    /// The flat view: one row for each task, in the order of the file.
    Table(Vec<Task>),
    /// The board view.
    Board(Board),
}

/// The notice that stands for an empty store.
pub const NO_TASKS_NOTICE: &'static str = "No tasks found. Add a task to get started!";

/// Whether `listing` is what `show` presents for the records `records`: the
/// notice for an empty store, else the board of the given column width where
/// the board view is asked for, else the records themselves.
pub open spec fn is_listing_of(
    listing: Listing,
    records: Seq<TaskView>,
    kanban: bool,
    column_width: int,
) -> bool {
    match listing {
        Listing::Empty => records.len() == 0,
        Listing::Table(tasks) => records.len() > 0 && !kanban && task_views(tasks@) == records,
        Listing::Board(board) => records.len() > 0 && kanban && board@ == board_of(
            records,
            column_width,
        ),
    }
}

/// The task store. It holds the path of the backing file and the title of
/// the project, and no open file.
#[derive(Debug)]
pub struct Mngr {
    tasklist_path: String,
    title: Option<String>,
}

impl Mngr {
    /// The path of the backing file.
    pub closed spec fn path_of(&self) -> Seq<char> {
        self.tasklist_path@
    }

    /// The title of the project, if one was given.
    pub closed spec fn title_of(&self) -> Option<Seq<char>> {
        text_view(self.title)
    }

    /// The heading of a listing: the title of the project, or a standing
    /// title where none was given.
    pub open spec fn heading_of(&self) -> Seq<char> {
        "Project: "@ + match self.title_of() {
            Some(t) => t,
            None => "My Tasks"@,
        }
    }

    /// A store for the backing file at `tasklist_path`.
    pub fn new(tasklist_path: String, title: Option<String>) -> (mngr: Self)
        ensures
            mngr.path_of() == tasklist_path@,
            mngr.title_of() == text_view(title),
    {
        Self { tasklist_path, title }
    }

    /// The path of the backing file.
    pub fn tasklist_path(&self) -> (path: &str)
        ensures
            path@ == self.path_of(),
    {
        self.tasklist_path.as_str()
    }

    /// The title of the project, if one was given.
    pub fn title(&self) -> (title: &Option<String>)
        ensures
            text_view(*title) == self.title_of(),
    {
        &self.title
    }

    /// The heading of a listing.
    pub fn heading(&self) -> (text: String)
        ensures
            text@ == self.heading_of(),
    {
        let mut text = "Project: ".to_owned();
        match &self.title {
            Some(t) => text.append(t.as_str()),
            None => text.append("My Tasks"),
        }
        text
    }

    /// What the header of `content` records: the highest id ever allocated
    /// and `true`, or 0 and `false` for a legacy file without a header.
    pub fn read_metadata(&self, content: &str) -> (r: (i32, bool))
        ensures
            match header_of(lines_of(content@)) {
                Some(m) => r.0 == m && r.1,
                None => r.0 == 0 && !r.1,
            },
    {
        let chars = to_chars(content);
        let lines = split_lines(&chars);
        match read_header(&lines) {
            Some(m) => (m, true),
            None => (0, false),
        }
    }

    /// Appends the header line for `max_id`, and a line feed, to `writer`.
    pub fn write_metadata(&self, writer: &mut String, max_id: i32)
        ensures
            final(writer)@ == old(writer)@ + header_line(max_id as int) + seq!['\n'],
    {
        push_header(writer, max_id);
    }

    /// The highest id that stands in a task line of `content`, and 0 if
    /// there is none above it: what stands in for the header of a legacy
    /// file. Every task line counts whose first field is an id, also one
    /// that is cut short and stands for no task.
    pub fn scan_max_id(&self, content: &str) -> (m: i32)
        ensures
            m == scanned_max_id(lines_of(content@)),
    {
        let chars = to_chars(content);
        let lines = split_lines(&chars);
        scan_lines(&lines)
    }

    /// The highest id ever allocated in `content`: the next `add` allocates
    /// the id after it.
    pub fn max_id(&self, content: &str) -> (m: i32)
        ensures
            m == current_max_id(content@),
    {
        let chars = to_chars(content);
        let lines = split_lines(&chars);
        resolve_max_id(&lines)
    }

    /// The records of `content`, in the order of the file. The header, blank
    /// lines and lines that stand for no task are passed over.
    pub fn get_tasks(&self, content: &str) -> (tasks: Vec<Task>)
        ensures
            task_views(tasks@) == records_in(content@),
    {
        let chars = to_chars(content);
        let lines = split_lines(&chars);
        read_records(&lines)
    }

    /// Adds a task with the timestamp `date`. An empty description is
    /// refused, and `content` stays as it is. Otherwise the new record gets
    /// the id after the highest ever allocated, and `content` becomes the
    /// header with that id, the task lines that were there, and the line of
    /// the new record.
    pub fn add_task_at(&self, content: &mut String, description: String, date: String) -> (r:
        Result<Task, StoreError>)
        requires
            description@.len() > 0 ==> current_max_id(old(content)@) < i32::MAX,
        ensures
            match r {
                Ok(t) => {
                    &&& description@.len() > 0
                    &&& t@ == new_record(old(content)@, description@, date@)
                    &&& final(content)@ == added_text(old(content)@, description@, date@)
                },
                Err(e) => {
                    &&& description@.len() == 0
                    &&& e == StoreError::InvalidInput
                    &&& final(content)@ == old(content)@
                },
            },
    {
        if description.as_str().is_empty() {
            return Err(StoreError::InvalidInput);
        }
        let chars = to_chars(content.as_str());
        let lines = split_lines(&chars);
        let max_id = resolve_max_id(&lines);
        let mut kept = keep_lines(&lines);
        let ghost kept_before = rows(kept@);
        let task = Task::new(max_id + 1, Status::NotStarted, description, date);
        let line = to_chars(task.to_file_string().as_str());
        kept.push(line);
        assert(rows(kept@) =~= kept_before.push(line@));
        *content = render_store(max_id + 1, &kept);
        Ok(task)
    }

    /// Adds a task with the present time as its timestamp.
    pub fn add_task(&self, content: &mut String, description: String) -> (r: Result<
        Task,
        StoreError,
    >)
        requires
            description@.len() > 0 ==> current_max_id(old(content)@) < i32::MAX,
        ensures
            match r {
                Ok(t) => {
                    &&& description@.len() > 0
                    &&& is_timestamp(t.date@)
                    &&& t@ == new_record(old(content)@, description@, t.date@)
                    &&& final(content)@ == added_text(old(content)@, description@, t.date@)
                },
                Err(e) => {
                    &&& description@.len() == 0
                    &&& e == StoreError::InvalidInput
                    &&& final(content)@ == old(content)@
                },
            },
    {
        let today = timestamp_now();
        self.add_task_at(content, description, today)
    }

    /// Updates the records with the id `id`, with the timestamp `date`: each
    /// gets the new status and timestamp, and the new description where one
    /// is given. Where no record has that id, `content` stays as it is.
    /// Otherwise the changed records are returned, and the header keeps the
    /// highest id.
    pub fn update_task_at(
        &self,
        content: &mut String,
        id: i32,
        status: Status,
        description: Option<String>,
        date: String,
    ) -> (r: Result<Vec<Task>, StoreError>)
        ensures
            match r {
                Ok(changed) => {
                    &&& has_id(records_in(old(content)@), id as int)
                    &&& task_views(changed@) == updated_records(
                        lines_of(old(content)@),
                        id as int,
                        status,
                        text_view(description),
                        date@,
                    )
                    &&& final(content)@ == updated_text(
                        old(content)@,
                        id as int,
                        status,
                        text_view(description),
                        date@,
                    )
                },
                Err(e) => {
                    &&& !has_id(records_in(old(content)@), id as int)
                    &&& e == StoreError::NotFound(id)
                    &&& final(content)@ == old(content)@
                },
            },
    {
        let chars = to_chars(content.as_str());
        let lines = split_lines(&chars);
        let (updated, changed, found) = update_lines(&lines, id, status, &description, &date);
        if !found {
            return Err(StoreError::NotFound(id));
        }
        let max_id = resolve_max_id(&lines);
        *content = render_store(max_id, &updated);
        Ok(changed)
    }

    /// Updates the records with the id `id`, with the present time as their
    /// timestamp.
    pub fn update_task(
        &self,
        content: &mut String,
        id: i32,
        status: Status,
        description: Option<String>,
    ) -> (r: Result<Vec<Task>, StoreError>)
        ensures
            match r {
                Ok(changed) => {
                    &&& has_id(records_in(old(content)@), id as int)
                    &&& exists|date: Seq<char>|
                        {
                            &&& is_timestamp(date)
                            &&& task_views(changed@) == #[trigger] updated_records(
                                lines_of(old(content)@),
                                id as int,
                                status,
                                text_view(description),
                                date,
                            )
                            &&& final(content)@ == updated_text(
                                old(content)@,
                                id as int,
                                status,
                                text_view(description),
                                date,
                            )
                        }
                },
                Err(e) => {
                    &&& !has_id(records_in(old(content)@), id as int)
                    &&& e == StoreError::NotFound(id)
                    &&& final(content)@ == old(content)@
                },
            },
    {
        let today = timestamp_now();
        let ghost date = today@;
        let r = self.update_task_at(content, id, status, description, today);
        proof {
            if r is Ok {
                assert(r->Ok_0@.len() >= 0);
                assert(task_views(r->Ok_0@) == updated_records(
                    lines_of(old(content)@),
                    id as int,
                    status,
                    text_view(description),
                    date,
                ));
            }
        }
        r
    }

    /// Removes the records with the id `id`. Where no record has that id,
    /// `content` stays as it is. Otherwise the header keeps the highest id:
    /// a delete never lowers it.
    pub fn delete_task(&self, content: &mut String, id: i32) -> (r: Result<(), StoreError>)
        ensures
            match r {
                Ok(_) => {
                    &&& has_id(records_in(old(content)@), id as int)
                    &&& final(content)@ == deleted_text(old(content)@, id as int)
                },
                Err(e) => {
                    &&& !has_id(records_in(old(content)@), id as int)
                    &&& e == StoreError::NotFound(id)
                    &&& final(content)@ == old(content)@
                },
            },
    {
        let chars = to_chars(content.as_str());
        let lines = split_lines(&chars);
        let (remaining, found) = remove_lines(&lines, id);
        if !found {
            return Err(StoreError::NotFound(id));
        }
        let max_id = resolve_max_id(&lines);
        *content = render_store(max_id, &remaining);
        Ok(())
    }

    /// The board of `tasks` on the terminal that the process runs in.
    pub fn display_kanban(&self, tasks: &Vec<Task>) -> (board: Board)
        ensures
            MIN_COLUMN_WIDTH <= board.column_width <= MAX_COLUMN_WIDTH,
            board@ == board_of(task_views(tasks@), board.column_width as int),
    {
        let width = terminal_columns();
        Board::layout(tasks, width)
    }

    /// What `show` presents for `content` on a terminal of the given width.
    pub fn list_tasks_at(&self, content: &str, kanban: bool, terminal_width: Option<u16>) -> (r:
        Listing)
        ensures
            is_listing_of(r, records_in(content@), kanban, column_width_for(terminal_width)),
    {
        let tasks = self.get_tasks(content);
        if tasks.len() == 0 {
            Listing::Empty
        } else if kanban {
            Listing::Board(Board::layout(&tasks, terminal_width))
        } else {
            Listing::Table(tasks)
        }
    }

    /// What `show` presents for `content` on the terminal that the process
    /// runs in.
    pub fn list_tasks(&self, content: &str, kanban: bool) -> (r: Listing)
        ensures
            exists|column_width: int|
                MIN_COLUMN_WIDTH <= column_width <= MAX_COLUMN_WIDTH && #[trigger] is_listing_of(
                    r,
                    records_in(content@),
                    kanban,
                    column_width,
                ),
    {
        let width = terminal_columns();
        let r = self.list_tasks_at(content, kanban, width);
        assert(is_listing_of(r, records_in(content@), kanban, column_width_for(width)));
        r
    }
}

} // verus!
