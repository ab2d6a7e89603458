//! Tasks, their statuses, and the line that stands for a task in the
//! backing file.

use crate::decimal::{
    dec_int, format_id, is_digit, lemma_dec_int_chars, lemma_parse_dec_int, parse_id, read_id,
};
use crate::text::{
    has_char, lemma_split_concat, lemma_split_fields, lemma_split_push_field, lemma_split_single,
    push_chars, rows, same_chars, split_chars, split_on, to_chars, to_string,
};
use vstd::string::StringExecFns;
use vstd::prelude::*;

verus! {

/// How far a task has come.
#[derive(Debug, Clone, Copy, PartialEq, Eq, Hash, Structural)]
pub enum Status {
    NotStarted,
    InProgress,
    Done,
}

/// The delimiter between the fields of a record.
pub const FIELD_DELIMITER: char = '\t';

/// The delimiter that older files used.
pub const LEGACY_DELIMITER: char = ',';

/// The label of a status: the token that is stored and the text that is
/// shown.
pub open spec fn label_of(status: Status) -> Seq<char> {
    match status {
        Status::Done => "✅ Done"@,
        Status::InProgress => "⏳ In Progress"@,
        Status::NotStarted => "🚀 Not Started"@,
    }
}

/// The status that a token stands for. A token that is no label stands for
/// `NotStarted`.
pub open spec fn status_of(token: Seq<char>) -> Status {
    if token == label_of(Status::Done) {
        Status::Done
    } else if token == label_of(Status::InProgress) {
        Status::InProgress
    } else {
        Status::NotStarted
    }
}

/// The three labels differ, and none holds a delimiter or a line break.
pub proof fn lemma_labels(status: Status)
    ensures
        status_of(label_of(status)) == status,
        !label_of(status).contains('\t'),
        !label_of(status).contains(','),
        !label_of(status).contains('\n'),
        !label_of(status).contains('\r'),
        label_of(status).len() <= 14,
{
    reveal_strlit("✅ Done");
    reveal_strlit("⏳ In Progress");
    reveal_strlit("🚀 Not Started");
    assert(label_of(Status::Done).len() == 6);
    assert(label_of(Status::InProgress).len() == 13);
    assert(label_of(Status::NotStarted).len() == 13);
    assert(label_of(Status::InProgress)[0] != label_of(Status::NotStarted)[0]);
}

impl Status {
    pub const DONE_LABEL: &'static str = "✅ Done";

    pub const IN_PROGRESS_LABEL: &'static str = "⏳ In Progress";

    pub const NOT_STARTED_LABEL: &'static str = "🚀 Not Started";

    /// The status that the token `s` stands for.
    pub fn from_str(s: &str) -> (status: Status)
        ensures
            status == status_of(s@),
    {
        let token = to_chars(s);
        Status::from_chars(&token)
    }

    /// The status that the characters of a field stand for.
    pub fn from_chars(token: &Vec<char>) -> (status: Status)
        ensures
            status == status_of(token@),
    {
        let done = to_chars(Self::DONE_LABEL);
        let in_progress = to_chars(Self::IN_PROGRESS_LABEL);
        if same_chars(token, &done) {
            Status::Done
        } else if same_chars(token, &in_progress) {
            Status::InProgress
        } else {
            Status::NotStarted
        }
    }

    /// The label of this status.
    pub fn as_label(&self) -> (label: &'static str)
        ensures
            label@ == label_of(*self),
    {
        match self {
            Status::Done => Self::DONE_LABEL,
            Status::InProgress => Self::IN_PROGRESS_LABEL,
            Status::NotStarted => Self::NOT_STARTED_LABEL,
        }
    }

    /// The label of this status, as an owned string.
    pub fn to_string(&self) -> (text: String)
        ensures
            text@ == label_of(*self),
    {
        self.as_label().to_owned()
    }
}

/// One entry of the store.
#[derive(Debug, PartialEq, Eq)]
pub struct Task {
    pub id: i32,
    pub status: Status,
    pub description: String,
    pub date: String,
}

/// A task as a mathematical value.
pub struct TaskView {
    pub id: int,
    pub status: Status,
    pub description: Seq<char>,
    pub date: Seq<char>,
}

impl View for Task {
    type V = TaskView;

    open spec fn view(&self) -> TaskView {
        TaskView {
            id: self.id as int,
            status: self.status,
            description: self.description@,
            date: self.date@,
        }
    }
}

/// The views of the tasks of a vector, in order.
pub open spec fn task_views(tasks: Seq<Task>) -> Seq<TaskView> {
    Seq::new(tasks.len(), |i: int| tasks[i]@)
}

/// The line that stands for a task in the backing file: id, label,
/// description and timestamp, with a tab between them.
pub open spec fn record_line(t: TaskView) -> Seq<char> {
    dec_int(t.id) + seq!['\t'] + label_of(t.status) + seq!['\t'] + t.description + seq!['\t']
        + t.date
}

/// The task that a line's fields stand for. There must be at least three
/// fields, and the first must be an id. A fourth field is the timestamp;
/// further fields are not read.
pub open spec fn record_of_fields(fields: Seq<Seq<char>>) -> Option<TaskView> {
    if fields.len() >= 3 {
        match parse_id(fields[0]) {
            Some(id) => Some(
                TaskView {
                    id,
                    status: status_of(fields[1]),
                    description: fields[2],
                    date: if fields.len() > 3 {
                        fields[3]
                    } else {
                        Seq::<char>::empty()
                    },
                },
            ),
            None => None,
        }
    } else {
        None
    }
}

/// The task that a line stands for in the current format, with tabs between
/// the fields.
pub open spec fn parse_current(line: Seq<char>) -> Option<TaskView> {
    record_of_fields(split_on(line, '\t'))
}

/// The task that a line stands for in the older format, with commas between
/// the fields. A line with a tab in it is never read in this format: its
/// fields could not be written in the current one.
pub open spec fn parse_legacy(line: Seq<char>) -> Option<TaskView> {
    if line.contains('\t') {
        None
    } else {
        record_of_fields(split_on(line, ','))
    }
}

/// The task that a line stands for, if any. The formats are tried in a fixed
/// order, the current one first, then the older one; the first that gives a
/// task decides.
pub open spec fn parse_line(line: Seq<char>) -> Option<TaskView> {
    match parse_current(line) {
        Some(t) => Some(t),
        None => parse_legacy(line),
    }
}

/// Text padded with spaces on the right to at least `width` characters.
pub open spec fn pad_right(s: Seq<char>, width: nat) -> Seq<char> {
    if s.len() >= width {
        s
    } else {
        s + Seq::new((width - s.len()) as nat, |i: int| ' ')
    }
}

/// The one-line notice for a task: id, label and description in columns of
/// 4, 14 and 256 characters, with a bar between them.
pub open spec fn display_line(t: TaskView) -> Seq<char> {
    pad_right(dec_int(t.id), 4) + seq![' ', '|', ' '] + pad_right(label_of(t.status), 14) + seq![
        ' ',
        '|',
        ' ',
    ] + pad_right(t.description, 256)
}

/// The fields of a written record begin with the id, the label and the
/// description that were written, provided that the description holds no
/// tab; the fields of the timestamp follow.
pub proof fn lemma_record_fields(t: TaskView)
    requires
        !t.description.contains('\t'),
    ensures
        split_on(record_line(t), '\t') == seq![dec_int(t.id), label_of(t.status), t.description]
            + split_on(t.date, '\t'),
{
    let id = dec_int(t.id);
    let label = label_of(t.status);
    lemma_dec_int_chars(t.id);
    lemma_labels(t.status);
    assert(!id.contains('\t')) by {
        if id.contains('\t') {
            let k = choose|k: int| 0 <= k < id.len() && id[k] == '\t';
            assert(is_digit(id[k]) || id[k] == '-');
        }
    }
    lemma_split_single(id, '\t');
    lemma_split_push_field(id, label, '\t');
    lemma_split_push_field(id + seq!['\t'] + label, t.description, '\t');
    lemma_split_concat(id + seq!['\t'] + label + seq!['\t'] + t.description, t.date, '\t');
    assert(seq![id].push(label).push(t.description) =~= seq![id, label, t.description]);
}

/// A written record, read back, has the id, the status and the description
/// that were written, whenever the description holds no tab. Where the
/// timestamp holds none either, the whole record is read back.
pub proof fn lemma_record_round_trip(t: TaskView)
    requires
        i32::MIN <= t.id <= i32::MAX,
        !t.description.contains('\t'),
    ensures
        parse_line(record_line(t)) == parse_current(record_line(t)),
        parse_line(record_line(t)) is Some,
        parse_line(record_line(t))->0.id == t.id,
        parse_line(record_line(t))->0.status == t.status,
        parse_line(record_line(t))->0.description == t.description,
        !t.date.contains('\t') ==> parse_line(record_line(t)) == Some(t),
{
    lemma_record_fields(t);
    lemma_parse_dec_int(t.id);
    lemma_labels(t.status);
    lemma_split_fields(t.date, '\t');
    if !t.date.contains('\t') {
        lemma_split_single(t.date, '\t');
    }
}

impl Task {
    /// A task with the given fields.
    pub fn new(id: i32, status: Status, description: String, date: String) -> (task: Task)
        ensures
            task.id == id,
            task.status == status,
            task.description == description,
            task.date == date,
    {
        Task { id, status, description, date }
    }

    /// The line that stands for the task in the backing file.
    pub fn to_file_string(&self) -> (line: String)
        ensures
            line@ == record_line(self@),
    {
        let mut line = String::new();
        let id = format_id(self.id);
        push_chars(&mut line, &id);
        line.push('\t');
        line.append(self.status.as_label());
        line.push('\t');
        line.append(self.description.as_str());
        line.push('\t');
        line.append(self.date.as_str());
        assert(line@ =~= record_line(self@));
        line
    }

    /// Appends the task's line and a line feed to `writer`.
    pub fn write_to(&self, writer: &mut String)
        ensures
            final(writer)@ == old(writer)@ + record_line(self@) + seq!['\n'],
    {
        let line = self.to_file_string();
        writer.append(line.as_str());
        writer.push('\n');
        assert(writer@ =~= old(writer)@ + record_line(self@) + seq!['\n']);
    }

    /// The one-line notice for the task.
    pub fn to_string(&self) -> (text: String)
        ensures
            text@ == display_line(self@),
    {
        let mut text = String::new();
        let id = format_id(self.id);
        push_padded(&mut text, &id, 4);
        text.append(" | ");
        let label = to_chars(self.status.as_label());
        push_padded(&mut text, &label, 14);
        text.append(" | ");
        let description = to_chars(self.description.as_str());
        push_padded(&mut text, &description, 256);
        proof {
            reveal_strlit(" | ");
            assert(" | "@ =~= seq![' ', '|', ' ']);
            assert(text@ =~= display_line(self@));
        }
        text
    }
}

/// Appends `chars` to `out`, and spaces up to `width` characters.
fn push_padded(out: &mut String, chars: &Vec<char>, width: usize)
    ensures
        final(out)@ == old(out)@ + pad_right(chars@, width as nat),
{
    push_chars(out, chars);
    let mut n: usize = chars.len();
    while n < width
        invariant
            chars.len() <= n,
            chars.len() < width ==> n <= width,
            chars.len() >= width ==> n == chars.len(),
            out@ == old(out)@ + chars@ + Seq::new((n - chars.len()) as nat, |i: int| ' '),
        decreases width - n,
    {
        out.push(' ');
        n += 1;
        assert(Seq::new((n - chars.len()) as nat, |i: int| ' ') =~= Seq::new(
            (n - 1 - chars.len()) as nat,
            |i: int| ' ',
        ).push(' '));
    }
    assert(out@ =~= old(out)@ + pad_right(chars@, width as nat)) by {
        if chars.len() >= width {
            assert(Seq::new((n - chars.len()) as nat, |i: int| ' ') =~= Seq::<char>::empty());
        }
    }
}

/// The task that a line's fields stand for.
fn task_of_fields(fields: &Vec<Vec<char>>) -> (r: Option<Task>)
    ensures
        match r {
            Some(t) => record_of_fields(rows(fields@)) == Some(t@),
            None => record_of_fields(rows(fields@)) is None,
        },
{
    if fields.len() < 3 {
        return None;
    }
    assert(rows(fields@)[0] == fields@[0]@);
    assert(rows(fields@)[1] == fields@[1]@);
    assert(rows(fields@)[2] == fields@[2]@);
    match read_id(&fields[0]) {
        Some(id) => {
            let status = Status::from_chars(&fields[1]);
            let description = to_string(&fields[2]);
            let date = if fields.len() > 3 {
                assert(rows(fields@)[3] == fields@[3]@);
                to_string(&fields[3])
            } else {
                String::new()
            };
            Some(Task { id, status, description, date })
        },
        None => None,
    }
}

/// The task that the characters of a line stand for in the current format.
pub fn parse_current_chars(line: &Vec<char>) -> (r: Option<Task>)
    ensures
        match r {
            Some(t) => parse_current(line@) == Some(t@),
            None => parse_current(line@) is None,
        },
{
    let fields = split_chars(line, FIELD_DELIMITER);
    task_of_fields(&fields)
}

/// The task that the characters of a line stand for in the older format.
pub fn parse_legacy_chars(line: &Vec<char>) -> (r: Option<Task>)
    ensures
        match r {
            Some(t) => parse_legacy(line@) == Some(t@),
            None => parse_legacy(line@) is None,
        },
{
    if has_char(line, FIELD_DELIMITER) {
        None
    } else {
        let fields = split_chars(line, LEGACY_DELIMITER);
        task_of_fields(&fields)
    }
}

/// The task that the characters of a line stand for, if any.
pub fn parse_chars(line: &Vec<char>) -> (r: Option<Task>)
    ensures
        match r {
            Some(t) => parse_line(line@) == Some(t@),
            None => parse_line(line@) is None,
        },
{
    match parse_current_chars(line) {
        Some(t) => Some(t),
        None => parse_legacy_chars(line),
    }
}

/// The task that a line of the backing file stands for, if any.
pub fn parse_line_text(line: &str) -> (r: Option<Task>)
    ensures
        match r {
            Some(t) => parse_line(line@) == Some(t@),
            None => parse_line(line@) is None,
        },
{
    let chars = to_chars(line);
    parse_chars(&chars)
}

} // verus!
