//! The backing file as a text: its header, its records, and the texts that
//! the three mutations put in its place.

use crate::decimal::{dec_int, format_id, parse_id, read_id};
use crate::task::{
    label_of, parse_chars, parse_current, parse_current_chars, parse_legacy, parse_legacy_chars,
    parse_line, record_line, task_views, Status, Task, TaskView, FIELD_DELIMITER,
    LEGACY_DELIMITER,
};
use crate::text::{
    join_lines, lemma_split_fields, lines_of, push_chars, rows, same_chars, skip_chars, split_chars,
    split_on, starts_with, text_view, to_chars,
};
use vstd::prelude::*;

verus! {

/// Whether a line is a comment: the header is one, and so is every other
/// line that begins with `#`.
pub open spec fn is_comment(line: Seq<char>) -> bool {
    line.len() > 0 && line[0] == '#'
}

/// The text before the number in a header line.
pub open spec fn header_prefix() -> Seq<char> {
    "#max_id="@
}

/// The header line that records `max_id`.
pub open spec fn header_line(max_id: int) -> Seq<char> {
    header_prefix() + dec_int(max_id)
}

/// The number that a header line records, if the line is one.
pub open spec fn header_of_line(line: Seq<char>) -> Option<int> {
    let n = header_prefix().len() as int;
    if line.len() >= n && line.take(n) == header_prefix() {
        parse_id(line.skip(n))
    } else {
        None
    }
}

/// The highest id ever allocated, as the first line of the file records it.
/// A file without such a first line is a legacy file.
pub open spec fn header_of(lines: Seq<Seq<char>>) -> Option<int> {
    if lines.len() == 0 {
        None
    } else {
        header_of_line(lines[0])
    }
}

/// The records that the lines hold, in order. Comments are passed over, and
/// so is every line that stands for no task.
pub open spec fn records_of(lines: Seq<Seq<char>>) -> Seq<TaskView>
    decreases lines.len(),
{
    if lines.len() == 0 {
        Seq::<TaskView>::empty()
    } else {
        let before = records_of(lines.drop_last());
        if is_comment(lines.last()) {
            before
        } else {
            match parse_line(lines.last()) {
                Some(t) => before.push(t),
                None => before,
            }
        }
    }
}

/// Whether a line is a task line: it is neither empty nor a comment. Task
/// lines survive a rewrite of the file, also those that stand for no task.
pub open spec fn is_task_line(line: Seq<char>) -> bool {
    line.len() > 0 && !is_comment(line)
}

/// The id field of a line: its first field where that is an id, the fields
/// taken with tabs between them, and else with commas. A line has an id
/// field whether or not the fields behind it make a whole record.
pub open spec fn id_field(line: Seq<char>) -> Option<int> {
    match parse_id(split_on(line, '\t')[0]) {
        Some(id) => Some(id),
        None => parse_id(split_on(line, ',')[0]),
    }
}

/// The id that stands in a line of the file: the id field of a task line.
pub open spec fn line_id(line: Seq<char>) -> Option<int> {
    if is_task_line(line) {
        id_field(line)
    } else {
        None
    }
}

/// The highest id that stands in a task line, and 0 if there is none above
/// it.
pub open spec fn scanned_max_id(lines: Seq<Seq<char>>) -> int
    decreases lines.len(),
{
    if lines.len() == 0 {
        0
    } else {
        let before = scanned_max_id(lines.drop_last());
        match line_id(lines.last()) {
            Some(id) => if id > before {
                id
            } else {
                before
            },
            None => before,
        }
    }
}

/// The highest id ever allocated: what the header records, and for a legacy
/// file the highest id that stands in one of its task lines.
pub open spec fn max_id_in(lines: Seq<Seq<char>>) -> int {
    match header_of(lines) {
        Some(m) => m,
        None => scanned_max_id(lines),
    }
}

/// Whether one of `records` has the id `id`.
pub open spec fn has_id(records: Seq<TaskView>, id: int) -> bool {
    exists|i: int| 0 <= i < records.len() && (#[trigger] records[i]).id == id
}

/// Whether a line in the older format can be written in the current one
/// with nothing lost: it has no more fields than a record has, its id is in
/// plain notation, and its status token is a label.
pub open spec fn is_plain_legacy(line: Seq<char>) -> bool {
    let fields = split_on(line, ',');
    &&& parse_current(line) is None
    &&& parse_legacy(line) is Some
    &&& fields.len() <= 4
    &&& dec_int(parse_legacy(line)->0.id) == fields[0]
    &&& label_of(parse_legacy(line)->0.status) == fields[1]
}

/// A task line as a rewrite puts it down: a line in the older format is
/// written anew in the current one where nothing is lost by that, every
/// other line is left as it is.
pub open spec fn migrated(line: Seq<char>) -> Seq<char> {
    if is_plain_legacy(line) {
        record_line(parse_legacy(line)->0)
    } else {
        line
    }
}

/// The task lines among `lines`, each as a rewrite puts it down.
pub open spec fn kept_lines(lines: Seq<Seq<char>>) -> Seq<Seq<char>>
    decreases lines.len(),
{
    if lines.len() == 0 {
        Seq::<Seq<char>>::empty()
    } else {
        let before = kept_lines(lines.drop_last());
        if is_task_line(lines.last()) {
            before.push(migrated(lines.last()))
        } else {
            before
        }
    }
}

/// The text of a store: the header line, then the given lines.
pub open spec fn store_text(max_id: int, lines: Seq<Seq<char>>) -> Seq<char> {
    join_lines(seq![header_line(max_id)] + lines)
}

/// The records of a store's text.
pub open spec fn records_in(text: Seq<char>) -> Seq<TaskView> {
    records_of(lines_of(text))
}

/// The highest id ever allocated in a store's text.
pub open spec fn current_max_id(text: Seq<char>) -> int {
    max_id_in(lines_of(text))
}

/// The record that `add` creates.
pub open spec fn new_record(text: Seq<char>, description: Seq<char>, date: Seq<char>) -> TaskView {
    TaskView { id: current_max_id(text) + 1, status: Status::NotStarted, description, date }
}

/// The text after `add`: the header with the new id, the task lines that
/// were there, and the line of the new record.
pub open spec fn added_text(text: Seq<char>, description: Seq<char>, date: Seq<char>) -> Seq<
    char,
> {
    let t = new_record(text, description, date);
    store_text(t.id, kept_lines(lines_of(text)).push(record_line(t)))
}

/// What `update` makes of a record: the new status and timestamp, and the
/// new description where one is given.
pub open spec fn updated_record(
    t: TaskView,
    status: Status,
    description: Option<Seq<char>>,
    date: Seq<char>,
) -> TaskView {
    TaskView {
        id: t.id,
        status,
        description: match description {
            Some(d) => d,
            None => t.description,
        },
        date,
    }
}

/// Whether a line stands for a task with the id `id`.
pub open spec fn line_has_id(line: Seq<char>, id: int) -> bool {
    !is_comment(line) && parse_line(line) is Some && parse_line(line)->0.id == id
}

/// The task lines after `update`: a line that stands for a task with the
/// given id is replaced by the line of the updated record.
pub open spec fn updated_lines(
    lines: Seq<Seq<char>>,
    id: int,
    status: Status,
    description: Option<Seq<char>>,
    date: Seq<char>,
) -> Seq<Seq<char>>
    decreases lines.len(),
{
    if lines.len() == 0 {
        Seq::<Seq<char>>::empty()
    } else {
        let before = updated_lines(lines.drop_last(), id, status, description, date);
        let line = lines.last();
        if line_has_id(line, id) {
            before.push(record_line(updated_record(parse_line(line)->0, status, description, date)))
        } else if is_task_line(line) {
            before.push(migrated(line))
        } else {
            before
        }
    }
}

/// The records that `update` has changed, as they are afterwards.
pub open spec fn updated_records(
    lines: Seq<Seq<char>>,
    id: int,
    status: Status,
    description: Option<Seq<char>>,
    date: Seq<char>,
) -> Seq<TaskView>
    decreases lines.len(),
{
    if lines.len() == 0 {
        Seq::<TaskView>::empty()
    } else {
        let before = updated_records(lines.drop_last(), id, status, description, date);
        let line = lines.last();
        if line_has_id(line, id) {
            before.push(updated_record(parse_line(line)->0, status, description, date))
        } else {
            before
        }
    }
}

/// The text after a successful `update`. The header keeps the highest id.
pub open spec fn updated_text(
    text: Seq<char>,
    id: int,
    status: Status,
    description: Option<Seq<char>>,
    date: Seq<char>,
) -> Seq<char> {
    store_text(
        current_max_id(text),
        updated_lines(lines_of(text), id, status, description, date),
    )
}

/// The task lines after `delete`: those that stand for a task with the given
/// id are gone.
pub open spec fn remaining_lines(lines: Seq<Seq<char>>, id: int) -> Seq<Seq<char>>
    decreases lines.len(),
{
    if lines.len() == 0 {
        Seq::<Seq<char>>::empty()
    } else {
        let before = remaining_lines(lines.drop_last(), id);
        let line = lines.last();
        if is_task_line(line) && !line_has_id(line, id) {
            before.push(migrated(line))
        } else {
            before
        }
    }
}

/// The text after a successful `delete`. The header keeps the highest id.
pub open spec fn deleted_text(text: Seq<char>, id: int) -> Seq<char> {
    store_text(current_max_id(text), remaining_lines(lines_of(text), id))
}

/// One more line adds its record's id to those that are present.
pub proof fn lemma_has_id_step(lines: Seq<Seq<char>>, id: int)
    requires
        lines.len() > 0,
    ensures
        has_id(records_of(lines), id) == (has_id(records_of(lines.drop_last()), id) || line_has_id(
            lines.last(),
            id,
        )),
{
    let before = records_of(lines.drop_last());
    let after = records_of(lines);
    if !is_comment(lines.last()) && parse_line(lines.last()) is Some {
        let t = parse_line(lines.last())->0;
        assert(after == before.push(t));
        if has_id(before, id) {
            let k = choose|k: int| 0 <= k < before.len() && (#[trigger] before[k]).id == id;
            assert(after[k].id == id);
        }
        if t.id == id {
            assert(after[after.len() - 1].id == id);
        }
        if has_id(after, id) {
            let k = choose|k: int| 0 <= k < after.len() && (#[trigger] after[k]).id == id;
            if k < before.len() {
                assert(before[k].id == id);
            }
        }
    }
}

/// Whether a line is a comment.
pub fn line_is_comment(line: &Vec<char>) -> (r: bool)
    ensures
        r == is_comment(line@),
{
    line.len() > 0 && line[0] == '#'
}

/// The number that the first line records, if it is a header.
pub fn read_header(lines: &Vec<Vec<char>>) -> (r: Option<i32>)
    ensures
        match r {
            Some(m) => header_of(rows(lines@)) == Some(m as int),
            None => header_of(rows(lines@)) is None,
        },
{
    if lines.len() == 0 {
        return None;
    }
    assert(rows(lines@)[0] == lines@[0]@);
    let prefix = to_chars("#max_id=");
    if starts_with(&lines[0], &prefix) {
        let rest = skip_chars(&lines[0], prefix.len());
        read_id(&rest)
    } else {
        None
    }
}

/// The records that the lines hold.
pub fn read_records(lines: &Vec<Vec<char>>) -> (tasks: Vec<Task>)
    ensures
        task_views(tasks@) == records_of(rows(lines@)),
{
    let mut tasks: Vec<Task> = Vec::new();
    let mut i: usize = 0;
    assert(rows(lines@).take(0) =~= Seq::<Seq<char>>::empty());
    assert(task_views(tasks@) =~= records_of(rows(lines@).take(0)));
    while i < lines.len()
        invariant
            i <= lines.len(),
            task_views(tasks@) == records_of(rows(lines@).take(i as int)),
        decreases lines.len() - i,
    {
        let ghost before = task_views(tasks@);
        proof {
            let next = rows(lines@).take(i + 1);
            assert(next.drop_last() =~= rows(lines@).take(i as int));
            assert(next.last() == lines@[i as int]@);
        }
        if !line_is_comment(&lines[i]) {
            match parse_chars(&lines[i]) {
                Some(t) => {
                    tasks.push(t);
                    assert(task_views(tasks@) =~= before.push(t@));
                },
                None => {},
            }
        }
        i += 1;
    }
    assert(rows(lines@).take(i as int) =~= rows(lines@));
    tasks
}

/// The id field of a line.
pub fn read_id_field(line: &Vec<char>) -> (r: Option<i32>)
    ensures
        match r {
            Some(id) => id_field(line@) == Some(id as int),
            None => id_field(line@) is None,
        },
{
    proof {
        lemma_split_fields(line@, '\t');
        lemma_split_fields(line@, ',');
    }
    let fields = split_chars(line, FIELD_DELIMITER);
    assert(rows(fields@)[0] == fields@[0]@);
    match read_id(&fields[0]) {
        Some(id) => Some(id),
        None => {
            let older = split_chars(line, LEGACY_DELIMITER);
            assert(rows(older@)[0] == older@[0]@);
            read_id(&older[0])
        },
    }
}

/// The highest id that stands in a task line, and 0 if there is none above
/// it.
pub fn scan_lines(lines: &Vec<Vec<char>>) -> (m: i32)
    ensures
        m == scanned_max_id(rows(lines@)),
{
    let mut m: i32 = 0;
    let mut i: usize = 0;
    assert(rows(lines@).take(0) =~= Seq::<Seq<char>>::empty());
    while i < lines.len()
        invariant
            i <= lines.len(),
            m == scanned_max_id(rows(lines@).take(i as int)),
        decreases lines.len() - i,
    {
        proof {
            let next = rows(lines@).take(i + 1);
            assert(next.drop_last() =~= rows(lines@).take(i as int));
            assert(next.last() == lines@[i as int]@);
        }
        if line_is_task_line(&lines[i]) {
            match read_id_field(&lines[i]) {
                Some(id) => {
                    if id > m {
                        m = id;
                    }
                },
                None => {},
            }
        }
        i += 1;
    }
    assert(rows(lines@).take(i as int) =~= rows(lines@));
    m
}

/// The highest id ever allocated, from the header or else from the task
/// lines.
pub fn resolve_max_id(lines: &Vec<Vec<char>>) -> (m: i32)
    ensures
        m == max_id_in(rows(lines@)),
{
    match read_header(lines) {
        Some(m) => m,
        None => scan_lines(lines),
    }
}

/// Whether a line is a task line.
pub fn line_is_task_line(line: &Vec<char>) -> (r: bool)
    ensures
        r == is_task_line(line@),
{
    line.len() > 0 && line[0] != '#'
}

/// A task line as a rewrite puts it down.
pub fn migrate(line: &Vec<char>) -> (out: Vec<char>)
    ensures
        out@ == migrated(line@),
{
    match parse_current_chars(line) {
        Some(_) => line.clone(),
        None => match parse_legacy_chars(line) {
            Some(t) => {
                let fields = split_chars(line, LEGACY_DELIMITER);
                assert(fields.len() >= 3);
                assert(rows(fields@)[0] == fields@[0]@);
                assert(rows(fields@)[1] == fields@[1]@);
                let number = format_id(t.id);
                let label = to_chars(t.status.as_label());
                if fields.len() <= 4 && same_chars(&number, &fields[0]) && same_chars(
                    &label,
                    &fields[1],
                ) {
                    to_chars(t.to_file_string().as_str())
                } else {
                    line.clone()
                }
            },
            None => line.clone(),
        },
    }
}

/// The task lines among `lines`, each as a rewrite puts it down.
pub fn keep_lines(lines: &Vec<Vec<char>>) -> (out: Vec<Vec<char>>)
    ensures
        rows(out@) == kept_lines(rows(lines@)),
{
    let mut out: Vec<Vec<char>> = Vec::new();
    let mut i: usize = 0;
    assert(rows(lines@).take(0) =~= Seq::<Seq<char>>::empty());
    assert(rows(out@) =~= kept_lines(rows(lines@).take(0)));
    while i < lines.len()
        invariant
            i <= lines.len(),
            rows(out@) == kept_lines(rows(lines@).take(i as int)),
        decreases lines.len() - i,
    {
        let ghost before = rows(out@);
        proof {
            let next = rows(lines@).take(i + 1);
            assert(next.drop_last() =~= rows(lines@).take(i as int));
            assert(next.last() == lines@[i as int]@);
        }
        if line_is_task_line(&lines[i]) {
            let line = migrate(&lines[i]);
            out.push(line);
            assert(rows(out@) =~= before.push(line@));
        }
        i += 1;
    }
    assert(rows(lines@).take(i as int) =~= rows(lines@));
    out
}

/// The task lines after `update`, and the records that it has changed.
pub fn update_lines(
    lines: &Vec<Vec<char>>,
    id: i32,
    status: Status,
    description: &Option<String>,
    date: &String,
) -> (r: (Vec<Vec<char>>, Vec<Task>, bool))
    ensures
        r.2 == has_id(records_of(rows(lines@)), id as int),
        rows(r.0@) == updated_lines(
            rows(lines@),
            id as int,
            status,
            text_view(*description),
            date@,
        ),
        task_views(r.1@) == updated_records(
            rows(lines@),
            id as int,
            status,
            text_view(*description),
            date@,
        ),
{
    let mut out: Vec<Vec<char>> = Vec::new();
    let mut changed: Vec<Task> = Vec::new();
    let mut found: bool = false;
    let mut i: usize = 0;
    let ghost d = text_view(*description);
    assert(rows(lines@).take(0) =~= Seq::<Seq<char>>::empty());
    assert(rows(out@) =~= updated_lines(rows(lines@).take(0), id as int, status, d, date@));
    assert(task_views(changed@) =~= updated_records(
        rows(lines@).take(0),
        id as int,
        status,
        d,
        date@,
    ));
    while i < lines.len()
        invariant
            i <= lines.len(),
            d == text_view(*description),
            found == has_id(records_of(rows(lines@).take(i as int)), id as int),
            rows(out@) == updated_lines(rows(lines@).take(i as int), id as int, status, d, date@),
            task_views(changed@) == updated_records(
                rows(lines@).take(i as int),
                id as int,
                status,
                d,
                date@,
            ),
        decreases lines.len() - i,
    {
        let ghost before = rows(out@);
        let ghost changed_before = task_views(changed@);
        proof {
            let next = rows(lines@).take(i + 1);
            assert(next.drop_last() =~= rows(lines@).take(i as int));
            assert(next.last() == lines@[i as int]@);
            lemma_has_id_step(next, id as int);
        }
        let mut replaced: bool = false;
        if !line_is_comment(&lines[i]) {
            match parse_chars(&lines[i]) {
                Some(t) => {
                    if t.id == id {
                        let text = match description {
                            Some(given) => given.clone(),
                            None => t.description,
                        };
                        let task = Task { id, status, description: text, date: date.clone() };
                        let line = to_chars(task.to_file_string().as_str());
                        out.push(line);
                        assert(rows(out@) =~= before.push(line@));
                        changed.push(task);
                        assert(task_views(changed@) =~= changed_before.push(task@));
                        replaced = true;
                        found = true;
                    }
                },
                None => {},
            }
        }
        if !replaced && line_is_task_line(&lines[i]) {
            let line = migrate(&lines[i]);
            out.push(line);
            assert(rows(out@) =~= before.push(line@));
        }
        i += 1;
    }
    assert(rows(lines@).take(i as int) =~= rows(lines@));
    (out, changed, found)
}

/// The task lines after `delete`, and whether a line was removed.
pub fn remove_lines(lines: &Vec<Vec<char>>, id: i32) -> (r: (Vec<Vec<char>>, bool))
    ensures
        rows(r.0@) == remaining_lines(rows(lines@), id as int),
        r.1 == has_id(records_of(rows(lines@)), id as int),
{
    let mut out: Vec<Vec<char>> = Vec::new();
    let mut found: bool = false;
    let mut i: usize = 0;
    assert(rows(lines@).take(0) =~= Seq::<Seq<char>>::empty());
    assert(rows(out@) =~= remaining_lines(rows(lines@).take(0), id as int));
    while i < lines.len()
        invariant
            i <= lines.len(),
            rows(out@) == remaining_lines(rows(lines@).take(i as int), id as int),
            found == has_id(records_of(rows(lines@).take(i as int)), id as int),
        decreases lines.len() - i,
    {
        let ghost before = rows(out@);
        let ghost prefix = rows(lines@).take(i as int);
        let ghost next = rows(lines@).take(i + 1);
        proof {
            assert(next.drop_last() =~= prefix);
            assert(next.last() == lines@[i as int]@);
            lemma_has_id_step(next, id as int);
        }
        let mut matches: bool = false;
        if !line_is_comment(&lines[i]) {
            match parse_chars(&lines[i]) {
                Some(t) => {
                    if t.id == id {
                        matches = true;
                    }
                },
                None => {},
            }
        }
        if matches {
            found = true;
        } else if line_is_task_line(&lines[i]) {
            let line = migrate(&lines[i]);
            out.push(line);
            assert(rows(out@) =~= before.push(line@));
        }
        i += 1;
    }
    assert(rows(lines@).take(i as int) =~= rows(lines@));
    (out, found)
}

/// Appends the header line for `max_id`, and a line feed, to `out`.
pub fn push_header(out: &mut String, max_id: i32)
    ensures
        final(out)@ == old(out)@ + header_line(max_id as int) + seq!['\n'],
{
    let prefix = to_chars("#max_id=");
    push_chars(out, &prefix);
    let number = format_id(max_id);
    push_chars(out, &number);
    out.push('\n');
    assert(out@ =~= old(out)@ + header_line(max_id as int) + seq!['\n']);
}

/// The text of a store with the header for `max_id` and the given lines.
pub fn render_store(max_id: i32, lines: &Vec<Vec<char>>) -> (out: String)
    ensures
        out@ == store_text(max_id as int, rows(lines@)),
{
    let mut out = String::new();
    push_header(&mut out, max_id);
    let ghost all = seq![header_line(max_id as int)] + rows(lines@);
    proof {
        assert(all.take(1) =~= seq![header_line(max_id as int)]);
        assert(all.take(1).drop_last() =~= Seq::<Seq<char>>::empty());
        assert(join_lines(all.take(1).drop_last()) =~= Seq::<char>::empty());
        assert(out@ =~= join_lines(all.take(1)));
    }
    let mut i: usize = 0;
    while i < lines.len()
        invariant
            i <= lines.len(),
            all == seq![header_line(max_id as int)] + rows(lines@),
            out@ == join_lines(all.take(i + 1)),
        decreases lines.len() - i,
    {
        push_chars(&mut out, &lines[i]);
        out.push('\n');
        i += 1;
        proof {
            let next = all.take(i + 1);
            assert(next.drop_last() =~= all.take(i as int));
            assert(next.last() == lines@[i - 1]@);
            assert(out@ =~= join_lines(next));
        }
    }
    assert(all.take(i + 1) =~= all);
    out
}

} // verus!
