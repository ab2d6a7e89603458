//! What holds of the store across its operations: what a rewrite keeps, what
//! is read back after each mutation, and how the highest id moves.

use crate::clock::{is_timestamp, is_timestamp_char};
use crate::decimal::{
    dec_int, is_digit, lemma_dec_int_chars, lemma_parse_dec_int, lemma_parsed_chars, parse_int,
};
use crate::store::{
    added_text, current_max_id, deleted_text, has_id, header_line, header_of, header_of_line,
    header_prefix, id_field, is_comment, is_plain_legacy, is_task_line, kept_lines, line_has_id,
    line_id, max_id_in, migrated, new_record, records_in, records_of, remaining_lines,
    scanned_max_id, store_text, updated_lines, updated_record, updated_text,
};
use crate::task::{
    label_of, lemma_labels, lemma_record_fields, lemma_record_round_trip, parse_current,
    parse_legacy, parse_line, record_line, Status, TaskView,
};
use crate::text::{
    is_line, join_lines, lemma_concat_contains, lemma_join_concat, lemma_lines_hold_no_line_feed,
    lemma_lines_of_join, lemma_split_chars, lemma_split_concat, lemma_split_fields,
    lemma_split_single, lines_of, split_on, strip_cr, stripped,
};
use vstd::prelude::*;

verus! {

/// The record that a line holds, if any: a comment holds none.
pub open spec fn record_in(line: Seq<char>) -> Option<TaskView> {
    if is_comment(line) {
        None
    } else {
        parse_line(line)
    }
}

/// Whether a line holds the same record with and without the carriage
/// return that may end it. A line that does not end in one does; so does a
/// line that holds no record either way.
pub open spec fn keeps_record(line: Seq<char>) -> bool {
    record_in(strip_cr(line)) == record_in(line)
}

/// Whether the records of `text` are read back after a rewrite as they were
/// read before it. A rewrite puts a line feed behind each task line; a task
/// line that ends in a carriage return loses it when it is read back, and
/// with it the end of its last field.
pub open spec fn reads_back(text: Seq<char>) -> bool {
    forall|i: int|
        0 <= i < lines_of(text).len() && is_task_line(#[trigger] lines_of(text)[i])
            ==> keeps_record(migrated(lines_of(text)[i]))
}

/// Whether a text can stand in a record as its description: it holds no tab,
/// which would end the field, and no line feed, which would end the line.
pub open spec fn is_description(s: Seq<char>) -> bool {
    !s.contains('\t') && !s.contains('\n')
}

/// The records after `update`: those with the given id are changed, the
/// others are as they were.
pub open spec fn records_after_update(
    records: Seq<TaskView>,
    id: int,
    status: Status,
    description: Option<Seq<char>>,
    date: Seq<char>,
) -> Seq<TaskView> {
    Seq::new(
        records.len(),
        |i: int|
            if records[i].id == id {
                updated_record(records[i], status, description, date)
            } else {
                records[i]
            },
    )
}

/// The records after `delete`: those with the given id are gone, the others
/// keep their order.
pub open spec fn records_after_delete(records: Seq<TaskView>, id: int) -> Seq<TaskView>
    decreases records.len(),
{
    if records.len() == 0 {
        records
    } else {
        let before = records_after_delete(records.drop_last(), id);
        if records.last().id == id {
            before
        } else {
            before.push(records.last())
        }
    }
}

/// Whether a line holds the same id with and without the carriage return
/// that may end it.
pub open spec fn keeps_id(line: Seq<char>) -> bool {
    line_id(strip_cr(line)) == line_id(line)
}

/// Whether the ids that stand in the task lines of `text` are read back
/// after a rewrite as they were read before it. A task line that is nothing
/// but a number and a carriage return has no id, and has one when it is
/// read back without the carriage return.
pub open spec fn ids_read_back(text: Seq<char>) -> bool {
    forall|i: int|
        0 <= i < lines_of(text).len() && is_task_line(#[trigger] lines_of(text)[i]) ==> keeps_id(
            migrated(lines_of(text)[i]),
        )
}

/// Whether no id that stands in one of `lines` is above `bound`.
pub open spec fn ids_within(lines: Seq<Seq<char>>, bound: int) -> bool {
    forall|i: int|
        0 <= i < lines.len() && line_id(#[trigger] lines[i]) is Some ==> line_id(lines[i])->0
            <= bound
}

/// Whether no id that stands in a task line is above the highest id that
/// the store records. A store that only `add`, `update` and `delete` have
/// written is so.
pub open spec fn is_consistent(text: Seq<char>) -> bool {
    ids_within(lines_of(text), current_max_id(text))
}

/// The header line for an id in range is a comment that holds no line break
/// and records that id.
pub proof fn lemma_header_line(max_id: int)
    requires
        i32::MIN <= max_id <= i32::MAX,
    ensures
        is_line(header_line(max_id)),
        is_comment(header_line(max_id)),
        header_of_line(header_line(max_id)) == Some(max_id),
{
    reveal_strlit("#max_id=");
    let h = header_line(max_id);
    let number = dec_int(max_id);
    lemma_dec_int_chars(max_id);
    lemma_parse_dec_int(max_id);
    assert(header_prefix().len() == 8);
    assert(h.take(8) =~= header_prefix());
    assert(h.skip(8) =~= number);
    assert(h[0] == '#');
    assert(h.last() == number.last());
    assert forall|k: int| 0 <= k < h.len() implies h[k] != '\n' by {
        if k >= 8 {
            assert(h[k] == number[k - 8]);
        }
    }
}

/// An empty line stands for no task.
pub proof fn lemma_blank_line()
    ensures
        parse_line(Seq::<char>::empty()) is None,
{
    let e = Seq::<char>::empty();
    assert(split_on(e, '\t').len() == 1);
    assert(split_on(e, ',').len() == 1);
}

/// The fields of a task that was read from a line hold no tab, and no
/// character that the line does not hold; its id fits in 32 bits.
pub proof fn lemma_parsed_fields(line: Seq<char>, c: char)
    requires
        parse_line(line) is Some,
    ensures
        i32::MIN <= parse_line(line)->0.id <= i32::MAX,
        !parse_line(line)->0.description.contains('\t'),
        !parse_line(line)->0.date.contains('\t'),
        !line.contains(c) ==> !parse_line(line)->0.description.contains(c) && !parse_line(
            line,
        )->0.date.contains(c),
{
    if parse_current(line) is Some {
        lemma_split_fields(line, '\t');
        if !line.contains(c) {
            lemma_split_chars(line, '\t', c);
        }
    } else {
        lemma_split_chars(line, ',', '\t');
        if !line.contains(c) {
            lemma_split_chars(line, ',', c);
        }
    }
}

/// The line of a record is a task line. It holds a line feed only where the
/// description or the timestamp does, and ends in a carriage return only
/// where the timestamp does.
pub proof fn lemma_record_line_shape(t: TaskView)
    ensures
        is_task_line(record_line(t)),
        record_line(t).contains('\n') == (t.description.contains('\n') || t.date.contains('\n')),
        strip_cr(record_line(t)) == record_line(t) <==> strip_cr(t.date) == t.date,
{
    let id = dec_int(t.id);
    let label = label_of(t.status);
    let tab = seq!['\t'];
    lemma_dec_int_chars(t.id);
    lemma_labels(t.status);
    let line = record_line(t);
    assert(line[0] == id[0]);
    assert(is_digit(id[0]) || id[0] == '-');
    assert(!id.contains('\n')) by {
        if id.contains('\n') {
            let k = choose|k: int| 0 <= k < id.len() && id[k] == '\n';
            assert(is_digit(id[k]) || id[k] == '-');
        }
    }
    assert(!tab.contains('\n'));
    lemma_concat_contains(id, tab, '\n');
    lemma_concat_contains(id + tab, label, '\n');
    lemma_concat_contains(id + tab + label, tab, '\n');
    lemma_concat_contains(id + tab + label + tab, t.description, '\n');
    lemma_concat_contains(id + tab + label + tab + t.description, tab, '\n');
    lemma_concat_contains(id + tab + label + tab + t.description + tab, t.date, '\n');
    if t.date.len() > 0 {
        assert(line.last() == t.date.last());
    } else {
        assert(line.last() == '\t');
    }
}

/// A record that is written with a description and a timestamp of the
/// accepted kinds is read back as it was written, from a line that can be
/// written out and read back.
pub proof fn lemma_fresh_record(t: TaskView)
    requires
        i32::MIN <= t.id <= i32::MAX,
        is_description(t.description),
        is_timestamp(t.date),
    ensures
        is_line(record_line(t)),
        is_task_line(record_line(t)),
        parse_line(record_line(t)) == Some(t),
{
    assert(!t.date.contains('\t') && !t.date.contains('\n') && strip_cr(t.date) == t.date) by {
        if t.date.contains('\t') {
            let k = choose|k: int| 0 <= k < t.date.len() && t.date[k] == '\t';
            assert(is_timestamp_char(t.date[k]));
        }
        if t.date.contains('\n') {
            let k = choose|k: int| 0 <= k < t.date.len() && t.date[k] == '\n';
            assert(is_timestamp_char(t.date[k]));
        }
        if t.date.len() > 0 {
            assert(is_timestamp_char(t.date[t.date.len() - 1]));
        }
    }
    lemma_record_line_shape(t);
    lemma_record_round_trip(t);
}

/// The id of a record is the id field of its line.
pub proof fn lemma_record_id_field(line: Seq<char>)
    requires
        parse_line(line) is Some,
    ensures
        line.len() > 0,
        id_field(line) == Some(parse_line(line)->0.id),
{
    if line.len() == 0 {
        assert(line =~= Seq::<char>::empty());
        lemma_blank_line();
    }
    if parse_current(line) is None {
        lemma_split_single(line, '\t');
        if parse_int(line) is Some {
            lemma_parsed_chars(line);
            assert(!line.contains(',')) by {
                if line.contains(',') {
                    let k = choose|k: int| 0 <= k < line.len() && line[k] == ',';
                    assert(is_digit(line[k]) || line[k] == '-' || line[k] == '+');
                }
            }
            lemma_split_single(line, ',');
        }
    }
}

/// A line in the older format that is written anew has the fields that it
/// had, with tabs between them, and an empty timestamp where it had none.
pub proof fn lemma_migration_keeps_fields(line: Seq<char>)
    requires
        is_plain_legacy(line),
    ensures
        split_on(migrated(line), '\t') == if split_on(line, ',').len() == 4 {
            split_on(line, ',')
        } else {
            split_on(line, ',').push(Seq::<char>::empty())
        },
{
    let t = parse_legacy(line)->0;
    let fields = split_on(line, ',');
    lemma_split_chars(line, ',', '\t');
    lemma_record_fields(t);
    lemma_split_single(t.date, '\t');
    assert(seq![dec_int(t.id), label_of(t.status), t.description] + seq![t.date] =~= if fields.len()
        == 4 {
        fields
    } else {
        fields.push(Seq::<char>::empty())
    });
}

/// A task line that a rewrite puts down stands for the same task as before
/// and has the same id field, and holds no line feed where the line held
/// none.
pub proof fn lemma_migrated_line(line: Seq<char>)
    requires
        is_task_line(line),
        !line.contains('\n'),
    ensures
        is_task_line(migrated(line)),
        !migrated(line).contains('\n'),
        parse_line(migrated(line)) == parse_line(line),
        line_id(migrated(line)) == line_id(line),
{
    if is_plain_legacy(line) {
        let t = parse_legacy(line)->0;
        lemma_parsed_fields(line, '\n');
        lemma_record_line_shape(t);
        lemma_record_round_trip(t);
        lemma_record_id_field(line);
        lemma_record_id_field(record_line(t));
    }
}

/// The records of two runs of lines, one after the other.
pub proof fn lemma_records_concat(a: Seq<Seq<char>>, b: Seq<Seq<char>>)
    ensures
        records_of(a + b) == records_of(a) + records_of(b),
    decreases b.len(),
{
    if b.len() == 0 {
        assert(a + b =~= a);
        assert(records_of(a) + records_of(b) =~= records_of(a));
    } else {
        lemma_records_concat(a, b.drop_last());
        assert((a + b).drop_last() =~= a + b.drop_last());
        assert((a + b).last() == b.last());
        assert(records_of(a + b) =~= records_of(a) + records_of(b));
    }
}

/// Where no id that stands in a line is above a bound, no record has an id
/// above it: the id of a record stands in its line.
pub proof fn lemma_record_ids_within(lines: Seq<Seq<char>>, bound: int)
    requires
        ids_within(lines, bound),
    ensures
        forall|j: int|
            0 <= j < records_of(lines).len() ==> (#[trigger] records_of(lines)[j]).id <= bound,
    decreases lines.len(),
{
    if lines.len() > 0 {
        let init = lines.drop_last();
        assert forall|i: int| 0 <= i < init.len() && line_id(#[trigger] init[i]) is Some
            implies line_id(init[i])->0 <= bound by {
            assert(init[i] == lines[i]);
        }
        lemma_record_ids_within(init, bound);
        let before = records_of(init);
        if !is_comment(lines.last()) && parse_line(lines.last()) is Some {
            lemma_record_id_field(lines.last());
            assert(lines.last() == lines[lines.len() - 1]);
            let t = parse_line(lines.last())->0;
            assert forall|j: int| 0 <= j < records_of(lines).len() implies (
            #[trigger] records_of(lines)[j]).id <= bound by {
                if j < before.len() {
                    assert(records_of(lines)[j] == before[j]);
                }
            }
        }
    }
}

/// The highest id that stands in a task line is not below any id that
/// stands in one, and not below 0. It fits in 32 bits, and so does the
/// highest id ever allocated.
pub proof fn lemma_ids_in_range(lines: Seq<Seq<char>>)
    ensures
        0 <= scanned_max_id(lines) <= i32::MAX,
        ids_within(lines, scanned_max_id(lines)),
        forall|j: int|
            0 <= j < records_of(lines).len() ==> (#[trigger] records_of(lines)[j]).id
                <= scanned_max_id(lines),
        i32::MIN <= max_id_in(lines) <= i32::MAX,
    decreases lines.len(),
{
    if lines.len() > 0 {
        let init = lines.drop_last();
        lemma_ids_in_range(init);
        assert forall|i: int| 0 <= i < lines.len() && line_id(#[trigger] lines[i]) is Some
            implies line_id(lines[i])->0 <= scanned_max_id(lines) by {
            if i < init.len() {
                assert(init[i] == lines[i]);
            }
        }
    } else {
        assert(header_of(lines) is None);
    }
    lemma_record_ids_within(lines, scanned_max_id(lines));
}

/// The text of a store is read back as its header line and its lines, each
/// of the lines without the carriage return that may end it.
pub proof fn lemma_read_store(max_id: int, lines: Seq<Seq<char>>)
    requires
        i32::MIN <= max_id <= i32::MAX,
        forall|i: int| 0 <= i < lines.len() ==> !(#[trigger] lines[i]).contains('\n'),
    ensures
        lines_of(store_text(max_id, lines)) == seq![header_line(max_id)] + stripped(lines),
        records_in(store_text(max_id, lines)) == records_of(stripped(lines)),
        current_max_id(store_text(max_id, lines)) == max_id,
{
    let h = header_line(max_id);
    let all = seq![h] + lines;
    lemma_header_line(max_id);
    assert forall|i: int| 0 <= i < all.len() implies !(#[trigger] all[i]).contains('\n') by {
        if i > 0 {
            assert(all[i] == lines[i - 1]);
        }
    }
    lemma_lines_of_join(all);
    assert(stripped(all) =~= seq![h] + stripped(lines));
    lemma_records_concat(seq![h], stripped(lines));
    assert(seq![h].drop_last() =~= Seq::<Seq<char>>::empty());
    assert(records_of(seq![h].drop_last()) =~= Seq::<TaskView>::empty());
    assert(seq![h].last() == h);
    assert(records_of(seq![h]) =~= Seq::<TaskView>::empty());
    assert(records_of(seq![h]) + records_of(stripped(lines)) =~= records_of(stripped(lines)));
    assert((seq![h] + stripped(lines))[0] == h);
}

/// The header of a store's text records the id that it was written with,
/// whatever the lines below it are.
pub proof fn lemma_read_header(max_id: int, lines: Seq<Seq<char>>)
    requires
        i32::MIN <= max_id <= i32::MAX,
    ensures
        header_of(lines_of(store_text(max_id, lines))) == Some(max_id),
        current_max_id(store_text(max_id, lines)) == max_id,
{
    let h = header_line(max_id);
    lemma_header_line(max_id);
    lemma_join_concat(seq![h], lines);
    let rest = join_lines(lines);
    assert(seq![h].drop_last() =~= Seq::<Seq<char>>::empty());
    assert(join_lines(seq![h].drop_last()) =~= Seq::<char>::empty());
    assert(seq![h].last() == h);
    assert(join_lines(seq![h]) =~= h + seq!['\n']);
    assert(store_text(max_id, lines) =~= h + seq!['\n'] + rest);
    lemma_split_concat(h, rest, '\n');
    lemma_split_single(h, '\n');
    lemma_split_fields(rest, '\n');
    let pieces = split_on(store_text(max_id, lines), '\n');
    assert(pieces == seq![h] + split_on(rest, '\n'));
    assert(pieces[0] == h);
    assert(pieces.len() >= 2);
    assert(strip_cr(h) == h);
    assert(lines_of(store_text(max_id, lines))[0] == h);
}

/// Whether each of `lines` is free of line feeds and, if it is a task line,
/// holds the same record after a rewrite as before it.
pub open spec fn lines_read_back(lines: Seq<Seq<char>>) -> bool {
    &&& forall|i: int| 0 <= i < lines.len() ==> !(#[trigger] lines[i]).contains('\n')
    &&& forall|i: int|
        0 <= i < lines.len() && is_task_line(#[trigger] lines[i]) ==> keeps_record(
            migrated(lines[i]),
        )
}

/// The lines of a text whose records are read back after a rewrite.
pub proof fn lemma_lines_read_back(text: Seq<char>)
    requires
        reads_back(text),
    ensures
        lines_read_back(lines_of(text)),
{
    lemma_lines_hold_no_line_feed(text);
}

/// What holds of lines holds of all but the last of them, and of the last.
proof fn lemma_read_back_prefix(lines: Seq<Seq<char>>)
    requires
        lines.len() > 0,
        lines_read_back(lines),
    ensures
        lines_read_back(lines.drop_last()),
        !lines.last().contains('\n'),
        is_task_line(lines.last()) ==> keeps_record(migrated(lines.last())),
{
    let init = lines.drop_last();
    assert forall|i: int| 0 <= i < init.len() implies !(#[trigger] init[i]).contains('\n') by {
        assert(init[i] == lines[i]);
    }
    assert forall|i: int| 0 <= i < init.len() && is_task_line(#[trigger] init[i])
        implies keeps_record(migrated(init[i])) by {
        assert(init[i] == lines[i]);
    }
    assert(lines.last() == lines[lines.len() - 1]);
}

/// One more line without a line feed: what is read back of the lines is
/// what was read back before, and that line without its carriage return.
proof fn lemma_push_line(lines: Seq<Seq<char>>, line: Seq<char>)
    requires
        forall|i: int| 0 <= i < lines.len() ==> !(#[trigger] lines[i]).contains('\n'),
        !line.contains('\n'),
    ensures
        forall|i: int|
            0 <= i < lines.push(line).len() ==> !(#[trigger] lines.push(line)[i]).contains('\n'),
        stripped(lines.push(line)) == stripped(lines).push(strip_cr(line)),
        records_of(stripped(lines.push(line))) == match record_in(strip_cr(line)) {
            Some(t) => records_of(stripped(lines)).push(t),
            None => records_of(stripped(lines)),
        },
{
    assert forall|i: int| 0 <= i < lines.push(line).len() implies !(#[trigger] lines.push(
        line,
    )[i]).contains('\n') by {
        if i < lines.len() {
            assert(lines.push(line)[i] == lines[i]);
        }
    }
    assert(stripped(lines.push(line)) =~= stripped(lines).push(strip_cr(line)));
    assert(stripped(lines).push(strip_cr(line)).drop_last() =~= stripped(lines));
}

/// A line that is no task line holds no record.
proof fn lemma_no_task_line(line: Seq<char>)
    requires
        !is_task_line(line),
    ensures
        record_in(line) is None,
{
    if !is_comment(line) {
        assert(line =~= Seq::<char>::empty());
        lemma_blank_line();
    }
}

/// The task lines that a rewrite keeps hold no line feed and, read back,
/// hold the records that were there.
pub proof fn lemma_kept_lines(lines: Seq<Seq<char>>)
    requires
        lines_read_back(lines),
    ensures
        forall|j: int|
            0 <= j < kept_lines(lines).len() ==> !(#[trigger] kept_lines(lines)[j]).contains(
                '\n',
            ),
        records_of(stripped(kept_lines(lines))) == records_of(lines),
    decreases lines.len(),
{
    if lines.len() > 0 {
        let init = lines.drop_last();
        let line = lines.last();
        lemma_read_back_prefix(lines);
        lemma_kept_lines(init);
        if is_task_line(line) {
            lemma_migrated_line(line);
            lemma_push_line(kept_lines(init), migrated(line));
        } else {
            lemma_no_task_line(line);
        }
    } else {
        assert(stripped(kept_lines(lines)) =~= lines);
    }
}

/// The task lines after `update` hold no line feed and, read back, hold the
/// records that were there, those with the given id changed.
pub proof fn lemma_updated_lines(
    lines: Seq<Seq<char>>,
    id: int,
    status: Status,
    description: Option<Seq<char>>,
    date: Seq<char>,
)
    requires
        lines_read_back(lines),
        description is Some ==> is_description(description->0),
        is_timestamp(date),
    ensures
        forall|j: int|
            0 <= j < updated_lines(lines, id, status, description, date).len() ==> !(
            #[trigger] updated_lines(lines, id, status, description, date)[j]).contains('\n'),
        records_of(stripped(updated_lines(lines, id, status, description, date)))
            == records_after_update(records_of(lines), id, status, description, date),
    decreases lines.len(),
{
    let after = updated_lines(lines, id, status, description, date);
    if lines.len() > 0 {
        let init = lines.drop_last();
        let line = lines.last();
        let before = updated_lines(init, id, status, description, date);
        lemma_read_back_prefix(lines);
        lemma_updated_lines(init, id, status, description, date);
        if line_has_id(line, id) {
            let t = parse_line(line)->0;
            let u = updated_record(t, status, description, date);
            lemma_parsed_fields(line, '\n');
            lemma_fresh_record(u);
            lemma_push_line(before, record_line(u));
            assert(records_of(lines) == records_of(init).push(t));
            assert(records_of(stripped(before)).push(u) =~= records_after_update(
                records_of(init).push(t),
                id,
                status,
                description,
                date,
            ));
        } else if is_task_line(line) {
            lemma_migrated_line(line);
            lemma_push_line(before, migrated(line));
            if parse_line(line) is Some {
                let t = parse_line(line)->0;
                assert(records_of(lines) == records_of(init).push(t));
                assert(records_of(stripped(before)).push(t) =~= records_after_update(
                    records_of(init).push(t),
                    id,
                    status,
                    description,
                    date,
                ));
            }
        } else {
            lemma_no_task_line(line);
        }
    } else {
        assert(stripped(after) =~= lines);
        assert(records_of(lines) =~= records_after_update(
            records_of(lines),
            id,
            status,
            description,
            date,
        ));
    }
}

/// The task lines after `delete` hold no line feed and, read back, hold the
/// records that were there but for those with the given id.
pub proof fn lemma_remaining_lines(lines: Seq<Seq<char>>, id: int)
    requires
        lines_read_back(lines),
    ensures
        forall|j: int|
            0 <= j < remaining_lines(lines, id).len() ==> !(#[trigger] remaining_lines(
                lines,
                id,
            )[j]).contains('\n'),
        records_of(stripped(remaining_lines(lines, id))) == records_after_delete(
            records_of(lines),
            id,
        ),
    decreases lines.len(),
{
    if lines.len() > 0 {
        let init = lines.drop_last();
        let line = lines.last();
        let before = remaining_lines(init, id);
        lemma_read_back_prefix(lines);
        lemma_remaining_lines(init, id);
        if line_has_id(line, id) {
            let t = parse_line(line)->0;
            assert(records_of(lines) == records_of(init).push(t));
            assert(records_of(lines).drop_last() =~= records_of(init));
        } else if is_task_line(line) {
            lemma_migrated_line(line);
            lemma_push_line(before, migrated(line));
            if parse_line(line) is Some {
                let t = parse_line(line)->0;
                assert(records_of(lines) == records_of(init).push(t));
                assert(records_of(lines).drop_last() =~= records_of(init));
            }
        } else {
            lemma_no_task_line(line);
        }
    } else {
        assert(stripped(remaining_lines(lines, id)) =~= lines);
    }
}

/// After `add`, the store holds the records that it held and, behind them,
/// exactly one new record, whose id is the one after the highest id that was
/// ever allocated; and that id is now the highest.
pub proof fn lemma_add_then_list(text: Seq<char>, description: Seq<char>, date: Seq<char>)
    requires
        description.len() > 0,
        is_description(description),
        is_timestamp(date),
        reads_back(text),
        current_max_id(text) < i32::MAX,
    ensures
        records_in(added_text(text, description, date)) == records_in(text).push(
            new_record(text, description, date),
        ),
        new_record(text, description, date).id == current_max_id(text) + 1,
        current_max_id(added_text(text, description, date)) == current_max_id(text) + 1,
{
    let lines = lines_of(text);
    let t = new_record(text, description, date);
    lemma_lines_read_back(text);
    lemma_ids_in_range(lines);
    lemma_kept_lines(lines);
    lemma_fresh_record(t);
    let kept = kept_lines(lines);
    lemma_push_line(kept, record_line(t));
    lemma_read_store(t.id, kept.push(record_line(t)));
}

/// After `update`, the store holds the records that it held, those with the
/// given id changed and the others as they were; the highest id is as it
/// was.
pub proof fn lemma_update_then_list(
    text: Seq<char>,
    id: int,
    status: Status,
    description: Option<Seq<char>>,
    date: Seq<char>,
)
    requires
        description is Some ==> is_description(description->0),
        is_timestamp(date),
        reads_back(text),
    ensures
        records_in(updated_text(text, id, status, description, date)) == records_after_update(
            records_in(text),
            id,
            status,
            description,
            date,
        ),
        current_max_id(updated_text(text, id, status, description, date)) == current_max_id(text),
{
    let lines = lines_of(text);
    lemma_lines_read_back(text);
    lemma_ids_in_range(lines);
    lemma_updated_lines(lines, id, status, description, date);
    lemma_read_store(current_max_id(text), updated_lines(lines, id, status, description, date));
}

/// After `delete`, the store holds the records that it held but for those
/// with the given id; the highest id is as it was.
pub proof fn lemma_delete_then_list(text: Seq<char>, id: int)
    requires
        reads_back(text),
    ensures
        records_in(deleted_text(text, id)) == records_after_delete(records_in(text), id),
        current_max_id(deleted_text(text, id)) == current_max_id(text),
{
    let lines = lines_of(text);
    lemma_lines_read_back(text);
    lemma_ids_in_range(lines);
    lemma_remaining_lines(lines, id);
    lemma_read_store(current_max_id(text), remaining_lines(lines, id));
}

/// Neither `update` nor `delete` moves the highest id, whatever the file
/// holds, and `add` raises it by one: the id that the next `add` allocates
/// is never lowered.
pub proof fn lemma_max_id_never_lowered(
    text: Seq<char>,
    id: int,
    status: Status,
    description: Option<Seq<char>>,
    date: Seq<char>,
    added: Seq<char>,
)
    ensures
        current_max_id(deleted_text(text, id)) == current_max_id(text),
        current_max_id(updated_text(text, id, status, description, date)) == current_max_id(text),
        current_max_id(text) < i32::MAX ==> current_max_id(added_text(text, added, date))
            == current_max_id(text) + 1,
{
    let lines = lines_of(text);
    lemma_ids_in_range(lines);
    lemma_read_header(current_max_id(text), remaining_lines(lines, id));
    lemma_read_header(current_max_id(text), updated_lines(lines, id, status, description, date));
    if current_max_id(text) < i32::MAX {
        let t = new_record(text, added, date);
        lemma_read_header(t.id, kept_lines(lines).push(record_line(t)));
    }
}

/// A legacy file, which has no header, is consistent: the highest id is
/// taken from the ids that stand in its task lines.
pub proof fn lemma_legacy_is_consistent(text: Seq<char>)
    requires
        header_of(lines_of(text)) is None,
    ensures
        is_consistent(text),
{
    lemma_ids_in_range(lines_of(text));
}

/// In a consistent store no record has an id above the highest id.
pub proof fn lemma_consistent_records(text: Seq<char>)
    requires
        is_consistent(text),
    ensures
        forall|j: int|
            0 <= j < records_in(text).len() ==> (#[trigger] records_in(text)[j]).id
                <= current_max_id(text),
{
    lemma_record_ids_within(lines_of(text), current_max_id(text));
}

/// In a consistent store, the id that `add` allocates is fresh: it stands in
/// no task line, and no record has it.
pub proof fn lemma_new_id_is_fresh(text: Seq<char>, description: Seq<char>, date: Seq<char>)
    requires
        is_consistent(text),
    ensures
        forall|i: int|
            0 <= i < lines_of(text).len() ==> line_id(#[trigger] lines_of(text)[i]) != Some(
                new_record(text, description, date).id,
            ),
        !has_id(records_in(text), new_record(text, description, date).id),
{
    let records = records_in(text);
    let id = new_record(text, description, date).id;
    lemma_consistent_records(text);
    if has_id(records, id) {
        let k = choose|k: int| 0 <= k < records.len() && (#[trigger] records[k]).id == id;
        assert(records[k].id <= current_max_id(text));
    }
}

/// In a consistent store, the id of a deleted record is not allocated again:
/// the next `add` after the delete gives an id above it, and above every id
/// that stood in a task line.
pub proof fn lemma_deleted_id_not_reused(
    text: Seq<char>,
    id: int,
    description: Seq<char>,
    date: Seq<char>,
)
    requires
        is_consistent(text),
        has_id(records_in(text), id),
    ensures
        new_record(deleted_text(text, id), description, date).id == current_max_id(text) + 1,
        new_record(deleted_text(text, id), description, date).id > id,
        forall|i: int|
            0 <= i < lines_of(text).len() && line_id(#[trigger] lines_of(text)[i]) is Some
                ==> line_id(lines_of(text)[i])->0 < new_record(
                deleted_text(text, id),
                description,
                date,
            ).id,
{
    lemma_max_id_never_lowered(text, id, Status::NotStarted, None, date, description);
    lemma_consistent_records(text);
    let k = choose|k: int| 0 <= k < records_in(text).len() && (#[trigger] records_in(text)[k]).id
        == id;
    assert(records_in(text)[k].id <= current_max_id(text));
}

/// Whether each of `lines` is free of line feeds and, if it is a task line,
/// holds the same id after a rewrite as before it.
pub open spec fn lines_keep_ids(lines: Seq<Seq<char>>) -> bool {
    &&& forall|i: int| 0 <= i < lines.len() ==> !(#[trigger] lines[i]).contains('\n')
    &&& forall|i: int|
        0 <= i < lines.len() && is_task_line(#[trigger] lines[i]) ==> keeps_id(migrated(lines[i]))
}

/// What holds of lines holds of all but the last of them, and of the last.
proof fn lemma_keep_ids_prefix(lines: Seq<Seq<char>>, bound: int)
    requires
        lines.len() > 0,
        lines_keep_ids(lines),
        ids_within(lines, bound),
    ensures
        lines_keep_ids(lines.drop_last()),
        ids_within(lines.drop_last(), bound),
        !lines.last().contains('\n'),
        is_task_line(lines.last()) ==> keeps_id(migrated(lines.last())),
        line_id(lines.last()) is Some ==> line_id(lines.last())->0 <= bound,
{
    let init = lines.drop_last();
    assert forall|i: int| 0 <= i < init.len() implies !(#[trigger] init[i]).contains('\n') by {
        assert(init[i] == lines[i]);
    }
    assert forall|i: int| 0 <= i < init.len() && is_task_line(#[trigger] init[i])
        implies keeps_id(migrated(init[i])) by {
        assert(init[i] == lines[i]);
    }
    assert forall|i: int| 0 <= i < init.len() && line_id(#[trigger] init[i]) is Some
        implies line_id(init[i])->0 <= bound by {
        assert(init[i] == lines[i]);
    }
    assert(lines.last() == lines[lines.len() - 1]);
}

/// One more line without a line feed, whose id as it is read back is not
/// above the bound.
proof fn lemma_push_id(lines: Seq<Seq<char>>, line: Seq<char>, bound: int)
    requires
        forall|i: int| 0 <= i < lines.len() ==> !(#[trigger] lines[i]).contains('\n'),
        ids_within(stripped(lines), bound),
        !line.contains('\n'),
        line_id(strip_cr(line)) is Some ==> line_id(strip_cr(line))->0 <= bound,
    ensures
        forall|i: int|
            0 <= i < lines.push(line).len() ==> !(#[trigger] lines.push(line)[i]).contains('\n'),
        ids_within(stripped(lines.push(line)), bound),
{
    let all = lines.push(line);
    assert forall|i: int| 0 <= i < all.len() implies !(#[trigger] all[i]).contains('\n') by {
        if i < lines.len() {
            assert(all[i] == lines[i]);
        }
    }
    assert forall|i: int| 0 <= i < stripped(all).len() && line_id(#[trigger] stripped(all)[i])
        is Some implies line_id(stripped(all)[i])->0 <= bound by {
        if i < lines.len() {
            assert(stripped(all)[i] == stripped(lines)[i]);
        }
    }
}

/// A record that is written with a description and a timestamp of the
/// accepted kinds has its id standing in its line, also when the line is
/// read back.
proof fn lemma_fresh_record_id(t: TaskView)
    requires
        i32::MIN <= t.id <= i32::MAX,
        is_description(t.description),
        is_timestamp(t.date),
    ensures
        !record_line(t).contains('\n'),
        line_id(strip_cr(record_line(t))) == Some(t.id),
{
    lemma_fresh_record(t);
    lemma_record_id_field(record_line(t));
}

/// The task lines that a rewrite keeps hold, when they are read back, no
/// id above a bound that the ids in the lines kept to.
pub proof fn lemma_kept_ids(lines: Seq<Seq<char>>, bound: int)
    requires
        lines_keep_ids(lines),
        ids_within(lines, bound),
    ensures
        forall|j: int|
            0 <= j < kept_lines(lines).len() ==> !(#[trigger] kept_lines(lines)[j]).contains(
                '\n',
            ),
        ids_within(stripped(kept_lines(lines)), bound),
    decreases lines.len(),
{
    if lines.len() > 0 {
        let init = lines.drop_last();
        let line = lines.last();
        lemma_keep_ids_prefix(lines, bound);
        lemma_kept_ids(init, bound);
        if is_task_line(line) {
            lemma_migrated_line(line);
            lemma_push_id(kept_lines(init), migrated(line), bound);
        }
    }
}

/// The task lines after `update` hold, when they are read back, no id above
/// a bound that the ids in the lines kept to.
pub proof fn lemma_updated_ids(
    lines: Seq<Seq<char>>,
    id: int,
    status: Status,
    description: Option<Seq<char>>,
    date: Seq<char>,
    bound: int,
)
    requires
        lines_keep_ids(lines),
        ids_within(lines, bound),
        description is Some ==> is_description(description->0),
        is_timestamp(date),
    ensures
        forall|j: int|
            0 <= j < updated_lines(lines, id, status, description, date).len() ==> !(
            #[trigger] updated_lines(lines, id, status, description, date)[j]).contains('\n'),
        ids_within(stripped(updated_lines(lines, id, status, description, date)), bound),
    decreases lines.len(),
{
    if lines.len() > 0 {
        let init = lines.drop_last();
        let line = lines.last();
        let before = updated_lines(init, id, status, description, date);
        lemma_keep_ids_prefix(lines, bound);
        lemma_updated_ids(init, id, status, description, date, bound);
        if line_has_id(line, id) {
            let t = parse_line(line)->0;
            let u = updated_record(t, status, description, date);
            lemma_parsed_fields(line, '\n');
            lemma_record_id_field(line);
            lemma_fresh_record_id(u);
            lemma_push_id(before, record_line(u), bound);
        } else if is_task_line(line) {
            lemma_migrated_line(line);
            lemma_push_id(before, migrated(line), bound);
        }
    }
}

/// The task lines after `delete` hold, when they are read back, no id above
/// a bound that the ids in the lines kept to.
pub proof fn lemma_remaining_ids(lines: Seq<Seq<char>>, id: int, bound: int)
    requires
        lines_keep_ids(lines),
        ids_within(lines, bound),
    ensures
        forall|j: int|
            0 <= j < remaining_lines(lines, id).len() ==> !(#[trigger] remaining_lines(
                lines,
                id,
            )[j]).contains('\n'),
        ids_within(stripped(remaining_lines(lines, id)), bound),
    decreases lines.len(),
{
    if lines.len() > 0 {
        let init = lines.drop_last();
        let line = lines.last();
        lemma_keep_ids_prefix(lines, bound);
        lemma_remaining_ids(init, id, bound);
        if is_task_line(line) && !line_has_id(line, id) {
            lemma_migrated_line(line);
            lemma_push_id(remaining_lines(init, id), migrated(line), bound);
        }
    }
}

/// A store whose lines, as they are read back, hold no id above the id in
/// its header is consistent.
proof fn lemma_store_is_consistent(max_id: int, lines: Seq<Seq<char>>)
    requires
        i32::MIN <= max_id <= i32::MAX,
        forall|i: int| 0 <= i < lines.len() ==> !(#[trigger] lines[i]).contains('\n'),
        ids_within(stripped(lines), max_id),
    ensures
        is_consistent(store_text(max_id, lines)),
{
    lemma_read_store(max_id, lines);
    lemma_header_line(max_id);
    let read = lines_of(store_text(max_id, lines));
    assert forall|i: int| 0 <= i < read.len() && line_id(#[trigger] read[i]) is Some
        implies line_id(read[i])->0 <= max_id by {
        if i > 0 {
            assert(read[i] == stripped(lines)[i - 1]);
        }
    }
}

/// The three mutations keep a consistent store consistent.
pub proof fn lemma_consistency_kept(
    text: Seq<char>,
    id: int,
    status: Status,
    description: Option<Seq<char>>,
    date: Seq<char>,
    added: Seq<char>,
)
    requires
        is_consistent(text),
        ids_read_back(text),
        is_timestamp(date),
        description is Some ==> is_description(description->0),
        is_description(added),
    ensures
        is_consistent(deleted_text(text, id)),
        is_consistent(updated_text(text, id, status, description, date)),
        current_max_id(text) < i32::MAX ==> is_consistent(added_text(text, added, date)),
{
    let lines = lines_of(text);
    let max_id = current_max_id(text);
    lemma_lines_hold_no_line_feed(text);
    lemma_ids_in_range(lines);
    lemma_remaining_ids(lines, id, max_id);
    lemma_store_is_consistent(max_id, remaining_lines(lines, id));
    lemma_updated_ids(lines, id, status, description, date, max_id);
    lemma_store_is_consistent(max_id, updated_lines(lines, id, status, description, date));
    if max_id < i32::MAX {
        let t = new_record(text, added, date);
        assert(ids_within(lines, max_id + 1));
        lemma_kept_ids(lines, max_id + 1);
        lemma_fresh_record_id(t);
        lemma_push_id(kept_lines(lines), record_line(t), max_id + 1);
        lemma_store_is_consistent(t.id, kept_lines(lines).push(record_line(t)));
    }
}

/// A legacy file, which has no header, gains one with its first `add`. The
/// header records the id of the new record, which is the one after the
/// highest id that stood in a task line, and so above every such id: the
/// maximum of those ids and the new one.
pub proof fn lemma_legacy_add_writes_header(
    text: Seq<char>,
    description: Seq<char>,
    date: Seq<char>,
)
    requires
        header_of(lines_of(text)) is None,
        current_max_id(text) < i32::MAX,
    ensures
        header_of(lines_of(added_text(text, description, date))) == Some(
            new_record(text, description, date).id,
        ),
        new_record(text, description, date).id == scanned_max_id(lines_of(text)) + 1,
        forall|i: int|
            0 <= i < lines_of(text).len() && line_id(#[trigger] lines_of(text)[i]) is Some
                ==> line_id(lines_of(text)[i])->0 < new_record(text, description, date).id,
        forall|j: int|
            0 <= j < records_in(text).len() ==> (#[trigger] records_in(text)[j]).id < new_record(
                text,
                description,
                date,
            ).id,
{
    let lines = lines_of(text);
    let t = new_record(text, description, date);
    lemma_ids_in_range(lines);
    lemma_read_header(t.id, kept_lines(lines).push(record_line(t)));
}

} // verus!
