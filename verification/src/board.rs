//! The board view: tasks grouped by status into three columns of cards that
//! fit the terminal.

use crate::decimal::{dec_int, format_id, lemma_dec_int_len};
use crate::task::{task_views, Status, Task, TaskView};
use crate::text::{push_chars, to_chars};
use vstd::prelude::*;
use vstd::string::StringExecFns;

verus! {

/// The width that is assumed where the terminal's width cannot be found.
pub const FALLBACK_TERMINAL_WIDTH: u16 = 100;

/// The least width of a column.
pub const MIN_COLUMN_WIDTH: usize = 25;

/// The greatest width of a column.
pub const MAX_COLUMN_WIDTH: usize = 50;

/// The width in columns of the terminal, from
/// `terminal_size::terminal_size()`: that of the first of standard output,
/// standard error and standard input that is a terminal, and `None` where
/// none of them is one. Nothing is claimed of the number.
#[verifier::external_body]
pub(crate) fn terminal_columns() -> (width: Option<u16>) {
    terminal_size::terminal_size().map(|(columns, _)| columns.0)
}

/// The width of a column of the board on a terminal of the given width: a
/// third of what is left beside six characters of spacing, but not under 25
/// and not over 50. Where the terminal's width is unknown it is taken to be
/// 100.
pub open spec fn column_width_for(terminal_width: Option<u16>) -> int {
    let width = match terminal_width {
        Some(w) => w as int,
        None => 100,
    };
    let third = if width > 6 {
        (width - 6) / 3
    } else {
        0
    };
    if third < 25 {
        25
    } else if third > 50 {
        50
    } else {
        third
    }
}

/// What stands before the description on a card: the id in brackets, and a
/// space.
pub open spec fn id_prefix(id: int) -> Seq<char> {
    seq!['['] + dec_int(id) + seq![']', ' ']
}

/// The number of characters that a card leaves for the description: what
/// the column has beyond the id's prefix and three characters of margin.
pub open spec fn description_budget(id: int, column_width: int) -> int {
    let rest = column_width - (id_prefix(id).len() + 3);
    if rest > 0 {
        rest
    } else {
        0
    }
}

/// A description cut to its budget: one that is longer loses its end and
/// gets an ellipsis of three dots, for which three characters more are cut.
pub open spec fn shortened(description: Seq<char>, budget: int) -> Seq<char> {
    if description.len() > budget {
        description.take(
            if budget > 3 {
                budget - 3
            } else {
                0
            },
        ) + seq!['.', '.', '.']
    } else {
        description
    }
}

/// The first line of a card: the id's prefix and the description, cut to
/// the budget of the column.
pub open spec fn card_text(t: TaskView, column_width: int) -> Seq<char> {
    id_prefix(t.id) + shortened(t.description, description_budget(t.id, column_width))
}

/// The second line of a card: the timestamp behind two spaces, and nothing
/// where the task has none.
pub open spec fn card_date(date: Seq<char>) -> Seq<char> {
    if date.len() > 0 {
        seq![' ', ' '] + date
    } else {
        date
    }
}

/// A card of the board as a mathematical value.
pub struct CardView {
    pub text: Seq<char>,
    pub date: Seq<char>,
}

/// The card of a task in a column of the given width.
pub open spec fn card_of(t: TaskView, column_width: int) -> CardView {
    CardView { text: card_text(t, column_width), date: card_date(t.date) }
}

/// The tasks with the given status, in the order in which they were read.
pub open spec fn column_of(tasks: Seq<TaskView>, status: Status) -> Seq<TaskView>
    decreases tasks.len(),
{
    if tasks.len() == 0 {
        tasks
    } else {
        let before = column_of(tasks.drop_last(), status);
        if tasks.last().status == status {
            before.push(tasks.last())
        } else {
            before
        }
    }
}

/// The cards of the tasks with the given status.
pub open spec fn cards_of(tasks: Seq<TaskView>, status: Status, column_width: int) -> Seq<
    CardView,
> {
    let column = column_of(tasks, status);
    Seq::new(column.len(), |i: int| card_of(column[i], column_width))
}

/// A board as a mathematical value.
pub struct BoardView {
    pub column_width: int,
    pub not_started: Seq<CardView>,
    pub in_progress: Seq<CardView>,
    pub done: Seq<CardView>,
}

/// The board of `tasks` with columns of the given width.
pub open spec fn board_of(tasks: Seq<TaskView>, column_width: int) -> BoardView {
    BoardView {
        column_width,
        not_started: cards_of(tasks, Status::NotStarted, column_width),
        in_progress: cards_of(tasks, Status::InProgress, column_width),
        done: cards_of(tasks, Status::Done, column_width),
    }
}

/// The greatest of three lengths.
pub open spec fn max3(a: int, b: int, c: int) -> int {
    if a >= b && a >= c {
        a
    } else if b >= c {
        b
    } else {
        c
    }
}

/// Every task stands in exactly one column: the three columns together are
/// as long as the list.
pub proof fn lemma_columns_partition(tasks: Seq<TaskView>)
    ensures
        column_of(tasks, Status::NotStarted).len() + column_of(tasks, Status::InProgress).len()
            + column_of(tasks, Status::Done).len() == tasks.len(),
    decreases tasks.len(),
{
    if tasks.len() > 0 {
        lemma_columns_partition(tasks.drop_last());
    }
}

/// Whether `at` gives, for each task of `column`, a position in `tasks` at
/// which that task stands, the positions rising along the column.
pub open spec fn picks_in_order(at: Seq<int>, tasks: Seq<TaskView>, column: Seq<TaskView>) -> bool {
    &&& at.len() == column.len()
    &&& forall|j: int|
        0 <= j < at.len() ==> 0 <= #[trigger] at[j] < tasks.len() && tasks[at[j]] == column[j]
    &&& forall|j: int, k: int| 0 <= j < k < at.len() ==> #[trigger] at[j] < #[trigger] at[k]
}

/// A column holds tasks of its status alone, each of them from the list, and
/// in the order of the list.
pub proof fn lemma_column_order(tasks: Seq<TaskView>, status: Status)
    ensures
        forall|j: int|
            0 <= j < column_of(tasks, status).len() ==> (#[trigger] column_of(
                tasks,
                status,
            )[j]).status == status,
        exists|at: Seq<int>| picks_in_order(at, tasks, column_of(tasks, status)),
    decreases tasks.len(),
{
    let column = column_of(tasks, status);
    if tasks.len() == 0 {
        let at = Seq::<int>::empty();
        assert(picks_in_order(at, tasks, column));
    } else {
        let init = tasks.drop_last();
        let before = column_of(init, status);
        lemma_column_order(init, status);
        let at0 = choose|at: Seq<int>| picks_in_order(at, init, before);
        let at = if tasks.last().status == status {
            at0.push(tasks.len() - 1)
        } else {
            at0
        };
        assert forall|j: int| 0 <= j < at.len() implies 0 <= #[trigger] at[j] < tasks.len()
            && tasks[at[j]] == column[j] by {
            if j < at0.len() {
                assert(at[j] == at0[j]);
                assert(init[at0[j]] == tasks[at0[j]]);
            }
        }
        assert forall|j: int, k: int| 0 <= j < k < at.len() implies #[trigger] at[j]
            < #[trigger] at[k] by {
            assert(at[j] == at0[j]);
            if k < at0.len() {
                assert(at[k] == at0[k]);
            }
        }
        assert(picks_in_order(at, tasks, column));
    }
}

/// A card's first line fits its column: in a column of at least 20
/// characters, the id's prefix and the description as it is shown take no
/// more than the column's width, less the margin of three.
pub proof fn lemma_card_fits(t: TaskView, column_width: int)
    requires
        i32::MIN <= t.id <= i32::MAX,
        column_width >= 20,
    ensures
        card_text(t, column_width).len() <= column_width - 3,
{
    lemma_dec_int_len(t.id);
}

/// One card of the board: a task's first line and its date line.
#[derive(Debug, PartialEq, Eq)]
pub struct Card {
    pub text: String,
    pub date: String,
}

impl View for Card {
    type V = CardView;

    open spec fn view(&self) -> CardView {
        CardView { text: self.text@, date: self.date@ }
    }
}

/// The views of the cards of a vector, in order.
pub open spec fn card_views(cards: Seq<Card>) -> Seq<CardView> {
    Seq::new(cards.len(), |i: int| cards[i]@)
}

/// The board: three columns of cards, and the width of a column.
#[derive(Debug, PartialEq, Eq)]
pub struct Board {
    pub column_width: usize,
    pub not_started: Vec<Card>,
    pub in_progress: Vec<Card>,
    pub done: Vec<Card>,
}

impl View for Board {
    type V = BoardView;

    open spec fn view(&self) -> BoardView {
        BoardView {
            column_width: self.column_width as int,
            not_started: card_views(self.not_started@),
            in_progress: card_views(self.in_progress@),
            done: card_views(self.done@),
        }
    }
}

/// The title above the column of a status.
pub open spec fn column_title_of(status: Status) -> Seq<char> {
    match status {
        Status::NotStarted => "🚀 NOT STARTED"@,
        Status::InProgress => "⏳ IN PROGRESS"@,
        Status::Done => "✅ DONE"@,
    }
}

/// The title above the column of a status.
pub fn column_title(status: Status) -> (title: &'static str)
    ensures
        title@ == column_title_of(status),
{
    match status {
        Status::NotStarted => "🚀 NOT STARTED",
        Status::InProgress => "⏳ IN PROGRESS",
        Status::Done => "✅ DONE",
    }
}

/// The width of a column on a terminal of the given width.
pub fn column_width(terminal_width: Option<u16>) -> (width: usize)
    ensures
        width == column_width_for(terminal_width),
        MIN_COLUMN_WIDTH <= width <= MAX_COLUMN_WIDTH,
{
    let width: u16 = match terminal_width {
        Some(w) => w,
        None => FALLBACK_TERMINAL_WIDTH,
    };
    let third: u16 = if width > 6 {
        (width - 6) / 3
    } else {
        0
    };
    if third < 25 {
        MIN_COLUMN_WIDTH
    } else if third > 50 {
        MAX_COLUMN_WIDTH
    } else {
        third as usize
    }
}

/// The card of `task` in a column of the given width.
pub fn make_card(task: &Task, column_width: usize) -> (card: Card)
    ensures
        card@ == card_of(task@, column_width as int),
{
    let number = format_id(task.id);
    proof {
        lemma_dec_int_len(task.id as int);
    }
    let mut text = String::new();
    text.push('[');
    push_chars(&mut text, &number);
    text.push(']');
    text.push(' ');
    assert(text@ =~= id_prefix(task.id as int));
    let taken: usize = number.len() + 6;
    let budget: usize = if column_width > taken {
        column_width - taken
    } else {
        0
    };
    assert(budget == description_budget(task.id as int, column_width as int));
    let description = to_chars(task.description.as_str());
    if description.len() > budget {
        let keep: usize = if budget > 3 {
            budget - 3
        } else {
            0
        };
        let mut i: usize = 0;
        while i < keep
            invariant
                i <= keep <= description.len(),
                description@ == task.description@,
                text@ == id_prefix(task.id as int) + description@.take(i as int),
            decreases keep - i,
        {
            text.push(description[i]);
            i += 1;
            assert(description@.take(i as int) =~= description@.take(i - 1).push(
                description@[i - 1],
            ));
        }
        text.push('.');
        text.push('.');
        text.push('.');
        assert(text@ =~= card_text(task@, column_width as int));
    } else {
        text.append(task.description.as_str());
        assert(text@ =~= card_text(task@, column_width as int));
    }
    let mut date = String::new();
    if !task.date.as_str().is_empty() {
        date.push(' ');
        date.push(' ');
        date.append(task.date.as_str());
    }
    assert(date@ =~= card_date(task.date@));
    Card { text, date }
}

impl Board {
    /// The board of `tasks` on a terminal of the given width. Each column
    /// holds the cards of the tasks with its status, in the order in which
    /// the tasks stand in the list.
    pub fn layout(tasks: &Vec<Task>, terminal_width: Option<u16>) -> (board: Board)
        ensures
            board@ == board_of(task_views(tasks@), column_width_for(terminal_width)),
            MIN_COLUMN_WIDTH <= board.column_width <= MAX_COLUMN_WIDTH,
    {
        let width = column_width(terminal_width);
        let mut not_started: Vec<Card> = Vec::new();
        let mut in_progress: Vec<Card> = Vec::new();
        let mut done: Vec<Card> = Vec::new();
        let ghost all = task_views(tasks@);
        let ghost w = width as int;
        let mut i: usize = 0;
        assert(all.take(0) =~= Seq::<TaskView>::empty());
        assert(card_views(not_started@) =~= cards_of(all.take(0), Status::NotStarted, w));
        assert(card_views(in_progress@) =~= cards_of(all.take(0), Status::InProgress, w));
        assert(card_views(done@) =~= cards_of(all.take(0), Status::Done, w));
        while i < tasks.len()
            invariant
                i <= tasks.len(),
                all == task_views(tasks@),
                w == width as int,
                card_views(not_started@) == cards_of(all.take(i as int), Status::NotStarted, w),
                card_views(in_progress@) == cards_of(all.take(i as int), Status::InProgress, w),
                card_views(done@) == cards_of(all.take(i as int), Status::Done, w),
            decreases tasks.len() - i,
        {
            let card = make_card(&tasks[i], width);
            proof {
                let next = all.take(i + 1);
                assert(next.drop_last() =~= all.take(i as int));
                assert(next.last() == tasks@[i as int]@);
            }
            let ghost a = card_views(not_started@);
            let ghost b = card_views(in_progress@);
            let ghost c = card_views(done@);
            match tasks[i].status {
                Status::NotStarted => {
                    not_started.push(card);
                    assert(card_views(not_started@) =~= a.push(card@));
                    assert(a.push(card@) =~= cards_of(all.take(i + 1), Status::NotStarted, w));
                    assert(b =~= cards_of(all.take(i + 1), Status::InProgress, w));
                    assert(c =~= cards_of(all.take(i + 1), Status::Done, w));
                },
                Status::InProgress => {
                    in_progress.push(card);
                    assert(card_views(in_progress@) =~= b.push(card@));
                    assert(b.push(card@) =~= cards_of(all.take(i + 1), Status::InProgress, w));
                    assert(a =~= cards_of(all.take(i + 1), Status::NotStarted, w));
                    assert(c =~= cards_of(all.take(i + 1), Status::Done, w));
                },
                Status::Done => {
                    done.push(card);
                    assert(card_views(done@) =~= c.push(card@));
                    assert(c.push(card@) =~= cards_of(all.take(i + 1), Status::Done, w));
                    assert(a =~= cards_of(all.take(i + 1), Status::NotStarted, w));
                    assert(b =~= cards_of(all.take(i + 1), Status::InProgress, w));
                },
            }
            i += 1;
        }
        assert(all.take(i as int) =~= all);
        Board { column_width: width, not_started, in_progress, done }
    }

    /// The number of rows of cards: the length of the longest column.
    pub fn height(&self) -> (rows: usize)
        ensures
            rows == max3(
                self.not_started.len() as int,
                self.in_progress.len() as int,
                self.done.len() as int,
            ),
    {
        let a = self.not_started.len();
        let b = self.in_progress.len();
        let c = self.done.len();
        if a >= b && a >= c {
            a
        } else if b >= c {
            b
        } else {
            c
        }
    }

    /// The cards of the column of a status.
    pub fn column(&self, status: Status) -> (cards: &Vec<Card>)
        ensures
            cards == match status {
                Status::NotStarted => &self.not_started,
                Status::InProgress => &self.in_progress,
                Status::Done => &self.done,
            },
    {
        match status {
            Status::NotStarted => &self.not_started,
            Status::InProgress => &self.in_progress,
            Status::Done => &self.done,
        }
    }
}

} // verus!
