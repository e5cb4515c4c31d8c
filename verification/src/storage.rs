//! The plain-text form in which a task list is kept: one line per task, the
//! description, a comma, and `1` for a task that is done, `0` for one that is
//! not.

use crate::task::{views, Task, TaskView};
use crate::text::{
    chars_of, find_in, first_index_of, lemma_first_index_is, lemma_first_index_of, string_of,
};
use vstd::prelude::*;

verus! {

/// What parts the description from the status on a line.
pub const DELIMITER: char = ',';

/// What ends a line.
pub const LINE_FEED: char = '\n';

/// The status that is written for a task.
pub open spec fn status_char(is_done: bool) -> char {
    if is_done {
        '1'
    } else {
        '0'
    }
}

/// The line of a task, without its line feed: description, delimiter, status.
pub open spec fn record(task: TaskView) -> Seq<char> {
    task.description.push(DELIMITER).push(status_char(task.is_done))
}

/// The text of a list: the line of each task in order, each ended by a line
/// feed.
pub open spec fn serialized(tasks: Seq<TaskView>) -> Seq<char>
    decreases tasks.len(),
{
    if tasks.len() == 0 {
        Seq::empty()
    } else {
        serialized(tasks.drop_last()) + record(tasks.last()).push(LINE_FEED)
    }
}

/// A line without the carriage return at its end, if it has one.
pub open spec fn without_cr(line: Seq<char>) -> Seq<char> {
    if line.len() > 0 && line.last() == '\r' {
        line.drop_last()
    } else {
        line
    }
}

/// The lines of a text. A line ends at a line feed, or at a carriage return
/// directly followed by one; neither belongs to the line. What follows the last
/// line feed is a line too, unless it is empty.
pub open spec fn lines_of(text: Seq<char>) -> Seq<Seq<char>>
    decreases text.len(),
{
    let end = first_index_of(text, LINE_FEED);
    if text.len() == 0 {
        Seq::empty()
    } else if 0 <= end < text.len() {
        seq![without_cr(text.take(end))] + lines_of(text.skip(end + 1))
    } else {
        seq![text]
    }
}

/// The task that a line stands for. The description is what stands before the
/// first delimiter, and the task is done where exactly `1` follows that
/// delimiter. A line without a delimiter is the description of a task that is
/// not done.
pub open spec fn parsed_line(line: Seq<char>) -> TaskView {
    let at = first_index_of(line, DELIMITER);
    if 0 <= at < line.len() {
        TaskView { description: line.take(at), is_done: line.skip(at + 1) == seq!['1'] }
    } else {
        TaskView { description: line, is_done: false }
    }
}

/// The tasks of a sequence of lines: one for each line that is not empty.
pub open spec fn tasks_of_lines(lines: Seq<Seq<char>>) -> Seq<TaskView>
    decreases lines.len(),
{
    if lines.len() == 0 {
        Seq::empty()
    } else if lines.last().len() == 0 {
        tasks_of_lines(lines.drop_last())
    } else {
        tasks_of_lines(lines.drop_last()).push(parsed_line(lines.last()))
    }
}

/// The list that a text stands for.
pub open spec fn deserialized(text: Seq<char>) -> Seq<TaskView> {
    tasks_of_lines(lines_of(text))
}

/// Writes a list as text.
pub fn serialize(tasks: &Vec<Task>) -> (text: String)
    ensures
        text@ == serialized(views(tasks@)),
{
    let mut text = String::new();
    let mut i: usize = 0;
    while i < tasks.len()
        invariant
            i <= tasks.len(),
            text@ == serialized(views(tasks@).take(i as int)),
        decreases tasks.len() - i,
    {
        let task = &tasks[i];
        text.append(task.description.as_str());
        text.push(DELIMITER);
        text.push(
            if task.is_done {
                '1'
            } else {
                '0'
            },
        );
        text.push(LINE_FEED);
        i += 1;
        proof {
            let written = views(tasks@).take(i as int);
            assert(written.drop_last() =~= views(tasks@).take(i - 1));
        }
    }
    assert(views(tasks@).take(tasks.len() as int) =~= views(tasks@));
    text
}

/// The task that the line `chars[from..to]` stands for.
fn parse_range(chars: &Vec<char>, from: usize, to: usize) -> (task: Task)
    requires
        from <= to <= chars.len(),
    ensures
        task@ == parsed_line(chars@.subrange(from as int, to as int)),
{
    let at: usize = find_in(chars, from, to, DELIMITER);
    let description = string_of(chars, from, at);
    let is_done = at < to && to - at == 2 && chars[at + 1] == '1';
    proof {
        let line = chars@.subrange(from as int, to as int);
        assert(line.take(at - from) =~= chars@.subrange(from as int, at as int));
        if at < to {
            let status = line.skip(at - from + 1);
            if is_done {
                assert(status =~= seq!['1']);
            } else if status.len() == 1 {
                assert(seq!['1'][0] == '1');
            }
        }
    }
    Task { description, is_done }
}

/// Reads one line, given without its line ending.
pub fn parse_line(line: &str) -> (task: Task)
    ensures
        task@ == parsed_line(line@),
{
    let chars = chars_of(line);
    assert(chars@.subrange(0, chars.len() as int) =~= chars@);
    parse_range(&chars, 0, chars.len())
}

/// Reads a list from text.
pub fn deserialize(text: &str) -> (tasks: Vec<Task>)
    ensures
        views(tasks@) == deserialized(text@),
{
    let chars = chars_of(text);
    let mut tasks: Vec<Task> = Vec::new();
    let mut start: usize = 0;
    let ghost mut seen: Seq<Seq<char>> = Seq::empty();
    assert(chars@.skip(0) =~= chars@);
    while start < chars.len()
        invariant
            start <= chars.len(),
            lines_of(chars@) == seen + lines_of(chars@.skip(start as int)),
            views(tasks@) == tasks_of_lines(seen),
        decreases chars.len() - start,
    {
        let end: usize = find_in(&chars, start, chars.len(), LINE_FEED);
        let ghost rest = chars@.skip(start as int);
        let line_end: usize = if end < chars.len() && end > start && chars[end - 1] == '\r' {
            end - 1
        } else {
            end
        };
        let ghost line = chars@.subrange(start as int, line_end as int);
        if line_end > start {
            let task = parse_range(&chars, start, line_end);
            tasks.push(task);
        }
        proof {
            assert(seen.push(line).drop_last() =~= seen);
            if end < chars.len() {
                assert(rest.skip(end - start + 1) =~= chars@.skip(end + 1));
                assert(without_cr(rest.take(end - start)) =~= line);
            }
            seen = seen.push(line);
        }
        start = if end < chars.len() {
            end + 1
        } else {
            end
        };
    }
    tasks
}

/// A line without a delimiter reads as a task that is not done, whose
/// description is the whole line.
pub proof fn law_line_without_delimiter(line: Seq<char>)
    requires
        !line.contains(DELIMITER),
    ensures
        parsed_line(line) == (TaskView { description: line, is_done: false }),
{
    lemma_first_index_of(line, DELIMITER);
}

/// Whether a task can be written and read back: its description holds neither
/// the delimiter nor a line feed.
pub open spec fn storable(task: TaskView) -> bool {
    !task.description.contains(DELIMITER) && !task.description.contains(LINE_FEED)
}

/// Whether every task of a list can be written and read back.
pub open spec fn all_storable(tasks: Seq<TaskView>) -> bool {
    forall|i: int| 0 <= i < tasks.len() ==> storable(#[trigger] tasks[i])
}

/// A text that is written for a list is empty or ends in a line feed.
pub proof fn lemma_serialized_ends_lines(tasks: Seq<TaskView>)
    ensures
        serialized(tasks).len() == 0 || serialized(tasks).last() == LINE_FEED,
{
}

/// Lines of two texts put together are the lines of the first, then those of
/// the second, where the first ends a line.
pub proof fn lemma_lines_of_concat(head: Seq<char>, tail: Seq<char>)
    requires
        head.len() == 0 || head.last() == LINE_FEED,
    ensures
        lines_of(head + tail) == lines_of(head) + lines_of(tail),
    decreases head.len(),
{
    if head.len() > 0 {
        let end = first_index_of(head, LINE_FEED);
        lemma_first_index_of(head, LINE_FEED);
        assert(end < head.len());
        let whole = head + tail;
        lemma_first_index_is(whole, LINE_FEED, end);
        let rest = head.skip(end + 1);
        assert(whole.take(end) =~= head.take(end));
        assert(whole.skip(end + 1) =~= rest + tail);
        lemma_lines_of_concat(rest, tail);
    }
}

/// The written line of a storable task is the one line of its text, and reads
/// back as the task.
pub proof fn lemma_record_reads_back(task: TaskView)
    requires
        storable(task),
    ensures
        lines_of(record(task).push(LINE_FEED)) == seq![record(task)],
        record(task).len() > 0,
        parsed_line(record(task)) == task,
{
    let line = record(task);
    let text = line.push(LINE_FEED);
    let n = task.description.len() as int;
    assert forall|j: int| 0 <= j < line.len() implies text[j] != LINE_FEED by {}
    lemma_first_index_is(text, LINE_FEED, line.len() as int);
    assert(text.take(line.len() as int) =~= line);
    assert(text.skip(line.len() as int + 1) =~= Seq::empty());
    assert(lines_of(Seq::<char>::empty()) =~= Seq::empty());
    assert forall|j: int| 0 <= j < n implies line[j] != DELIMITER by {}
    lemma_first_index_is(line, DELIMITER, n);
    assert(line.take(n) =~= task.description);
    assert(line.skip(n + 1) =~= seq![status_char(task.is_done)]);
    assert(seq!['1'][0] == '1');
}

/// Writing a list and reading the text back gives the same list: the same
/// descriptions and the same done flags in the same order, provided that no
/// description holds the delimiter or a line feed.
pub proof fn law_round_trip(tasks: Seq<TaskView>)
    requires
        all_storable(tasks),
    ensures
        deserialized(serialized(tasks)) == tasks,
    decreases tasks.len(),
{
    if tasks.len() > 0 {
        let init = tasks.drop_last();
        let last = tasks.last();
        law_round_trip(init);
        lemma_serialized_ends_lines(init);
        lemma_lines_of_concat(serialized(init), record(last).push(LINE_FEED));
        lemma_record_reads_back(last);
        let lines = lines_of(serialized(init)) + seq![record(last)];
        assert(lines.drop_last() =~= lines_of(serialized(init)));
    }
}

} // verus!
