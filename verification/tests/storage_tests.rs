use todo_list::storage::{deserialize, parse_line, serialize, DELIMITER, LINE_FEED};
use todo_list::task::Task;

fn task(description: &str, is_done: bool) -> Task {
    let mut task = Task::new(String::from(description));
    task.is_done = is_done;
    task
}

fn snapshot(tasks: &[Task]) -> Vec<(String, bool)> {
    tasks.iter().map(|task: &Task| (task.description.clone(), task.is_done)).collect()
}

fn entry(description: &str, is_done: bool) -> (String, bool) {
    (String::from(description), is_done)
}

#[test]
fn the_delimiter_is_a_comma() {
    assert_eq!(DELIMITER, ',');
    assert_eq!(LINE_FEED, '\n');
}

#[test]
fn serialize_writes_one_line_per_task() {
    let tasks = vec![task("a", true), task("b", false)];
    assert_eq!(serialize(&tasks), "a,1\nb,0\n");
}

#[test]
fn serialize_of_no_tasks_is_empty() {
    assert_eq!(serialize(&Vec::new()), "");
}

#[test]
fn serialize_does_not_escape_the_delimiter() {
    let tasks = vec![task("a,b", false)];
    assert_eq!(serialize(&tasks), "a,b,0\n");
}

#[test]
fn serialize_keeps_characters_beyond_ascii() {
    let tasks = vec![task("caf\u{e9} \u{1f600}", true)];
    assert_eq!(serialize(&tasks), "caf\u{e9} \u{1f600},1\n");
}

#[test]
fn a_line_without_delimiter_is_a_task_that_is_not_done() {
    let task = parse_line("only-description");
    assert_eq!(task.description, "only-description");
    assert!(!task.is_done);
    assert_eq!(snapshot(&deserialize("only-description")), vec![entry("only-description", false)]);
    assert_eq!(
        snapshot(&deserialize("only-description\n")),
        vec![entry("only-description", false)]
    );
}

#[test]
fn parse_line_reads_the_status() {
    assert_eq!(snapshot(&[parse_line("a,1")]), vec![entry("a", true)]);
    assert_eq!(snapshot(&[parse_line("a,0")]), vec![entry("a", false)]);
}

#[test]
fn any_status_but_one_is_not_done() {
    assert_eq!(snapshot(&[parse_line("a,")]), vec![entry("a", false)]);
    assert_eq!(snapshot(&[parse_line("a,2")]), vec![entry("a", false)]);
    assert_eq!(snapshot(&[parse_line("a,11")]), vec![entry("a", false)]);
    assert_eq!(snapshot(&[parse_line("a, 1")]), vec![entry("a", false)]);
    assert_eq!(snapshot(&[parse_line("a,1 ")]), vec![entry("a", false)]);
    assert_eq!(snapshot(&[parse_line("a,true")]), vec![entry("a", false)]);
}

#[test]
fn a_line_is_split_once_at_the_first_delimiter() {
    assert_eq!(snapshot(&[parse_line("a,1,2")]), vec![entry("a", false)]);
    assert_eq!(snapshot(&[parse_line("a,b,1")]), vec![entry("a", false)]);
    assert_eq!(snapshot(&[parse_line(",1")]), vec![entry("", true)]);
    assert_eq!(snapshot(&[parse_line(",")]), vec![entry("", false)]);
}

#[test]
fn parse_line_of_an_empty_line() {
    assert_eq!(snapshot(&[parse_line("")]), vec![entry("", false)]);
}

#[test]
fn deserialize_of_empty_text_is_empty() {
    assert!(deserialize("").is_empty());
}

#[test]
fn deserialize_reads_each_line() {
    assert_eq!(
        snapshot(&deserialize("a,1\nb,0\nc,1\n")),
        vec![entry("a", true), entry("b", false), entry("c", true)]
    );
}

#[test]
fn deserialize_reads_a_last_line_without_line_feed() {
    assert_eq!(snapshot(&deserialize("a,1\nb,1")), vec![entry("a", true), entry("b", true)]);
}

#[test]
fn deserialize_skips_empty_lines() {
    assert_eq!(snapshot(&deserialize("\n\na,1\n\nb,0\n\n")), vec![entry("a", true), entry("b", false)]);
    assert!(deserialize("\n").is_empty());
    assert!(deserialize("\r\n\r\n").is_empty());
}

#[test]
fn deserialize_takes_carriage_return_and_line_feed_as_one_line_end() {
    assert_eq!(snapshot(&deserialize("a,1\r\nb,0\r\n")), vec![entry("a", true), entry("b", false)]);
}

#[test]
fn deserialize_keeps_a_carriage_return_that_ends_no_line() {
    assert_eq!(snapshot(&deserialize("a\rb,1\n")), vec![entry("a\rb", true)]);
    assert_eq!(snapshot(&deserialize("a,1\r")), vec![entry("a", false)]);
    assert_eq!(snapshot(&deserialize("a\r\r\n")), vec![entry("a\r", false)]);
}

#[test]
fn deserialize_keeps_characters_beyond_ascii() {
    assert_eq!(
        snapshot(&deserialize("caf\u{e9} \u{1f600},1\n\u{4e2d}\u{6587},0\n")),
        vec![entry("caf\u{e9} \u{1f600}", true), entry("\u{4e2d}\u{6587}", false)]
    );
}

#[test]
fn written_tasks_read_back_the_same() {
    let tasks = vec![task("buy milk", false), task("", true), task(" spaced ", true), task("1", false)];
    let text = serialize(&tasks);
    assert_eq!(snapshot(&deserialize(text.as_str())), snapshot(&tasks));
}

#[test]
fn a_description_with_the_delimiter_does_not_read_back() {
    let tasks = vec![task("a,b", true)];
    let text = serialize(&tasks);
    assert_eq!(snapshot(&deserialize(text.as_str())), vec![entry("a", false)]);
}

#[test]
fn a_description_with_a_line_feed_does_not_read_back() {
    let tasks = vec![task("a\nb", true)];
    let text = serialize(&tasks);
    assert_eq!(text, "a\nb,1\n");
    assert_eq!(snapshot(&deserialize(text.as_str())), vec![entry("a", false), entry("b", true)]);
}
