use workshop::command::Command;
use workshop::printer::Printer;
use workshop::task::Task;
use workshop::task::TaskId;
use workshop::task::TaskStatus;
use workshop::task::usize_to_string;
use workshop::task_list::TaskList;
use workshop::task_list::parse_task_line;

fn new_list() -> TaskList {
    TaskList::new(Box::new(Printer::new()))
}

#[test]
fn renders_numbers_in_decimal() {
    assert_eq!(usize_to_string(0), "0");
    assert_eq!(usize_to_string(7), "7");
    assert_eq!(usize_to_string(42), "42");
    assert_eq!(usize_to_string(90210), "90210");
}

#[test]
fn task_renders_its_stored_line() {
    let task = Task::new(TaskId::new(1), "Buy milk");
    assert_eq!(task.to_csv(), "1;pending;Buy milk");

    let mut task = Task::from_parts(TaskId::new(12), TaskStatus::Done, "Call; home");
    assert_eq!(task.to_csv(), "12;done;Call home");
    task.undo();
    assert_eq!(task.to_csv(), "12;pending;Call home");
}

#[test]
fn status_renders_its_name() {
    assert_eq!(TaskStatus::Pending.val(), "pending");
    assert_eq!(TaskStatus::Done.val(), "done");
}

#[test]
fn adding_tasks_fills_gaps_in_the_numbering() {
    let mut list = new_list();
    let out = list.execute(Command::Add(String::from("first")));
    assert_eq!(out, vec![String::from("Task successfully created with id 1")]);
    let _ = list.execute(Command::Add(String::from("second")));
    let _ = list.execute(Command::Add(String::from("third")));
    let _ = list.execute(Command::Delete(TaskId::new(2)));
    let out = list.execute(Command::Add(String::from("fourth")));
    assert_eq!(out, vec![String::from("Task successfully created with id 2")]);
}

#[test]
fn doing_and_undoing_marks_the_task() {
    let mut list = new_list();
    let _ = list.execute(Command::Add(String::from("chore")));
    let out = list.execute(Command::Do(TaskId::new(1)));
    assert!(out.is_empty());
    assert_eq!(list.csv_lines(), vec![String::from("1;done;chore")]);
    let out = list.execute(Command::UnDo(TaskId::new(1)));
    assert!(out.is_empty());
    assert_eq!(list.csv_lines(), vec![String::from("1;pending;chore")]);
}

#[test]
fn unknown_task_warns_in_red() {
    let mut list = new_list();
    let out = list.execute(Command::Do(TaskId::new(9)));
    assert_eq!(
        out,
        vec![String::from(
            "[\x1b[0;31mERROR\x1b[0m]: Unknown task with key 9"
        )]
    );
}

#[test]
fn deleting_reports_and_removes() {
    let mut list = new_list();
    let _ = list.execute(Command::Add(String::from("gone soon")));
    let out = list.execute(Command::Delete(TaskId::new(1)));
    assert_eq!(
        out,
        vec![String::from("Task with key 1 successfully deleted")]
    );
    assert!(list.csv_lines().is_empty());
}

#[test]
fn listing_shows_one_row_per_task() {
    let mut list = new_list();
    let _ = list.execute(Command::Add(String::from("alpha")));
    let _ = list.execute(Command::Add(String::from("beta")));
    let _ = list.execute(Command::Do(TaskId::new(2)));
    let out = list.execute(Command::List);
    assert_eq!(
        out,
        vec![
            String::from("1\tpending\t\talpha"),
            String::from("2\tdone\t\tbeta"),
        ]
    );
}

#[test]
fn exit_changes_nothing() {
    let mut list = new_list();
    let _ = list.execute(Command::Add(String::from("stay")));
    let out = list.execute(Command::Exit);
    assert!(out.is_empty());
    assert_eq!(list.csv_lines(), vec![String::from("1;pending;stay")]);
}

#[test]
fn parses_stored_lines() {
    let task = parse_task_line("3;done;Water plants").unwrap();
    assert_eq!(task.id().val(), 3);
    assert_eq!(*task.status(), TaskStatus::Done);
    assert_eq!(task.text(), "Water plants");

    let err = parse_task_line("3;done").unwrap_err();
    assert_eq!(err, "Ignoring task '3;done' due to missmatched parts");

    let err = parse_task_line("x;done;text").unwrap_err();
    assert_eq!(err, "Ignoring task 'x;done;text' due to invalid id");

    let err = parse_task_line("3;almost;text").unwrap_err();
    assert_eq!(err, "Ignoring task '3;almost;text' due to invalid status");
}

#[test]
fn loads_stored_content_and_reports_bad_lines() {
    let content = "1;pending;Buy milk\n2;done;Call home\nnot a task\n2;pending;Call again\n";
    let (list, warnings) = TaskList::from_content(Box::new(Printer::new()), content);
    assert_eq!(
        warnings,
        vec![String::from(
            "[\x1b[0;31mERROR\x1b[0m]: Ignoring task 'not a task' due to missmatched parts"
        )]
    );
    assert_eq!(
        list.csv_lines(),
        vec![
            String::from("1;pending;Buy milk"),
            String::from("2;pending;Call again"),
        ]
    );
}

#[test]
fn loading_empty_content_yields_an_empty_list() {
    let (list, warnings) = TaskList::from_content(Box::new(Printer::new()), "");
    assert!(warnings.is_empty());
    assert!(list.csv_lines().is_empty());
}

#[test]
fn printer_prefixes_by_severity() {
    let printer = Printer::new();
    assert_eq!(printer.notice("plain"), "plain");
    assert_eq!(printer.error("bad"), "[\x1b[0;31mERROR\x1b[0m]: bad");
    assert_eq!(printer.warning("odd"), "[\x1b[0;31mERROR\x1b[0m]: odd");
}
