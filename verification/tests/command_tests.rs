use workshop::command::build_command;
use workshop::command::parse_text_arg;
use workshop::command::BuildError;
use workshop::command::Command;
use workshop::task::TaskId;

#[test]
fn it_parses_inputs() {
    let output = parse_text_arg(vec![String::from("input")]);
    assert_eq!(output, String::from("input"));

    let output = parse_text_arg(vec![String::from("'input'")]);
    assert_eq!(output, String::from("input"));

    let output = parse_text_arg(
        "input with more words that should be one"
            .split_whitespace()
            .map(|s| s.to_owned())
            .collect(),
    );
    assert_eq!(output, String::from("input"));

    let output = parse_text_arg(
        "'input with more words'"
            .split_whitespace()
            .map(|s| s.to_owned())
            .collect(),
    );
    assert_eq!(output, String::from("input with more words"));

    let output = parse_text_arg(
        "\"input with more words double quotes\""
            .split_whitespace()
            .map(|s| s.to_owned())
            .collect(),
    );
    assert_eq!(output, String::from("input with more words double quotes"));

    let output = parse_text_arg(
        "\"not closed "
            .split_whitespace()
            .map(|s| s.to_owned())
            .collect(),
    );
    assert_eq!(output, String::from(""));

    let output = parse_text_arg(
        "'input with more words after the quotes' these are more words 'other text'"
            .split_whitespace()
            .map(|s| s.to_owned())
            .collect(),
    );
    assert_eq!(
        output,
        String::from("input with more words after the quotes")
    );
}

#[test]
fn should_error_if_empty_input() {
    let result = build_command("");
    assert_eq!(result, Err(BuildError::MissingCommandName));
}

#[test]
fn should_create_list_command() {
    let result = build_command("list  ");
    assert_eq!(result, Ok(Command::List));

    let result = build_command("this is not a list command");
    assert_ne!(result, Ok(Command::List));
}

#[test]
fn should_create_add_command() {
    let task_text = "Test task";

    let result = build_command("add");
    assert!(result.is_err());
    assert!(result.err().unwrap().val().starts_with("Missing argument: add"));

    let result = build_command(format!(" add '{task_text}'").as_str());
    assert_eq!(result, Ok(Command::Add(String::from(task_text))));

    let result = build_command(format!(" add \"{task_text}\"").as_str());
    assert_eq!(result, Ok(Command::Add(String::from(task_text))));

    let result = build_command("this is not an add command");
    assert_ne!(result, Ok(Command::Add(String::from(task_text))));
}

#[test]
fn should_create_do_command() {
    let result = build_command("do");
    assert!(result.is_err());
    assert!(result.err().unwrap().val().starts_with("Missing argument: do"));

    let result = build_command(" do 1");
    assert_eq!(result, Ok(Command::Do(TaskId::new(1))));

    let result = build_command(" do 1");
    assert_eq!(result, Ok(Command::Do(TaskId::new(1))));

    let result = build_command(" do not_a_number");
    assert_eq!(result, Err(BuildError::NotUsizeTaskId));

    let result = build_command("this is not an do command");
    assert_ne!(result, Ok(Command::Do(TaskId::new(1))));
}

#[test]
fn should_create_undo_command() {
    let result = build_command("undo");
    assert!(result.is_err());
    assert!(result.err().unwrap().val().starts_with("Missing argument: undo"));

    let result = build_command(" undo 1");
    assert_eq!(result, Ok(Command::UnDo(TaskId::new(1))));

    let result = build_command(" undo 1");
    assert_eq!(result, Ok(Command::UnDo(TaskId::new(1))));

    let result = build_command(" undo not_a_number");
    assert_eq!(result, Err(BuildError::NotUsizeTaskId));

    let result = build_command("this is not an undo command");
    assert_ne!(result, Ok(Command::UnDo(TaskId::new(1))));
}

#[test]
fn should_create_delete_command() {
    let result = build_command("delete");
    assert!(result.is_err());
    assert!(result
        .err()
        .unwrap()
        .val()
        .starts_with("Missing argument: delete"));

    let result = build_command(" delete 1");
    assert_eq!(result, Ok(Command::Delete(TaskId::new(1))));

    let result = build_command(" delete 1");
    assert_eq!(result, Ok(Command::Delete(TaskId::new(1))));

    let result = build_command(" delete not_a_number");
    assert_eq!(result, Err(BuildError::NotUsizeTaskId));

    let result = build_command("this is not a delete command");
    assert_ne!(result, Ok(Command::Delete(TaskId::new(1))));
}

#[test]
fn should_create_exit_command() {
    let result = build_command("exit  ");
    assert_eq!(result, Ok(Command::Exit));

    let result = build_command("this is not an exit command");
    assert_ne!(result, Ok(Command::Exit));
}

#[test]
fn should_error_if_unknown_command() {
    let result = build_command("an extrange command");
    assert_eq!(result, Err(BuildError::UnknownCommand));
}

#[test]
fn command_names_ignore_ascii_case() {
    assert_eq!(build_command("LIST"), Ok(Command::List));
    assert_eq!(build_command("Do 7"), Ok(Command::Do(TaskId::new(7))));
}

#[test]
fn task_id_parsing_accepts_a_leading_plus() {
    assert_eq!(build_command("do +3"), Ok(Command::Do(TaskId::new(3))));
}

#[test]
fn task_id_parsing_rejects_overflow() {
    let result = build_command("do 99999999999999999999999999");
    assert_eq!(result, Err(BuildError::NotUsizeTaskId));
}

#[test]
fn build_error_messages_are_exact() {
    assert_eq!(
        BuildError::MissingCommandName.val(),
        "Missing command name"
    );
    assert_eq!(
        BuildError::MissingArgument(String::from("add")).val(),
        "Missing argument: add"
    );
    assert_eq!(BuildError::UnknownCommand.val(), "Unknown command");
    assert_eq!(
        BuildError::NotUsizeTaskId.val(),
        "Given task id is not an usize"
    );
}
