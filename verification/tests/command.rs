use std::cell::RefCell;
use std::rc::Rc;
use suihorse::{ActionError, ActionErrorKind, Command, CommandPlan, Outcome};

type Calls = Rc<RefCell<Vec<Vec<String>>>>;
type Recorded = Box<dyn Fn(Vec<String>)>;

fn texts(items: &[&str]) -> Vec<String> {
    items.iter().map(|s| s.to_string()).collect()
}

fn recorder() -> (Calls, Recorded) {
    let calls: Calls = Rc::new(RefCell::new(Vec::new()));
    let sink = calls.clone();
    (calls, Box::new(move |args: Vec<String>| sink.borrow_mut().push(args)))
}

fn bare(name: &str) -> Command<Recorded> {
    Command::new(name)
}

#[test]
fn new_command_has_only_its_name() {
    let command = bare("cmd");
    assert_eq!(command.name, "cmd");
    assert!(command.alias.is_none());
    assert!(command.description.is_none());
    assert!(command.usage.is_none());
    assert!(command.action.is_none());
}

#[test]
fn default_command_is_empty() {
    let command: Command<Recorded> = Command::default();
    assert_eq!(command.name, "");
    assert!(command.alias.is_none());
    assert!(command.description.is_none());
    assert!(command.usage.is_none());
    assert!(command.action.is_none());
}

#[test]
fn builders_set_their_field_and_keep_the_rest() {
    let (_, action) = recorder();
    let command = bare("cmd")
        .description("cli sub command")
        .usage("cli cmd [arg]")
        .alias("c")
        .action(action);
    assert_eq!(command.name, "cmd");
    assert_eq!(command.description.as_deref(), Some("cli sub command"));
    assert_eq!(command.usage.as_deref(), Some("cli cmd [arg]"));
    assert_eq!(command.alias, Some(texts(&["c"])));
    assert!(command.action.is_some());
}

#[test]
fn a_later_description_replaces_the_earlier() {
    let command = bare("cmd").description("one").description("two").usage("a").usage("b");
    assert_eq!(command.description.as_deref(), Some("two"));
    assert_eq!(command.usage.as_deref(), Some("b"));
}

#[test]
fn aliases_add_up_in_order() {
    let command = bare("cmd").alias("c").alias("cm").alias("c");
    assert_eq!(command.alias, Some(texts(&["c", "cm", "c"])));
}

#[test]
fn command_matches_name_and_alias_alike() {
    let command = bare("hello").alias("h");
    assert!(command.matches("hello"));
    assert!(command.matches("h"));
}

#[test]
fn command_matches_every_alias() {
    let command = bare("hello").alias("h").alias("hi").alias("hey");
    for token in ["hello", "h", "hi", "hey"] {
        assert!(command.matches(token));
    }
}

#[test]
fn matching_is_exact_and_case_sensitive() {
    let command = bare("hello").alias("h");
    for token in ["Hello", "HELLO", "H", "hell", "hello ", " hello", "helloo", "", "hh"] {
        assert!(!command.matches(token));
    }
}

#[test]
fn command_without_alias_matches_only_its_name() {
    let command = bare("hello");
    assert!(command.matches("hello"));
    assert!(!command.matches("h"));
}

#[test]
fn label_is_the_name_without_aliases() {
    assert_eq!(bare("hello").label(), "hello");
}

#[test]
fn label_puts_aliases_first() {
    assert_eq!(bare("hello").alias("hi").label(), "hi, hello");
    assert_eq!(bare("hello").alias("hi").alias("h").label(), "hi, h, hello");
}

#[test]
fn help_text_has_description_then_usage() {
    let command = bare("cmd").usage("cli cmd [arg]").description("cli sub command");
    assert_eq!(
        command.help_text(),
        "Description:\n\tcli sub command\n\nUsage:\n\tcli cmd [arg]\n\n"
    );
}

#[test]
fn help_text_leaves_out_what_is_absent() {
    assert_eq!(bare("cmd").description("d").help_text(), "Description:\n\td\n\n");
    assert_eq!(bare("cmd").usage("u").help_text(), "Usage:\n\tu\n\n");
    assert_eq!(bare("cmd").help_text(), "");
}

#[test]
fn plan_invokes_with_normalized_arguments() {
    let (_, action) = recorder();
    let command = bare("cmd").action(action);
    assert_eq!(
        command.plan(texts(&["a", "--k=v", "b"])),
        CommandPlan::Invoke { args: texts(&["a", "--k", "v", "b"]) }
    );
}

#[test]
fn plan_prefers_help_to_everything() {
    let (_, action) = recorder();
    assert_eq!(bare("cmd").action(action).plan(texts(&["a", "-h"])), CommandPlan::Help);
    assert_eq!(bare("cmd").plan(texts(&["--help"])), CommandPlan::Help);
}

#[test]
fn plan_without_action_is_missing() {
    assert_eq!(bare("cmd").plan(texts(&["a"])), CommandPlan::Missing);
    assert_eq!(bare("cmd").plan(texts(&[])), CommandPlan::Missing);
}

#[test]
fn run_invokes_the_action_once_with_all_arguments() {
    let (calls, action) = recorder();
    let command = bare("cmd").action(action);
    assert_eq!(command.run_with_result(texts(&["x", "--n=1", "y"])), Ok(Outcome::Done));
    assert_eq!(*calls.borrow(), vec![texts(&["x", "--n", "1", "y"])]);
}

#[test]
fn run_with_no_arguments_invokes_with_none() {
    let (calls, action) = recorder();
    let command = bare("cmd").action(action);
    assert_eq!(command.run_with_result(Vec::new()), Ok(Outcome::Done));
    assert_eq!(*calls.borrow(), vec![Vec::<String>::new()]);
}

#[test]
fn help_flag_hands_back_help_and_invokes_nothing() {
    for flag in ["-h", "--help"] {
        let (calls, action) = recorder();
        let command = bare("cmd").description("does it").usage("cli cmd").action(action);
        assert_eq!(
            command.run_with_result(texts(&["x", flag, "y"])),
            Ok(Outcome::Help("Description:\n\tdoes it\n\nUsage:\n\tcli cmd\n\n".to_string()))
        );
        assert!(calls.borrow().is_empty());
    }
}

#[test]
fn help_flag_in_split_form_counts() {
    let (calls, action) = recorder();
    let command = bare("cmd").usage("u").action(action);
    assert_eq!(
        command.run_with_result(texts(&["--help=yes"])),
        Ok(Outcome::Help("Usage:\n\tu\n\n".to_string()))
    );
    assert!(calls.borrow().is_empty());
}

#[test]
fn command_without_action_reports_not_found_with_its_help() {
    let command = bare("cmd").description("does it");
    assert_eq!(
        command.run_with_result(texts(&["x"])),
        Err(ActionError {
            kind: ActionErrorKind::NotFound,
            help: "Description:\n\tdoes it\n\n".to_string(),
        })
    );
}

#[test]
fn command_without_action_still_shows_help_on_request() {
    let command = bare("cmd").usage("cli cmd");
    assert_eq!(
        command.run_with_result(texts(&["--help"])),
        Ok(Outcome::Help("Usage:\n\tcli cmd\n\n".to_string()))
    );
}

#[test]
fn perform_carries_out_each_plan() {
    let (calls, action) = recorder();
    let command = bare("cmd").usage("u").action(action);
    assert_eq!(command.perform(CommandPlan::Invoke { args: texts(&["a=b"]) }), Ok(Outcome::Done));
    assert_eq!(*calls.borrow(), vec![texts(&["a=b"])]);
    assert_eq!(command.perform(CommandPlan::Help), Ok(Outcome::Help("Usage:\n\tu\n\n".to_string())));
    assert_eq!(
        command.perform(CommandPlan::Missing),
        Err(ActionError { kind: ActionErrorKind::NotFound, help: "Usage:\n\tu\n\n".to_string() })
    );
    assert_eq!(calls.borrow().len(), 1);
}

#[test]
fn not_found_reads_as_its_name() {
    assert_eq!(ActionErrorKind::NotFound.to_string(), "NotFound");
    let error = ActionError { kind: ActionErrorKind::NotFound, help: String::new() };
    assert_eq!(error.to_string(), "NotFound");
    assert_eq!(error.kind, ActionErrorKind::NotFound);
}
