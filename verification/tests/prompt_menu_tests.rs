use todo_filter::menu::MenuAction;
use todo_filter::menu::decide_menu;
use todo_filter::menu::parse_completed;
use todo_filter::menu::select_records;
use todo_filter::numbers::InputError;
use todo_filter::numbers::parse_i64;
use todo_filter::prompt::resolve_prompt;
use todo_filter::text::contains_sub;
use todo_filter::text::trim;
use todo_filter::todo::Todo;

fn record(user_id: i64, id: i64, title: &str, completed: bool) -> Todo {
    Todo { user_id, id, title: String::from(title), completed }
}

fn sample() -> Vec<Todo> {
    vec![record(1, 1, "abc", false), record(2, 2, "abcdef", true)]
}

#[test]
fn empty_input_yields_the_default() {
    assert_eq!(resolve_prompt("", "0"), "0");
    assert_eq!(resolve_prompt("\n", "0"), "0");
    assert_eq!(resolve_prompt("   ", "0"), "0");
}

#[test]
fn input_is_trimmed_before_use() {
    assert_eq!(resolve_prompt("  7 ", "0"), "7");
    assert_eq!(resolve_prompt("7\n", "0"), "7");
    assert_eq!(resolve_prompt("\ttrue \n", "4"), "true");
}

#[test]
fn blank_menu_input_defaults_to_exit() {
    let choice = resolve_prompt("\n", "4");
    assert_eq!(decide_menu(&choice), MenuAction::Exit);
}

#[test]
fn menu_choices_map_to_actions() {
    assert_eq!(decide_menu("1"), MenuAction::PromptOwner);
    assert_eq!(decide_menu("2"), MenuAction::PromptTitle);
    assert_eq!(decide_menu("3"), MenuAction::PromptCompleted);
    assert_eq!(decide_menu("4"), MenuAction::Exit);
    assert_eq!(decide_menu("9"), MenuAction::Invalid);
    assert_eq!(decide_menu(""), MenuAction::Invalid);
    assert_eq!(decide_menu("11"), MenuAction::Invalid);
}

#[test]
fn completion_answer_yes_means_false() {
    // an answer that is neither "true" nor "t" quietly reads as false,
    // so only incomplete records are kept
    let todos = sample();
    let action = decide_menu("3");
    assert_eq!(action, MenuAction::PromptCompleted);
    let shown = select_records(&todos, action, "yes").unwrap();
    assert_eq!(shown, vec![record(1, 1, "abc", false)]);
}

#[test]
fn completion_answers_true_and_t_mean_true() {
    assert!(parse_completed("true"));
    assert!(parse_completed("t"));
    assert!(!parse_completed("True"));
    assert!(!parse_completed("false"));
    assert!(!parse_completed(""));
}

#[test]
fn unrecognized_choice_shows_the_full_original_set() {
    let todos = sample();
    let narrowed = select_records(&todos, MenuAction::PromptTitle, "abcdef").unwrap();
    assert_eq!(narrowed.len(), 1);
    // the next step starts from the original set again, not from `narrowed`
    let action = decide_menu("9");
    assert_eq!(action, MenuAction::Invalid);
    let shown = select_records(&todos, action, "").unwrap();
    assert_eq!(shown, sample());
}

#[test]
fn owner_answer_is_parsed_as_integer() {
    let todos = sample();
    let shown = select_records(&todos, MenuAction::PromptOwner, "2").unwrap();
    assert_eq!(shown, vec![record(2, 2, "abcdef", true)]);
}

#[test]
fn owner_answer_that_is_no_integer_is_fatal() {
    let todos = sample();
    let r = select_records(&todos, MenuAction::PromptOwner, "two");
    assert_eq!(r, Err(InputError::InvalidNumber));
}

#[test]
fn integers_parse_exactly() {
    assert_eq!(parse_i64("42"), Ok(42));
    assert_eq!(parse_i64("0"), Ok(0));
    assert_eq!(parse_i64("-7"), Ok(-7));
    assert_eq!(parse_i64("+5"), Ok(5));
    assert_eq!(parse_i64("-0"), Ok(0));
    assert_eq!(parse_i64("007"), Ok(7));
    assert_eq!(parse_i64("9223372036854775807"), Ok(i64::MAX));
    assert_eq!(parse_i64("-9223372036854775808"), Ok(i64::MIN));
}

#[test]
fn malformed_or_overflowing_integers_are_rejected() {
    assert_eq!(parse_i64(""), Err(InputError::InvalidNumber));
    assert_eq!(parse_i64("-"), Err(InputError::InvalidNumber));
    assert_eq!(parse_i64("+"), Err(InputError::InvalidNumber));
    assert_eq!(parse_i64("4x"), Err(InputError::InvalidNumber));
    assert_eq!(parse_i64("1 2"), Err(InputError::InvalidNumber));
    assert_eq!(parse_i64("9223372036854775808"), Err(InputError::InvalidNumber));
    assert_eq!(parse_i64("-9223372036854775809"), Err(InputError::InvalidNumber));
    assert_eq!(parse_i64("99999999999999999999999"), Err(InputError::InvalidNumber));
}

#[test]
fn one_loop_step_with_completion_answer_yes() {
    // a whole iteration: menu line "3", completion line "yes"
    let todos = sample();
    let choice = resolve_prompt("3\n", "4");
    let action = decide_menu(&choice);
    assert_eq!(action, MenuAction::PromptCompleted);
    let answer = resolve_prompt("yes\n", "true");
    let shown = select_records(&todos, action, &answer).unwrap();
    assert_eq!(shown, vec![record(1, 1, "abc", false)]);
}

#[test]
fn blank_completion_answer_defaults_to_true() {
    let todos = sample();
    let answer = resolve_prompt("\n", "true");
    let shown = select_records(&todos, MenuAction::PromptCompleted, &answer).unwrap();
    assert_eq!(shown, vec![record(2, 2, "abcdef", true)]);
}

#[test]
fn blank_owner_answer_defaults_to_zero() {
    let todos = sample();
    let answer = resolve_prompt("\n", "0");
    let shown = select_records(&todos, MenuAction::PromptOwner, &answer).unwrap();
    assert_eq!(shown, Vec::<Todo>::new());
}

#[test]
fn trim_and_substring_behave_literally() {
    assert_eq!(trim("  a b  "), "a b");
    assert_eq!(trim(""), "");
    assert_eq!(trim(" \t\n"), "");
    assert!(contains_sub("abcdef", "cde"));
    assert!(contains_sub("abc", ""));
    assert!(!contains_sub("abc", "abcd"));
    assert!(!contains_sub("abc", "ABC"));
}
