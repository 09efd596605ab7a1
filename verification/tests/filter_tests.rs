use todo_filter::filter::FilteringMethod;
use todo_filter::filter::filter_todos;
use todo_filter::todo::Todo;

fn record(user_id: i64, id: i64, title: &str, completed: bool) -> Todo {
    Todo { user_id, id, title: String::from(title), completed }
}

fn sample() -> Vec<Todo> {
    vec![record(1, 1, "abc", false), record(2, 2, "abcdef", true)]
}

#[test]
fn by_title_keeps_both_in_order() {
    let todos = sample();
    let r = filter_todos(&todos, FilteringMethod::Title(String::from("abc")));
    assert_eq!(r, sample());
}

#[test]
fn by_owner_keeps_only_matching() {
    let todos = sample();
    let r = filter_todos(&todos, FilteringMethod::UserId(2));
    assert_eq!(r, vec![record(2, 2, "abcdef", true)]);
}

#[test]
fn by_completed_true_keeps_only_completed() {
    let todos = sample();
    let r = filter_todos(&todos, FilteringMethod::Completed(true));
    assert_eq!(r, vec![record(2, 2, "abcdef", true)]);
}

#[test]
fn by_completed_false_keeps_only_incomplete() {
    let todos = sample();
    let r = filter_todos(&todos, FilteringMethod::Completed(false));
    assert_eq!(r, vec![record(1, 1, "abc", false)]);
}

#[test]
fn by_title_is_case_sensitive() {
    let todos = sample();
    let r = filter_todos(&todos, FilteringMethod::Title(String::from("ABC")));
    assert_eq!(r, Vec::<Todo>::new());
}

#[test]
fn by_title_empty_substring_keeps_all() {
    let todos = sample();
    let r = filter_todos(&todos, FilteringMethod::Title(String::new()));
    assert_eq!(r, sample());
}

#[test]
fn by_title_inner_substring_matches() {
    let todos = sample();
    let r = filter_todos(&todos, FilteringMethod::Title(String::from("cde")));
    assert_eq!(r, vec![record(2, 2, "abcdef", true)]);
}

#[test]
fn empty_input_gives_empty_result() {
    let todos: Vec<Todo> = Vec::new();
    let r = filter_todos(&todos, FilteringMethod::UserId(1));
    assert_eq!(r, Vec::<Todo>::new());
}

#[test]
fn owner_with_no_records_gives_empty_result() {
    let todos = sample();
    let r = filter_todos(&todos, FilteringMethod::UserId(7));
    assert_eq!(r, Vec::<Todo>::new());
}

#[test]
fn equal_owners_are_all_kept_in_order() {
    let todos = vec![
        record(5, 1, "first", false),
        record(6, 2, "second", true),
        record(5, 3, "third", true),
    ];
    let r = filter_todos(&todos, FilteringMethod::UserId(5));
    assert_eq!(r, vec![record(5, 1, "first", false), record(5, 3, "third", true)]);
}

#[test]
fn two_calls_read_the_original_and_are_independent() {
    let todos = sample();
    let first = filter_todos(&todos, FilteringMethod::Completed(false));
    let second = filter_todos(&todos, FilteringMethod::Completed(true));
    // the input is unchanged by either call
    assert_eq!(todos, sample());
    // the second result is drawn from the original set, not from the first
    // result: the two are disjoint here, so no record of the second could
    // have come from the first
    assert_eq!(first, vec![record(1, 1, "abc", false)]);
    assert_eq!(second, vec![record(2, 2, "abcdef", true)]);
    assert!(second.iter().all(|t| !first.contains(t)));
}
