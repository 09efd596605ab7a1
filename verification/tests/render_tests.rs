use todo_filter::filter::FilteringMethod;
use todo_filter::filter::filter_todos;
use todo_filter::numbers::i64_to_string;
use todo_filter::render::render;
use todo_filter::todo::Todo;

fn record(user_id: i64, id: i64, title: &str, completed: bool) -> Todo {
    Todo { user_id, id, title: String::from(title), completed }
}

#[test]
fn empty_set_renders_header_and_separator_only() {
    let todos: Vec<Todo> = Vec::new();
    let r = render(&todos);
    let header = " User ID\t| ID   \t| Title\t| Completed";
    let expected = format!("{}\n{}\n", header, "-".repeat(47));
    assert_eq!(r, expected);
    assert_eq!(r.lines().count(), 2);
}

#[test]
fn two_records_render_aligned_rows() {
    let todos = vec![record(1, 1, "abc", false), record(2, 2, "abcdef", true)];
    let r = render(&todos);
    let expected = format!(
        " User ID\t| ID   \t| Title \t| Completed\n{}\n    1    \t|   1  \t| abc   \t| false\n    2    \t|   2  \t| abcdef\t| true \n",
        "-".repeat(48)
    );
    assert_eq!(r, expected);
}

#[test]
fn title_column_width_is_recomputed_per_render() {
    let todos = vec![record(1, 1, "ab", false), record(2, 2, "abcdefgh", true)];
    let wide = render(&todos);
    let narrowed = filter_todos(&todos, FilteringMethod::UserId(1));
    let narrow = render(&narrowed);
    // the unfiltered table pads every title to the widest (8 characters);
    // the narrowed table pads only to its own widest title (2 characters)
    assert!(wide.lines().nth(2).unwrap().contains("ab      \t"));
    assert!(narrow.lines().nth(2).unwrap().contains("ab\t"));
}

#[test]
fn negative_and_large_identifiers_render_in_decimal() {
    assert_eq!(i64_to_string(0), "0");
    assert_eq!(i64_to_string(-5), "-5");
    assert_eq!(i64_to_string(10), "10");
    assert_eq!(i64_to_string(i64::MAX), "9223372036854775807");
    assert_eq!(i64_to_string(i64::MIN), "-9223372036854775808");
}

#[test]
fn wide_owner_is_centered_with_spare_space_to_the_right() {
    let todos = vec![record(1234567, 9, "t", true)];
    let r = render(&todos);
    // seven digits in a field of eight: no left pad, one space right
    assert!(r.lines().nth(2).unwrap().starts_with(" 1234567 \t|"));
}
