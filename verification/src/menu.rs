use vstd::prelude::*;
use vstd::string::StrSliceExecFns;

use crate::filter::FilteringMethod;
use crate::filter::filter_todos;
use crate::filter::todo_matches;
use crate::numbers::InputError;
use crate::numbers::int_value;
use crate::numbers::is_int_shape;
use crate::numbers::parse_i64;
use crate::text::contains_seq;
use crate::text::str_eq;
use crate::todo::Todo;

verus! {

/// What one menu choice asks for next: a follow-up prompt for a criterion's
/// argument, leaving the loop, or nothing recognized.
#[derive(Clone, Copy, Debug, PartialEq, Eq, Structural)]
pub enum MenuAction {
    PromptOwner,
    PromptTitle,
    PromptCompleted,
    Exit,
    Invalid,
}

/// The transition the menu makes on a resolved choice: `"1"` through `"4"`
/// select the owner prompt, the title prompt, the completion prompt and exit;
/// anything else is unrecognized.
pub open spec fn spec_decide_menu(choice: Seq<char>) -> MenuAction {
    if choice == "1"@ {
        MenuAction::PromptOwner
    } else if choice == "2"@ {
        MenuAction::PromptTitle
    } else if choice == "3"@ {
        MenuAction::PromptCompleted
    } else if choice == "4"@ {
        MenuAction::Exit
    } else {
        MenuAction::Invalid
    }
}

/// Decides what a resolved menu answer selects.
pub fn decide_menu(choice: &str) -> (a: MenuAction)
    ensures
        a == spec_decide_menu(choice@),
{
    if str_eq(choice, "1") {
        MenuAction::PromptOwner
    } else if str_eq(choice, "2") {
        MenuAction::PromptTitle
    } else if str_eq(choice, "3") {
        MenuAction::PromptCompleted
    } else if str_eq(choice, "4") {
        MenuAction::Exit
    } else {
        MenuAction::Invalid
    }
}

/// How completion-prompt text reads as a flag: exactly `"true"` and `"t"`
/// mean true; any other text, well-formed or not, quietly means false.
pub open spec fn spec_completed_flag(s: Seq<char>) -> bool {
    s == "true"@ || s == "t"@
}

/// Reads the completion prompt's resolved answer as a flag.
pub fn parse_completed(s: &str) -> (b: bool)
    ensures
        b == spec_completed_flag(s@),
{
    str_eq(s, "true") || str_eq(s, "t")
}

/// The records one loop step displays, as a function of the chosen action and
/// the resolved follow-up answer: a fresh filtering of the original set for a
/// recognized criterion, and the whole original set after an unrecognized
/// choice — never the previous step's result.
pub open spec fn spec_select(todos: Seq<Todo>, action: MenuAction, answer: Seq<char>) -> Seq<
    Todo,
> {
    match action {
        MenuAction::PromptOwner => todos.filter(
            |t: Todo| t.user_id as int == int_value(answer),
        ),
        MenuAction::PromptTitle => todos.filter(|t: Todo| contains_seq(t.title@, answer)),
        MenuAction::PromptCompleted => todos.filter(
            |t: Todo| t.completed == spec_completed_flag(answer),
        ),
        MenuAction::Exit => Seq::empty(),
        MenuAction::Invalid => todos,
    }
}

fn clone_todos(todos: &Vec<Todo>) -> (r: Vec<Todo>)
    ensures
        r@ == todos@,
{
    let mut r: Vec<Todo> = Vec::new();
    let mut i: usize = 0;
    while i < todos.len()
        invariant
            i <= todos@.len(),
            r@ == todos@.subrange(0, i as int),
        decreases todos@.len() - i,
    {
        r.push(todos[i].clone());
        proof {
            assert(r@ =~= todos@.subrange(0, i + 1));
        }
        i = i + 1;
    }
    proof {
        assert(todos@.subrange(0, todos@.len() as int) =~= todos@);
    }
    r
}

/// Derives from the immutable original set the records that one loop step
/// displays. A recognized criterion filters the original set afresh; an
/// unrecognized choice yields the original set whole. Only the owner prompt
/// can fail: text that is not an integer fitting the owner type is fatal,
/// exactly as `parse_i64` states. Exit leaves nothing to display and is the
/// one action this never takes.
pub fn select_records(todos: &Vec<Todo>, action: MenuAction, answer: &str) -> (r: Result<
    Vec<Todo>,
    InputError,
>)
    requires
        action != MenuAction::Exit,
    ensures
        match r {
            Ok(v) => v@ == spec_select(todos@, action, answer@) && (action
                == MenuAction::PromptOwner ==> is_int_shape(answer@) && i64::MIN <= int_value(
                answer@,
            ) <= i64::MAX),
            Err(e) => action == MenuAction::PromptOwner && (!is_int_shape(answer@) || !(i64::MIN
                <= int_value(answer@) <= i64::MAX)) && e == InputError::InvalidNumber,
        },
{
    match action {
        MenuAction::PromptOwner => {
            match parse_i64(answer) {
                Ok(user_id) => {
                    let r = filter_todos(todos, FilteringMethod::UserId(user_id));
                    proof {
                        assert((|t: Todo| todo_matches(t, FilteringMethod::UserId(user_id))) =~= (
                        |t: Todo| t.user_id as int == int_value(answer@)));
                    }
                    Ok(r)
                },
                Err(e) => Err(e),
            }
        },
        MenuAction::PromptTitle => {
            let sub = answer.to_owned();
            let r = filter_todos(todos, FilteringMethod::Title(sub));
            proof {
                assert((|t: Todo| todo_matches(t, FilteringMethod::Title(sub))) =~= (
                |t: Todo| contains_seq(t.title@, answer@)));
            }
            Ok(r)
        },
        MenuAction::PromptCompleted => {
            let flag = parse_completed(answer);
            let r = filter_todos(todos, FilteringMethod::Completed(flag));
            proof {
                assert((|t: Todo| todo_matches(t, FilteringMethod::Completed(flag))) =~= (
                |t: Todo| t.completed == spec_completed_flag(answer@)));
            }
            Ok(r)
        },
        MenuAction::Exit => {
            let r: Vec<Todo> = Vec::new();
            Ok(r)
        },
        MenuAction::Invalid => Ok(clone_todos(todos)),
    }
}

} // verus!
