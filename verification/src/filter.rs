use vstd::prelude::*;

use crate::text::contains_seq;
use crate::text::contains_sub;
use crate::todo::Todo;

verus! {

/// The three criteria a displayed set can be narrowed by: a literal,
/// case-sensitive title substring, an exact owner identifier, or an exact
/// completion flag.
pub enum FilteringMethod {
    Title(String),
    UserId(i64),
    Completed(bool),
}

/// Whether one record satisfies a criterion.
pub open spec fn todo_matches(t: Todo, method: FilteringMethod) -> bool {
    match method {
        FilteringMethod::Title(sub) => contains_seq(t.title@, sub@),
        FilteringMethod::UserId(user_id) => t.user_id == user_id,
        FilteringMethod::Completed(status) => t.completed == status,
    }
}

/// The records that satisfy a criterion, in their original relative order.
pub open spec fn spec_filter_todos(todos: Seq<Todo>, method: FilteringMethod) -> Seq<Todo> {
    todos.filter(|t: Todo| todo_matches(t, method))
}

fn matches_method(t: &Todo, method: &FilteringMethod) -> (r: bool)
    ensures
        r == todo_matches(*t, *method),
{
    match method {
        FilteringMethod::Title(sub) => contains_sub(t.title.as_str(), sub.as_str()),
        FilteringMethod::UserId(user_id) => t.user_id == *user_id,
        FilteringMethod::Completed(status) => t.completed == *status,
    }
}

/// A new, independent collection holding exactly the records of `todos` that
/// satisfy `method`, in their original relative order. The input collection is
/// read, never changed: every filter pass derives from it fresh.
pub fn filter_todos(todos: &Vec<Todo>, method: FilteringMethod) -> (r: Vec<Todo>)
    ensures
        r@ == spec_filter_todos(todos@, method),
{
    let ghost pred = |t: Todo| todo_matches(t, method);
    let mut result: Vec<Todo> = Vec::new();
    let mut i: usize = 0;
    proof {
        assert(todos@.subrange(0, 0) =~= Seq::<Todo>::empty());
        reveal(Seq::filter);
    }
    while i < todos.len()
        invariant
            i <= todos@.len(),
            result@ == todos@.subrange(0, i as int).filter(pred),
            pred == (|t: Todo| todo_matches(t, method)),
        decreases todos@.len() - i,
    {
        proof {
            let prefix = todos@.subrange(0, i as int);
            let next = todos@.subrange(0, i + 1);
            assert(next.drop_last() =~= prefix);
            assert(next.last() == todos@[i as int]);
            reveal(Seq::filter);
        }
        if matches_method(&todos[i], &method) {
            result.push(todos[i].clone());
        }
        i = i + 1;
    }
    proof {
        assert(todos@.subrange(0, todos@.len() as int) =~= todos@);
    }
    result
}

/// A record drawn from the input is present in the result of filtering by a
/// title substring exactly when its title contains that substring.
pub proof fn lemma_by_title_membership(todos: Seq<Todo>, sub: String, t: Todo)
    requires
        todos.contains(t),
    ensures
        spec_filter_todos(todos, FilteringMethod::Title(sub)).contains(t) <==> contains_seq(
            t.title@,
            sub@,
        ),
{
    lemma_membership(todos, FilteringMethod::Title(sub), t);
}

/// A record drawn from the input is present in the result of filtering by an
/// owner identifier exactly when its owner identifier equals it.
pub proof fn lemma_by_owner_membership(todos: Seq<Todo>, user_id: i64, t: Todo)
    requires
        todos.contains(t),
    ensures
        spec_filter_todos(todos, FilteringMethod::UserId(user_id)).contains(t) <==> t.user_id
            == user_id,
{
    lemma_membership(todos, FilteringMethod::UserId(user_id), t);
}

/// A record drawn from the input is present in the result of filtering by a
/// completion flag exactly when its completion flag equals it.
pub proof fn lemma_by_completed_membership(todos: Seq<Todo>, status: bool, t: Todo)
    requires
        todos.contains(t),
    ensures
        spec_filter_todos(todos, FilteringMethod::Completed(status)).contains(t) <==> t.completed
            == status,
{
    lemma_membership(todos, FilteringMethod::Completed(status), t);
}

/// A record drawn from the input is present in the filtered result exactly
/// when it satisfies the criterion; filtering neither invents records nor
/// drops a matching one.
pub proof fn lemma_membership(todos: Seq<Todo>, method: FilteringMethod, t: Todo)
    requires
        todos.contains(t),
    ensures
        spec_filter_todos(todos, method).contains(t) <==> todo_matches(t, method),
{
    let pred = |x: Todo| todo_matches(x, method);
    let filtered = todos.filter(pred);
    if todo_matches(t, method) {
        let i = choose|i: int| 0 <= i < todos.len() && todos[i] == t;
        todos.lemma_filter_contains(pred, i);
    }
    if filtered.contains(t) {
        let j = choose|j: int| 0 <= j < filtered.len() && filtered[j] == t;
        todos.lemma_filter_pred(pred, j);
    }
}

/// Every record of the filtered result is drawn from the input.
proof fn lemma_filter_source(todos: Seq<Todo>, method: FilteringMethod, i: int)
    requires
        0 <= i < spec_filter_todos(todos, method).len(),
    ensures
        exists|k: int|
            0 <= k < todos.len() && todos[k] == spec_filter_todos(todos, method)[i],
    decreases todos.len(),
{
    reveal(Seq::filter);
    let pred = |t: Todo| todo_matches(t, method);
    let f = todos.filter(pred);
    let sub = todos.drop_last();
    let subf = sub.filter(pred);
    if pred(todos.last()) && i == f.len() - 1 {
        assert(todos[todos.len() - 1] == f[i]);
    } else {
        lemma_filter_source(sub, method, i);
        let k = choose|k: int| 0 <= k < sub.len() && sub[k] == subf[i];
        assert(todos[k] == f[i]);
    }
}

/// Filtering keeps the original relative order: two records of the result
/// stand, in that order, at input positions in the same order.
pub proof fn lemma_filter_order(todos: Seq<Todo>, method: FilteringMethod, i: int, j: int)
    requires
        0 <= i < j < spec_filter_todos(todos, method).len(),
    ensures
        exists|k: int, l: int|
            0 <= k < l < todos.len() && todos[k] == spec_filter_todos(todos, method)[i] && todos[l]
                == spec_filter_todos(todos, method)[j],
    decreases todos.len(),
{
    reveal(Seq::filter);
    let pred = |t: Todo| todo_matches(t, method);
    let f = todos.filter(pred);
    let sub = todos.drop_last();
    let subf = sub.filter(pred);
    if pred(todos.last()) && j == f.len() - 1 {
        lemma_filter_source(sub, method, i);
        let k = choose|k: int| 0 <= k < sub.len() && sub[k] == subf[i];
        assert(todos[k] == f[i]);
        assert(todos[todos.len() - 1] == f[j]);
        assert(0 <= k < todos.len() - 1 < todos.len());
    } else {
        lemma_filter_order(sub, method, i, j);
        let (k, l) = choose|k: int, l: int|
            0 <= k < l < sub.len() && sub[k] == subf[i] && sub[l] == subf[j];
        assert(todos[k] == f[i]);
        assert(todos[l] == f[j]);
    }
}

/// Every record of the filtered result satisfies the criterion, and the
/// result never grows past the input: filtering reads the input and keeps a
/// part of it.
pub proof fn lemma_filter_sound(todos: Seq<Todo>, method: FilteringMethod)
    ensures
        spec_filter_todos(todos, method).len() <= todos.len(),
        forall|i: int|
            0 <= i < spec_filter_todos(todos, method).len() ==> todo_matches(
                #[trigger] spec_filter_todos(todos, method)[i],
                method,
            ),
{
    let pred = |x: Todo| todo_matches(x, method);
    todos.lemma_filter_len(pred);
    assert forall|i: int| 0 <= i < spec_filter_todos(todos, method).len() implies todo_matches(
        spec_filter_todos(todos, method)[i],
        method,
    ) by {
        todos.lemma_filter_pred(pred, i);
    }
}

} // verus!
