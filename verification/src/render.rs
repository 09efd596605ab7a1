use vstd::prelude::*;
use vstd::string::StrSliceExecFns;
use vstd::string::StringExecFns;

use crate::numbers::spec_dec;
use crate::numbers::i64_to_string;
use crate::todo::Todo;

verus! {

/// `n` space characters.
pub open spec fn spaces(n: int) -> Seq<char>
    decreases n,
{
    if n <= 0 {
        Seq::empty()
    } else {
        spaces(n - 1).push(' ')
    }
}

/// `n` dash characters: the separator line between header and rows.
pub open spec fn dashes(n: int) -> Seq<char>
    decreases n,
{
    if n <= 0 {
        Seq::empty()
    } else {
        dashes(n - 1).push('-')
    }
}

/// The text left-justified in a field of `w` characters; text already that
/// wide or wider is kept whole.
pub open spec fn pad_right(s: Seq<char>, w: int) -> Seq<char> {
    if s.len() >= w {
        s
    } else {
        s + spaces(w - s.len())
    }
}

/// The text centered in a field of `w` characters, the odd spare space going
/// to the right; text already that wide or wider is kept whole.
pub open spec fn centered(s: Seq<char>, w: int) -> Seq<char> {
    if s.len() >= w {
        s
    } else {
        spaces((w - s.len()) / 2) + s + spaces(w - s.len() - (w - s.len()) / 2)
    }
}

/// The words a completion flag displays as.
pub open spec fn spec_bool(b: bool) -> Seq<char> {
    if b {
        "true"@
    } else {
        "false"@
    }
}

/// The widest title among the records, in characters; zero when there are
/// none. Recomputed for each render, so a narrowed set may show a narrower
/// title column.
pub open spec fn max_title_len(todos: Seq<Todo>) -> int
    decreases todos.len(),
{
    if todos.len() == 0 {
        0
    } else {
        let rest = max_title_len(todos.drop_last());
        if todos.last().title@.len() > rest {
            todos.last().title@.len() as int
        } else {
            rest
        }
    }
}

/// The header row: the four column names, tab-separated, the title column
/// padded to the computed width.
pub open spec fn spec_header(w: int) -> Seq<char> {
    "User ID\t| ID   \t| "@ + pad_right("Title"@, w) + "\t| Completed"@
}

/// One data row: owner and identifier centered, title left-justified to the
/// computed width, completion flag left-justified in its column.
pub open spec fn spec_row(t: Todo, w: int) -> Seq<char> {
    seq![' '] + centered(spec_dec(t.user_id as int), 8) + "\t| "@ + centered(
        spec_dec(t.id as int),
        5,
    ) + "\t| "@ + pad_right(t.title@, w) + "\t| "@ + pad_right(spec_bool(t.completed), 5)
}

/// The data rows in order, each ended by a newline.
pub open spec fn spec_rows(todos: Seq<Todo>, w: int) -> Seq<char>
    decreases todos.len(),
{
    if todos.len() == 0 {
        Seq::empty()
    } else {
        spec_rows(todos.drop_last(), w) + spec_row(todos.last(), w) + seq!['\n']
    }
}

/// The whole table: a space, the header, a newline, a separator of dashes
/// twelve longer than the header, a newline, then the rows. An empty set
/// renders as the header and the separator with no data rows.
pub open spec fn spec_render(todos: Seq<Todo>) -> Seq<char> {
    let w = max_title_len(todos);
    seq![' '] + spec_header(w) + seq!['\n'] + dashes(spec_header(w).len() as int + 12) + seq!['\n']
        + spec_rows(todos, w)
}

/// A run of spaces is as long as asked for; a non-positive count is empty.
proof fn lemma_spaces_len(n: int)
    ensures
        spaces(n).len() == if n <= 0 {
            0int
        } else {
            n
        },
    decreases n,
{
    if n > 0 {
        lemma_spaces_len(n - 1);
    }
}

fn push_spaces(out: &mut String, n: usize)
    ensures
        final(out)@ == old(out)@ + spaces(n as int),
{
    proof {
        reveal_strlit(" ");
        assert(" "@ =~= seq![' ']);
        assert(out@ + spaces(0) =~= out@);
    }
    let mut k: usize = 0;
    while k < n
        invariant
            k <= n,
            out@ == old(out)@ + spaces(k as int),
        decreases n - k,
    {
        out.append(" ");
        proof {
            reveal_strlit(" ");
            assert(" "@ =~= seq![' ']);
            assert(old(out)@ + spaces(k as int) + seq![' '] =~= old(out)@ + spaces(k + 1));
        }
        k = k + 1;
    }
}

fn push_dashes(out: &mut String, n: usize)
    ensures
        final(out)@ == old(out)@ + dashes(n as int),
{
    proof {
        assert(out@ + dashes(0) =~= out@);
    }
    let mut k: usize = 0;
    while k < n
        invariant
            k <= n,
            out@ == old(out)@ + dashes(k as int),
        decreases n - k,
    {
        out.append("-");
        proof {
            reveal_strlit("-");
            assert("-"@ =~= seq!['-']);
            assert(old(out)@ + dashes(k as int) + seq!['-'] =~= old(out)@ + dashes(k + 1));
        }
        k = k + 1;
    }
}

fn push_padded(out: &mut String, s: &str, w: usize)
    ensures
        final(out)@ == old(out)@ + pad_right(s@, w as int),
{
    let len = s.unicode_len();
    out.append(s);
    if len < w {
        push_spaces(out, w - len);
        proof {
            assert(old(out)@ + s@ + spaces(w - s@.len()) =~= old(out)@ + pad_right(
                s@,
                w as int,
            ));
        }
    }
}

fn push_centered(out: &mut String, s: &str, w: usize)
    ensures
        final(out)@ == old(out)@ + centered(s@, w as int),
{
    let len = s.unicode_len();
    if len >= w {
        out.append(s);
    } else {
        let total: usize = w - len;
        let left: usize = total / 2;
        push_spaces(out, left);
        out.append(s);
        push_spaces(out, total - left);
        proof {
            assert(old(out)@ + spaces(left as int) + s@ + spaces(total - left) =~= old(out)@
                + centered(s@, w as int));
        }
    }
}

fn push_bool(out: &mut String, b: bool)
    ensures
        final(out)@ == old(out)@ + pad_right(spec_bool(b), 5),
{
    if b {
        out.append("true ");
        proof {
            reveal_strlit("true");
            reveal_strlit("true ");
            assert(spaces(0) =~= Seq::<char>::empty());
            assert(spaces(1) =~= seq![' ']);
            assert("true "@ =~= pad_right(spec_bool(true), 5));
        }
    } else {
        out.append("false");
        proof {
            reveal_strlit("false");
            assert("false"@ =~= pad_right(spec_bool(false), 5));
        }
    }
}

fn max_title_width(todos: &Vec<Todo>) -> (w: usize)
    ensures
        w as int == max_title_len(todos@),
{
    let mut w: usize = 0;
    let mut i: usize = 0;
    proof {
        assert(todos@.subrange(0, 0) =~= Seq::<Todo>::empty());
    }
    while i < todos.len()
        invariant
            i <= todos@.len(),
            w as int == max_title_len(todos@.subrange(0, i as int)),
        decreases todos@.len() - i,
    {
        proof {
            let p = todos@.subrange(0, i as int);
            let q = todos@.subrange(0, i + 1);
            assert(q.drop_last() =~= p);
            assert(q.last() == todos@[i as int]);
        }
        let len = todos[i].title.as_str().unicode_len();
        if len > w {
            w = len;
        }
        i = i + 1;
    }
    proof {
        assert(todos@.subrange(0, todos@.len() as int) =~= todos@);
    }
    w
}

fn push_row(out: &mut String, t: &Todo, w: usize)
    ensures
        final(out)@ == old(out)@ + spec_row(*t, w as int) + seq!['\n'],
{
    out.append(" ");
    let user_id_text = i64_to_string(t.user_id);
    push_centered(out, user_id_text.as_str(), 8);
    out.append("\t| ");
    let id_text = i64_to_string(t.id);
    push_centered(out, id_text.as_str(), 5);
    out.append("\t| ");
    push_padded(out, t.title.as_str(), w);
    out.append("\t| ");
    push_bool(out, t.completed);
    out.append("\n");
    proof {
        reveal_strlit(" ");
        reveal_strlit("\n");
        assert(" "@ =~= seq![' ']);
        assert("\n"@ =~= seq!['\n']);
        assert(out@ =~= old(out)@ + spec_row(*t, w as int) + seq!['\n']);
    }
}

/// The table text for the given records: header, separator, one row per
/// record in order. The title column is as wide as the widest title present.
/// The separator adds a fixed margin to the header length, which must fit
/// the machine's size type.
pub fn render(todos: &Vec<Todo>) -> (r: String)
    requires
        max_title_len(todos@) + 42 <= usize::MAX,
    ensures
        r@ == spec_render(todos@),
{
    let w = max_title_width(todos);
    let ghost wi = w as int;
    let mut head = String::new();
    head.append("User ID\t| ID   \t| ");
    push_padded(&mut head, "Title", w);
    head.append("\t| Completed");
    proof {
        assert(head@ =~= spec_header(wi));
        reveal_strlit("User ID\t| ID   \t| ");
        reveal_strlit("Title");
        reveal_strlit("\t| Completed");
        lemma_spaces_len(wi - 5);
        assert(spec_header(wi).len() <= 35 + wi);
    }
    let hlen = head.as_str().unicode_len();
    let mut out = String::new();
    out.append(" ");
    proof {
        reveal_strlit(" ");
        assert(" "@ =~= seq![' ']);
    }
    out.append(head.as_str());
    out.append("\n");
    proof {
        reveal_strlit("\n");
        assert("\n"@ =~= seq!['\n']);
    }
    push_dashes(&mut out, hlen + 12);
    out.append("\n");
    let ghost prefix = seq![' '] + spec_header(wi) + seq!['\n'] + dashes(spec_header(wi).len() as int
        + 12) + seq!['\n'];
    proof {
        reveal_strlit("\n");
        assert("\n"@ =~= seq!['\n']);
        assert(out@ =~= prefix);
        assert(out@ =~= prefix + spec_rows(todos@.subrange(0, 0), wi));
    }
    let mut i: usize = 0;
    while i < todos.len()
        invariant
            i <= todos@.len(),
            wi == w as int,
            wi == max_title_len(todos@),
            wi <= usize::MAX - 42,
            out@ == prefix + spec_rows(todos@.subrange(0, i as int), wi),
        decreases todos@.len() - i,
    {
        proof {
            let p = todos@.subrange(0, i as int);
            let q = todos@.subrange(0, i + 1);
            assert(q.drop_last() =~= p);
            assert(q.last() == todos@[i as int]);
        }
        push_row(&mut out, &todos[i], w);
        proof {
            assert(out@ =~= prefix + spec_rows(todos@.subrange(0, i + 1), wi));
        }
        i = i + 1;
    }
    proof {
        assert(todos@.subrange(0, todos@.len() as int) =~= todos@);
    }
    out
}

} // verus!
