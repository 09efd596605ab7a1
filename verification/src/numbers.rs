use vstd::prelude::*;
use vstd::string::StrSliceExecFns;
use vstd::string::StringExecFns;

verus! {

/// The one error the interactive layer can signal: text that is not an
/// integer where an owner identifier is expected, or a failed read from
/// standard input. Both are fatal to the surrounding program.
#[derive(Clone, Copy, Debug, PartialEq, Eq, Structural)]
pub enum InputError {
    InvalidNumber,
    ReadFailed,
}

/// The decimal digit character for a value below ten.
pub open spec fn digit_char(d: int) -> char {
    if d == 0 {
        '0'
    } else if d == 1 {
        '1'
    } else if d == 2 {
        '2'
    } else if d == 3 {
        '3'
    } else if d == 4 {
        '4'
    } else if d == 5 {
        '5'
    } else if d == 6 {
        '6'
    } else if d == 7 {
        '7'
    } else if d == 8 {
        '8'
    } else {
        '9'
    }
}

/// The decimal digit string of a non-negative integer, most significant
/// digit first, no sign and no leading zero except for zero itself.
pub open spec fn spec_udec(n: nat) -> Seq<char>
    decreases n,
{
    if n < 10 {
        seq![digit_char(n as int)]
    } else {
        spec_udec(n / 10) + seq![digit_char((n % 10) as int)]
    }
}

/// The decimal string of an integer: a leading minus sign when negative.
pub open spec fn spec_dec(n: int) -> Seq<char> {
    if n < 0 {
        seq!['-'] + spec_udec((-n) as nat)
    } else {
        spec_udec(n as nat)
    }
}

/// Whether a character is a decimal digit.
pub open spec fn is_digit(c: char) -> bool {
    48 <= (c as u32) && (c as u32) <= 57
}

/// The value of a decimal digit character.
pub open spec fn digit_val(c: char) -> int {
    (c as u32) - 48
}

/// Whether every character of the text is a decimal digit.
pub open spec fn all_digits(s: Seq<char>) -> bool {
    forall|i: int| 0 <= i < s.len() ==> is_digit(#[trigger] s[i])
}

/// The non-negative value of a digit string, read left to right.
pub open spec fn digits_val(s: Seq<char>) -> int
    decreases s.len(),
{
    if s.len() == 0 {
        0
    } else {
        digits_val(s.drop_last()) * 10 + digit_val(s.last())
    }
}

/// The text with one leading sign character removed, if it carries one.
pub open spec fn int_body(s: Seq<char>) -> Seq<char> {
    if s.len() > 0 && (s[0] == '-' || s[0] == '+') {
        s.subrange(1, s.len() as int)
    } else {
        s
    }
}

/// Whether the text carries a leading minus sign.
pub open spec fn int_negative(s: Seq<char>) -> bool {
    s.len() > 0 && s[0] == '-'
}

/// Whether the text is an optional sign followed by at least one decimal
/// digit and nothing else.
pub open spec fn is_int_shape(s: Seq<char>) -> bool {
    int_body(s).len() > 0 && all_digits(int_body(s))
}

/// The signed mathematical value of well-shaped integer text.
pub open spec fn int_value(s: Seq<char>) -> int {
    if int_negative(s) {
        -digits_val(int_body(s))
    } else {
        digits_val(int_body(s))
    }
}

/// The value of a digit string is never negative.
proof fn lemma_digits_val_nonneg(s: Seq<char>)
    requires
        all_digits(s),
    ensures
        digits_val(s) >= 0,
    decreases s.len(),
{
    if s.len() > 0 {
        lemma_digits_val_nonneg(s.drop_last());
    }
}

/// Extending a digit string multiplies its value by ten and adds the new
/// digit, so the value of a prefix never exceeds the value of the whole.
proof fn lemma_digits_val_mono(s: Seq<char>, k: int)
    requires
        0 <= k <= s.len(),
        all_digits(s),
    ensures
        digits_val(s.subrange(0, k)) <= digits_val(s),
    decreases s.len() - k,
{
    if k == s.len() {
        assert(s.subrange(0, k) =~= s);
    } else {
        let p = s.subrange(0, k);
        let q = s.subrange(0, k + 1);
        assert(q.drop_last() =~= p);
        assert(q.last() == s[k]);
        assert(all_digits(p));
        lemma_digits_val_nonneg(p);
        assert(digits_val(q) == digits_val(p) * 10 + digit_val(s[k]));
        lemma_digits_val_mono(s, k + 1);
    }
}

fn digit_str(d: u64) -> (r: &'static str)
    requires
        d < 10,
    ensures
        r@ == seq![digit_char(d as int)],
{
    proof {
        reveal_strlit("0");
        reveal_strlit("1");
        reveal_strlit("2");
        reveal_strlit("3");
        reveal_strlit("4");
        reveal_strlit("5");
        reveal_strlit("6");
        reveal_strlit("7");
        reveal_strlit("8");
        reveal_strlit("9");
    }
    let r = match d {
        0 => "0",
        1 => "1",
        2 => "2",
        3 => "3",
        4 => "4",
        5 => "5",
        6 => "6",
        7 => "7",
        8 => "8",
        _ => "9",
    };
    proof {
        assert(r@ =~= seq![digit_char(d as int)]);
    }
    r
}

/// The decimal digit string of an unsigned value.
pub fn u64_to_string(n: u64) -> (r: String)
    ensures
        r@ == spec_udec(n as nat),
    decreases n,
{
    if n < 10 {
        digit_str(n).to_owned()
    } else {
        let mut s = u64_to_string(n / 10);
        s.append(digit_str(n % 10));
        s
    }
}

/// The decimal string of a signed value, with a minus sign when negative.
pub fn i64_to_string(n: i64) -> (r: String)
    ensures
        r@ == spec_dec(n as int),
{
    if n >= 0 {
        u64_to_string(n as u64)
    } else {
        let mag: u64 = if n == i64::MIN {
            9223372036854775808u64
        } else {
            (-n) as u64
        };
        let mut s = "-".to_owned();
        proof {
            reveal_strlit("-");
            assert("-"@ =~= seq!['-']);
        }
        let digits = u64_to_string(mag);
        s.append(digits.as_str());
        s
    }
}

/// Reads a signed decimal integer: an optional `+` or `-` sign followed by
/// one or more digits, whose value fits the result type. Returns the value
/// exactly when the text has that shape and the value fits; any other text
/// is rejected with `InputError::InvalidNumber`.
pub fn parse_i64(s: &str) -> (r: Result<i64, InputError>)
    ensures
        match r {
            Ok(v) => is_int_shape(s@) && i64::MIN <= int_value(s@) <= i64::MAX && v as int
                == int_value(s@),
            Err(e) => (!is_int_shape(s@) || !(i64::MIN <= int_value(s@) <= i64::MAX)) && e
                == InputError::InvalidNumber,
        },
{
    let len = s.unicode_len();
    let ghost body = int_body(s@);
    let mut negative = false;
    let mut i: usize = 0;
    if len > 0 {
        let c0 = s.get_char(0);
        if c0 == '-' {
            negative = true;
            i = 1;
        } else if c0 == '+' {
            i = 1;
        }
    }
    proof {
        if i == 1 {
            assert(body =~= s@.subrange(1, len as int));
        } else {
            assert(body =~= s@);
        }
    }
    if i == len {
        return Err(InputError::InvalidNumber);
    }
    let ghost off = i as int;
    let mut acc: u64 = 0;
    proof {
        assert(body.subrange(0, 0) =~= Seq::<char>::empty());
    }
    while i < len
        invariant
            len == s@.len(),
            body == int_body(s@),
            negative == int_negative(s@),
            0 <= off <= i <= len,
            off + body.len() == len,
            forall|j: int| 0 <= j < i - off ==> is_digit(#[trigger] body[j]),
            forall|j: int| off <= j < len ==> body[j - off] == s@[j],
            acc as int == digits_val(body.subrange(0, i - off)),
        decreases len - i,
    {
        let c = s.get_char(i);
        let cv = c as u32;
        if cv < 48 || cv > 57 {
            proof {
                assert(!is_digit(body[i - off]));
            }
            return Err(InputError::InvalidNumber);
        }
        let d = (cv - 48) as u64;
        proof {
            let p = body.subrange(0, i - off);
            let q = body.subrange(0, i - off + 1);
            assert(q.drop_last() =~= p);
            assert(q.last() == body[i - off]);
        }
        if acc > 1844674407370955161 || (acc == 1844674407370955161 && d > 5) {
            proof {
                let q = body.subrange(0, i - off + 1);
                assert(digits_val(q) == acc as int * 10 + d);
                assert(digits_val(q) > u64::MAX as int);
                if all_digits(body) {
                    lemma_digits_val_mono(body, i - off + 1);
                    assert(digits_val(body) > u64::MAX as int);
                }
            }
            return Err(InputError::InvalidNumber);
        }
        acc = acc * 10 + d;
        i = i + 1;
    }
    proof {
        assert(body.subrange(0, len - off) =~= body);
        assert(is_int_shape(s@));
        lemma_digits_val_nonneg(body);
    }
    if negative {
        if acc > 9223372036854775808u64 {
            Err(InputError::InvalidNumber)
        } else if acc == 9223372036854775808u64 {
            Ok(i64::MIN)
        } else {
            Ok(-(acc as i64))
        }
    } else {
        if acc > 9223372036854775807u64 {
            Err(InputError::InvalidNumber)
        } else {
            Ok(acc as i64)
        }
    }
}

} // verus!
