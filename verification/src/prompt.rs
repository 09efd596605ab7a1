use vstd::prelude::*;
use vstd::string::StrSliceExecFns;

use crate::text::spec_trim;
use crate::text::trim;

verus! {

/// The answer a prompt settles on: the input line with surrounding white
/// space removed, or the default when nothing but white space was typed.
pub open spec fn spec_resolve(line: Seq<char>, default_value: Seq<char>) -> Seq<char> {
    if spec_trim(line).len() == 0 {
        default_value
    } else {
        spec_trim(line)
    }
}

/// Resolves one line read from standard input against a prompt's default:
/// surrounding white space is trimmed away, and an answer that is empty after
/// trimming yields the default. The caller writes the label and reads the
/// line; this settles what the answer is.
pub fn resolve_prompt(line: &str, default_value: &str) -> (r: String)
    ensures
        r@ == spec_resolve(line@, default_value@),
{
    let trimmed = trim(line);
    if trimmed.unicode_len() == 0 {
        default_value.to_owned()
    } else {
        trimmed.to_owned()
    }
}

} // verus!
