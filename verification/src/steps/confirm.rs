//! Yes/no question: the text stored for an answer.

use vstd::prelude::*;

verus! {

/// The text of a boolean: `true` or `false`.
pub open spec fn bool_word(b: bool) -> Seq<char> {
    if b {
        "true"@
    } else {
        "false"@
    }
}

/// The text stored for a yes/no answer.
pub fn bool_text(b: bool) -> (t: String)
    ensures
        t@ == bool_word(b),
{
    if b {
        String::from_str("true")
    } else {
        String::from_str("false")
    }
}

} // verus!
