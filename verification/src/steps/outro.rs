//! Closing banner: the text shown and stored.

use vstd::prelude::*;
use crate::context::{lookup, Context};
use crate::variables::{interpolate, opt_view, replace_variables};

verus! {

/// The value that stands for `{input}` in a closing banner: the variable
/// named by `input` when it is set, else the last input.
pub open spec fn outro_input(
    last_input: Option<Seq<char>>,
    input: Option<Seq<char>>,
    vars: Seq<(Seq<char>, Seq<char>)>,
) -> Option<Seq<char>> {
    match input {
        Some(k) => match lookup(vars, k) {
            Some(v) => Some(v),
            None => last_input,
        },
        None => last_input,
    }
}

/// The text of a closing banner, with its variables replaced.
pub fn outro_text(text: &String, input: &Option<String>, context: &Context, last_input: &Option<String>) -> (r:
    String)
    ensures
        r@ == interpolate(text@, context@, outro_input(opt_view(*last_input), opt_view(*input), context@)),
{
    proof {
        use_type_invariant(context);
    }
    let mut local = match last_input {
        Some(s) => Some(s.clone()),
        None => None,
    };
    if let Some(k) = input {
        if let Some(v) = context.get(k) {
            local = Some(v.clone());
        }
    }
    replace_variables(text.as_str(), context, &local)
}

} // verus!
