//! Variable interpolation and the storing of output values.

use vstd::prelude::*;
use crate::context::{assoc_insert, lookup, unique_keys, Context};
use crate::text::{
    chars_of, join, join_strings, placeholder, replace_all, replace_all_chars, string_of,
};
use crate::{OutputValue, PromptError};

verus! {

/// The placeholder `{input}`.
pub open spec fn input_placeholder() -> Seq<char> {
    placeholder(seq!['i', 'n', 'p', 'u', 't'])
}

/// `text` with the placeholder of each variable, taken in order, replaced by
/// its value.
pub open spec fn replace_each(text: Seq<char>, vars: Seq<(Seq<char>, Seq<char>)>) -> Seq<char>
    decreases vars.len(),
{
    if vars.len() == 0 {
        text
    } else {
        replace_each(replace_all(text, placeholder(vars[0].0), vars[0].1), vars.skip(1))
    }
}

/// `text` with `{input}` replaced by the last input, if there is one, and
/// then the placeholder of every variable replaced by its value.
pub open spec fn interpolate(
    text: Seq<char>,
    vars: Seq<(Seq<char>, Seq<char>)>,
    last_input: Option<Seq<char>>,
) -> Seq<char> {
    let t = match last_input {
        Some(i) => replace_all(text, input_placeholder(), i),
        None => text,
    };
    replace_each(t, vars)
}

/// The view of an optional string.
pub open spec fn opt_view(o: Option<String>) -> Option<Seq<char>> {
    match o {
        Some(s) => Some(s@),
        None => None,
    }
}

/// The characters of `{name}`.
pub fn placeholder_chars(name: &String) -> (out: Vec<char>)
    ensures
        out@ == placeholder(name@),
{
    let mut out: Vec<char> = Vec::new();
    out.push('{');
    let cs = chars_of(name.as_str());
    crate::text::append_chars(&mut out, &cs);
    out.push('}');
    assert(out@ =~= placeholder(name@));
    out
}

/// Replaces, in order, the placeholder of each variable of `context` in `text`.
pub fn replace_context_vars(text: Vec<char>, context: &Context) -> (out: Vec<char>)
    ensures
        out@ == replace_each(text@, context@),
{
    let ghost vars = context@;
    let mut acc = text;
    let mut i: usize = 0;
    assert(vars.skip(0) =~= vars);
    while i < context.len()
        invariant
            i <= vars.len(),
            vars == context@,
            replace_each(text@, vars) == replace_each(acc@, vars.skip(i as int)),
        decreases vars.len() - i,
    {
        let (k, v) = context.entry(i);
        let pat = placeholder_chars(k);
        let rep = chars_of(v.as_str());
        assert(vars.skip(i as int)[0] == vars[i as int]);
        assert(vars.skip(i as int).skip(1) =~= vars.skip(i + 1));
        acc = replace_all_chars(&acc, &pat, &rep);
        i = i + 1;
    }
    assert(vars.skip(i as int) =~= Seq::<(Seq<char>, Seq<char>)>::empty());
    acc
}

/// Replaces `{input}` with the last input, if any, and every `{name}` with
/// the value of the variable `name`.
pub fn replace_variables(text: &str, context: &Context, last_input: &Option<String>) -> (out:
    String)
    ensures
        out@ == interpolate(text@, context@, opt_view(*last_input)),
{
    let mut cs = chars_of(text);
    if let Some(input) = last_input {
        let pat = vec!['{', 'i', 'n', 'p', 'u', 't', '}'];
        assert(pat@ =~= input_placeholder());
        let rep = chars_of(input.as_str());
        cs = replace_all_chars(&cs, &pat, &rep);
    }
    let out = replace_context_vars(cs, context);
    string_of(&out)
}

/// The variables to start a run with: those given, or none.
pub fn inject_external_variables(variables: Option<Context>) -> (out: Context)
    ensures
        variables matches Some(v) ==> out@ == v@,
        variables is None ==> out@ == Seq::<(Seq<char>, Seq<char>)>::empty(),
{
    match variables {
        Some(v) => v,
        None => Context::new(),
    }
}

/// The variables named by `pairs`, bound in order: a name given twice keeps
/// the later value.
pub fn variables_from_pairs(pairs: Vec<(String, String)>) -> (c: Context)
    ensures
        c@ == crate::context::assoc_extend(
            Seq::empty(),
            pairs@.map_values(|e: (String, String)| (e.0@, e.1@)),
        ),
{
    let ghost t = pairs@.map_values(|e: (String, String)| (e.0@, e.1@));
    let mut c = Context::new();
    let mut i: usize = 0;
    assert(t.skip(0) =~= t);
    while i < pairs.len()
        invariant
            i <= pairs@.len(),
            t == pairs@.map_values(|e: (String, String)| (e.0@, e.1@)),
            crate::context::assoc_extend(Seq::empty(), t) == crate::context::assoc_extend(
                c@,
                t.skip(i as int),
            ),
        decreases pairs@.len() - i,
    {
        assert(t.skip(i as int)[0] == t[i as int]);
        assert(t.skip(i as int).skip(1) =~= t.skip(i + 1));
        c.insert(pairs[i].0.clone(), pairs[i].1.clone());
        i = i + 1;
    }
    assert(t.skip(i as int) =~= Seq::<(Seq<char>, Seq<char>)>::empty());
    c
}

/// What an output value stores: the variable its `value` names, or else the
/// text of `value` itself.
pub open spec fn resolve_output(vars: Seq<(Seq<char>, Seq<char>)>, value: Seq<char>) -> Seq<char> {
    match lookup(vars, value) {
        Some(v) => v,
        None => value,
    }
}

/// The variables after storing each output value in turn, and the stored
/// contents in order.
pub open spec fn store_outputs(
    vars: Seq<(Seq<char>, Seq<char>)>,
    values: Seq<(Seq<char>, Seq<char>)>,
) -> (Seq<(Seq<char>, Seq<char>)>, Seq<Seq<char>>)
    decreases values.len(),
{
    if values.len() == 0 {
        (vars, Seq::empty())
    } else {
        let content = resolve_output(vars, values[0].1);
        let rest = store_outputs(assoc_insert(vars, values[0].0, content), values.skip(1));
        (rest.0, seq![content] + rest.1)
    }
}

/// The views of output values as (name, value) pairs.
pub open spec fn output_views(values: Seq<OutputValue>) -> Seq<(Seq<char>, Seq<char>)> {
    values.map_values(|o: OutputValue| (o.name@, o.value@))
}

/// The variables after `handle_output`: each output value stored, then the
/// contents joined by commas under `output`, if given.
pub open spec fn handled_outputs(
    vars: Seq<(Seq<char>, Seq<char>)>,
    values: Seq<(Seq<char>, Seq<char>)>,
    output: Option<Seq<char>>,
) -> Seq<(Seq<char>, Seq<char>)> {
    let r = store_outputs(vars, values);
    match output {
        Some(key) => assoc_insert(r.0, key, join(r.1, seq![','])),
        None => r.0,
    }
}

/// Stores each output value in the context under its name, and, when `output`
/// is given, all the stored contents joined by commas under that key.
pub fn handle_output(values: &Vec<OutputValue>, output: &Option<String>, context: &mut Context) -> (r:
    Result<(), PromptError>)
    ensures
        r is Ok,
        final(context)@ == handled_outputs(old(context)@, output_views(values@), opt_view(*output)),
        unique_keys(final(context)@),
{
    proof {
        use_type_invariant(&*context);
    }
    let ghost vals = output_views(values@);
    let ghost start = context@;
    let mut collected: Vec<String> = Vec::new();
    let mut i: usize = 0;
    assert(vals.skip(0) =~= vals);
    while i < values.len()
        invariant
            i <= values@.len(),
            vals == output_views(values@),
            unique_keys(context@),
            store_outputs(start, vals) == ({
                let r = store_outputs(context@, vals.skip(i as int));
                (r.0, collected@.map_values(|p: String| p@) + r.1)
            }),
        decreases values@.len() - i,
    {
        let ov = &values[i];
        let content = match context.get(&ov.value) {
            Some(v) => v.clone(),
            None => ov.value.clone(),
        };
        assert(vals.skip(i as int)[0] == vals[i as int]);
        assert(vals.skip(i as int).skip(1) =~= vals.skip(i + 1));
        let ghost before = collected@.map_values(|p: String| p@);
        context.insert(ov.name.clone(), content.clone());
        collected.push(content);
        assert(collected@.map_values(|p: String| p@) =~= before.push(content@));
        i = i + 1;
        assert(forall|a: Seq<Seq<char>>, b: Seq<Seq<char>>, c: Seq<char>| #[trigger] (a.push(c) + b) =~= a + (seq![c] + b));
    }
    assert(vals.skip(i as int) =~= Seq::<(Seq<char>, Seq<char>)>::empty());
    assert(collected@.map_values(|p: String| p@) + Seq::<Seq<char>>::empty() =~= collected@.map_values(|p: String| p@));
    assert(store_outputs(start, vals).0 == context@);
    assert(store_outputs(start, vals).1 == collected@.map_values(|p: String| p@));
    if let Some(key) = output {
        let sep = vec![','];
        assert(sep@ =~= seq![',']);
        let combined = join_strings(&collected, &sep);
        context.insert(key.clone(), combined);
    }
    Ok(())
}

} // verus!
