//! Properties of the library as a whole, proved over the specifications
//! that its functions' contracts use.

use vstd::prelude::*;
use crate::context::{
    assoc_extend, assoc_insert, has_key, key_index, lemma_insert, lookup, unique_keys,
};
use crate::engine::{
    next_runnable, proceeds, reaction, record, select_store, should_run, store_opt, transition,
    Phase, Reaction, Reply, RunState, Stage,
};
use crate::steps::multi_select::{count_name, indexed_name, multi_select_outputs, store_indexed};
use crate::text::{decimal, digit_char, join, occurs_at, placeholder, replace_all};
use crate::variables::{input_placeholder, interpolate, replace_each};
use crate::PromptError;
use crate::engine::Request;
use vstd::utf8::{decode_utf8, encode_utf8};

verus! {

/// Steps are taken in order, and a step is skipped exactly when its
/// condition does not hold: the next step to run after `from` is the first
/// one at or after `from` whose condition holds, and every step before it is
/// one whose condition fails.
pub proof fn lemma_next_runnable(
    steps: Seq<crate::PromptStep>,
    results: Seq<(Seq<char>, bool)>,
    from: int,
)
    requires
        0 <= from <= steps.len(),
    ensures
        from <= next_runnable(steps, results, from) <= steps.len(),
        forall|i: int|
            from <= i < next_runnable(steps, results, from) ==> !should_run(
                #[trigger] steps[i],
                results,
            ),
        next_runnable(steps, results, from) < steps.len() ==> should_run(
            steps[next_runnable(steps, results, from)],
            results,
        ),
    decreases steps.len() - from,
{
    if from < steps.len() && !should_run(steps[from], results) {
        lemma_next_runnable(steps, results, from + 1);
    }
}

/// A step that is awaiting an answer is always one whose condition holds:
/// no reply can make the run ask for a step whose condition fails, and the
/// steps passed over on the way are those whose conditions fail.
pub proof fn lemma_conditions_respected(s: RunState, reply: Reply, t: RunState, r: Result<Request, PromptError>)
    requires
        transition(s, reply, t, r),
        s.phase is Awaiting ==> 0 <= s.pos < s.steps.len() && should_run(s.steps[s.pos], s.results),
        0 <= s.pos <= s.steps.len(),
        s.phase is NotStarted ==> s.pos == 0,
    ensures
        t.phase is Awaiting ==> 0 <= t.pos < t.steps.len() && should_run(t.steps[t.pos], t.results),
        t.pos != s.pos ==> forall|i: int|
            s.pos < i < t.pos ==> !should_run(#[trigger] t.steps[i], t.results),
        t.pos != s.pos && s.phase is NotStarted ==> forall|i: int|
            0 <= i < t.pos ==> !should_run(#[trigger] t.steps[i], t.results),
{
    match s.phase {
        Phase::NotStarted => {
            if reply is Start {
                lemma_next_runnable(s.steps, s.results, 0);
            }
        },
        Phase::Awaiting(stage) => {
            match reaction(stage, reply, s.vars, s.last_input) {
                Reaction::Complete { vars, last, result } => {
                    let res = record(s.results, s.steps[s.pos].step_name, result);
                    lemma_next_runnable(s.steps, res, s.pos + 1);
                },
                _ => {},
            }
        },
        _ => {},
    }
}

/// The outcome of a named step is recorded under its name when the step
/// ends: a later condition on that name sees it.
pub proof fn lemma_outcome_recorded(results: Seq<(Seq<char>, bool)>, name: String, result: bool)
    requires
        unique_keys(results),
    ensures
        lookup(record(results, Some(name), result), name@) == Some(result),
{
    lemma_insert(results, name@, result);
}

proof fn lemma_insert_keeps<V>(s: Seq<(Seq<char>, V)>, k: Seq<char>, v: V)
    ensures
        forall|k2: Seq<char>| has_key(s, k2) ==> #[trigger] has_key(assoc_insert(s, k, v), k2),
{
    assert forall|k2: Seq<char>| has_key(s, k2) implies #[trigger] has_key(assoc_insert(s, k, v), k2) by {
        let j = key_index(s, k2);
        let r = assoc_insert(s, k, v);
        if has_key(s, k) {
            let idx = key_index(s, k);
            if j == idx {
                assert(r[idx].0 == k);
                assert(k == k2);
            } else {
                assert(r[j] == s[j]);
            }
        } else {
            assert(r[j] == s[j]);
        }
    }
}

proof fn lemma_extend_keeps<V>(s: Seq<(Seq<char>, V)>, t: Seq<(Seq<char>, V)>)
    ensures
        forall|k2: Seq<char>| has_key(s, k2) ==> #[trigger] has_key(assoc_extend(s, t), k2),
    decreases t.len(),
{
    if t.len() > 0 {
        let s1 = assoc_insert(s, t[0].0, t[0].1);
        lemma_insert_keeps(s, t[0].0, t[0].1);
        lemma_extend_keeps(s1, t.skip(1));
        assert forall|k2: Seq<char>| has_key(s, k2) implies #[trigger] has_key(assoc_extend(s, t), k2) by {
            assert(has_key(s1, k2));
            assert(assoc_extend(s, t) == assoc_extend(s1, t.skip(1)));
        }
    }
}

proof fn lemma_store_indexed_keeps(
    vars: Seq<(Seq<char>, Seq<char>)>,
    key: Seq<char>,
    chosen: Seq<Seq<char>>,
    n: nat,
)
    ensures
        forall|k2: Seq<char>| has_key(vars, k2) ==> #[trigger] has_key(
            store_indexed(vars, key, chosen, n),
            k2,
        ),
    decreases n,
{
    if n > 0 {
        lemma_store_indexed_keeps(vars, key, chosen, (n - 1) as nat);
        let prev = store_indexed(vars, key, chosen, (n - 1) as nat);
        lemma_insert_keeps(prev, indexed_name(key, (n - 1) as nat), chosen[n - 1]);
    }
}

proof fn lemma_multi_select_keeps(vars: Seq<(Seq<char>, Seq<char>)>, key: Seq<char>, chosen: Seq<Seq<char>>)
    ensures
        forall|k2: Seq<char>| has_key(vars, k2) ==> #[trigger] has_key(
            multi_select_outputs(vars, key, chosen),
            k2,
        ),
{
    let v1 = assoc_insert(vars, key, join(chosen, seq![',']));
    lemma_insert_keeps(vars, key, join(chosen, seq![',']));
    lemma_store_indexed_keeps(v1, key, chosen, chosen.len());
    let v2 = store_indexed(v1, key, chosen, chosen.len());
    lemma_insert_keeps(v2, count_name(key), decimal(chosen.len()));
}

/// No reply removes a variable: every name bound before a reply is still
/// bound after it, so the variables handed to a run come back from it
/// (possibly with values that steps wrote over them).
pub proof fn lemma_names_kept(s: RunState, reply: Reply, t: RunState, r: Result<Request, PromptError>)
    requires
        transition(s, reply, t, r),
    ensures
        forall|k: Seq<char>| has_key(s.vars, k) ==> #[trigger] has_key(t.vars, k),
{
    match s.phase {
        Phase::Awaiting(stage) => {
            match reaction(stage, reply, s.vars, s.last_input) {
                Reaction::Complete { vars, last, result } => {
                    lemma_reaction_keeps(stage, reply, s.vars, s.last_input);
                },
                _ => {},
            }
        },
        _ => {},
    }
}

proof fn lemma_reaction_keeps(stage: Stage, reply: Reply, vars: Seq<(Seq<char>, Seq<char>)>, last: Option<Seq<char>>)
    ensures
        reaction(stage, reply, vars, last) matches Reaction::Complete { vars: v2, .. } ==> forall|
            k: Seq<char>,
        | has_key(vars, k) ==> #[trigger] has_key(v2, k),
{
    match stage {
        Stage::Store { key, value } => {
            if let Some(k) = key {
                lemma_insert_keeps(vars, k@, value@);
            }
        },
        Stage::Confirm { output } => {
            if let (Some(k), Reply::Confirmed(b)) = (output, reply) {
                lemma_insert_keeps(vars, k@, crate::steps::confirm::bool_word(b));
            }
        },
        Stage::Input { output, .. } => {
            if let (Some(k), Reply::Text(v)) = (output, reply) {
                lemma_insert_keeps(vars, k@, v@);
            }
        },
        Stage::MultiChoose { output } => {
            if let (Some(k), Reply::Chosen(vs)) = (output, reply) {
                lemma_multi_select_keeps(vars, k@, vs@.map_values(|s: String| s@));
            }
        },
        Stage::SelectChoose { items, output } => {
            if let (Some(k), Reply::ChosenOne(v)) = (output, reply) {
                lemma_insert_keeps(vars, k@, v@);
            }
        },
        Stage::Nested { selected, output } => {
            if let Reply::NestedResult(res) = reply {
                lemma_extend_keeps(vars, res@);
                if let Some(k) = output {
                    let v1 = assoc_extend(vars, res@);
                    lemma_insert_keeps(
                        v1,
                        k@,
                        crate::steps::select::nested_choice_value(selected@, res@),
                    );
                }
            }
        },
        Stage::PasswordEntry { output, .. } => {
            if let (Some(k), Reply::Text(pw)) = (output, reply) {
                lemma_insert_keeps(vars, k@, pw@);
            }
        },
        Stage::PasswordConfirm { output, first } => {
            if let Some(k) = output {
                lemma_insert_keeps(vars, k@, first@);
            }
        },
        _ => {},
    }
}

/// Whether a step in `stage` writes no variable when it ends: it shows
/// something, or it has no output (and is not a choice that runs a nested
/// flow, whose variables are merged in).
pub open spec fn stage_writes_nothing(stage: Stage) -> bool {
    match stage {
        Stage::Plain => true,
        Stage::Store { key, .. } => key is None,
        Stage::Confirm { output } => output is None,
        Stage::Input { output, .. } => output is None,
        Stage::MultiChoose { output } => output is None,
        Stage::SelectChoose { output, .. } => output is None,
        Stage::PasswordEntry { output, .. } => output is None,
        Stage::PasswordConfirm { output, .. } => output is None,
        _ => false,
    }
}

/// A step without an output leaves the variables as they were: a flow of
/// banners, messages and unnamed answers hands back exactly the variables
/// it was given.
pub proof fn lemma_quiet_steps_keep_vars(
    stage: Stage,
    reply: Reply,
    vars: Seq<(Seq<char>, Seq<char>)>,
    last: Option<Seq<char>>,
)
    requires
        stage_writes_nothing(stage),
    ensures
        reaction(stage, reply, vars, last) matches Reaction::Complete { vars: v2, .. } ==> v2 == vars,
{
}

/// Starting or skipping steps changes no variable, no outcome and not the
/// last input.
pub proof fn lemma_proceeding_keeps_state(
    steps: Seq<crate::PromptStep>,
    from: int,
    vars: Seq<(Seq<char>, Seq<char>)>,
    results: Seq<(Seq<char>, bool)>,
    last: Option<Seq<char>>,
    t: RunState,
    r: Result<Request, PromptError>,
)
    requires
        proceeds(steps, from, vars, results, last, t, r),
    ensures
        t.vars == vars,
        t.results == results,
        t.last_input == last,
{
}

/// Replacing everywhere a pattern that does not occur leaves the text as it
/// was.
pub proof fn lemma_replace_absent(s: Seq<char>, pat: Seq<char>, rep: Seq<char>)
    requires
        pat.len() > 0,
        !s.contains(pat[0]),
    ensures
        replace_all(s, pat, rep) == s,
    decreases s.len(),
{
    if s.len() > 0 {
        assert(!occurs_at(s, pat, 0)) by {
            if occurs_at(s, pat, 0) {
                assert(s.subrange(0, pat.len() as int)[0] == s[0]);
            }
        }
        assert forall|c: char| s.skip(1).contains(c) implies s.contains(c) by {
            let i = choose|i: int| 0 <= i < s.skip(1).len() && #[trigger] s.skip(1)[i] == c;
            assert(s[i + 1] == c);
        }
        lemma_replace_absent(s.skip(1), pat, rep);
        assert(seq![s[0]] + s.skip(1) =~= s);
    }
}

/// A text without `{` holds no placeholder: interpolation leaves it as it
/// was, whatever the variables and the last input.
pub proof fn lemma_plain_text_unchanged(
    text: Seq<char>,
    vars: Seq<(Seq<char>, Seq<char>)>,
    last: Option<Seq<char>>,
)
    requires
        !text.contains('{'),
    ensures
        interpolate(text, vars, last) == text,
{
    if let Some(i) = last {
        lemma_replace_absent(text, input_placeholder(), i);
    }
    lemma_replace_each_plain(text, vars);
}

proof fn lemma_replace_each_plain(text: Seq<char>, vars: Seq<(Seq<char>, Seq<char>)>)
    requires
        !text.contains('{'),
    ensures
        replace_each(text, vars) == text,
    decreases vars.len(),
{
    if vars.len() > 0 {
        lemma_replace_absent(text, placeholder(vars[0].0), vars[0].1);
        lemma_replace_each_plain(text, vars.skip(1));
    }
}

/// A placeholder on its own becomes the value of its variable.
pub proof fn lemma_placeholder_replaced(name: Seq<char>, value: Seq<char>)
    ensures
        replace_all(placeholder(name), placeholder(name), value) == value,
{
    let p = placeholder(name);
    assert(occurs_at(p, p, 0)) by {
        assert(p.subrange(0, p.len() as int) =~= p);
    }
    assert(p.skip(p.len() as int) =~= Seq::<char>::empty());
    assert(replace_all(Seq::<char>::empty(), p, value) == Seq::<char>::empty());
    assert(value + Seq::<char>::empty() =~= value);
}

/// Whether `c` is a decimal digit.
pub open spec fn is_digit(c: char) -> bool {
    '0' <= c <= '9'
}

proof fn lemma_decimal_shape(n: nat)
    ensures
        decimal(n).len() >= 1,
        n < 10 ==> decimal(n).len() == 1,
        n >= 10 ==> decimal(n).len() >= 2,
        forall|i: int| 0 <= i < decimal(n).len() ==> is_digit(#[trigger] decimal(n)[i]),
    decreases n,
{
    if n >= 10 {
        lemma_decimal_shape(n / 10);
        let d = decimal(n / 10);
        assert forall|i: int| 0 <= i < decimal(n).len() implies is_digit(#[trigger] decimal(n)[i]) by {
            if i < d.len() {
                assert(decimal(n)[i] == d[i]);
            }
        }
    }
}

proof fn lemma_digit_injective(a: nat, b: nat)
    requires
        a < 10,
        b < 10,
        digit_char(a) == digit_char(b),
    ensures
        a == b,
{
}

proof fn lemma_decimal_injective(a: nat, b: nat)
    requires
        decimal(a) == decimal(b),
    ensures
        a == b,
    decreases a + b,
{
    lemma_decimal_shape(a);
    lemma_decimal_shape(b);
    if a >= 10 && b >= 10 {
        let da = decimal(a);
        assert(da.last() == digit_char(a % 10));
        assert(decimal(b).last() == digit_char(b % 10));
        assert(da.drop_last() =~= decimal(a / 10));
        assert(decimal(b).drop_last() =~= decimal(b / 10));
        lemma_decimal_injective(a / 10, b / 10);
        lemma_digit_injective(a % 10, b % 10);
    } else if a < 10 && b < 10 {
        assert(decimal(a)[0] == digit_char(a));
        assert(decimal(b)[0] == digit_char(b));
        lemma_digit_injective(a, b);
    }
}

proof fn lemma_names_differ(key: Seq<char>, i: nat, j: nat)
    ensures
        i != j ==> indexed_name(key, i) != indexed_name(key, j),
        indexed_name(key, i) != count_name(key),
        indexed_name(key, i) != key,
        count_name(key) != key,
{
    lemma_decimal_shape(i);
    lemma_decimal_shape(j);
    let p = key + seq!['_'];
    if i != j && indexed_name(key, i) == indexed_name(key, j) {
        assert(indexed_name(key, i).skip(p.len() as int) =~= decimal(i));
        assert(indexed_name(key, j).skip(p.len() as int) =~= decimal(j));
        lemma_decimal_injective(i, j);
    }
    assert(indexed_name(key, i)[key.len() as int + 1] == decimal(i)[0]);
    assert(is_digit(decimal(i)[0]));
    assert(count_name(key)[key.len() as int + 1] == 'c') by {
        reveal_strlit("_count");
    }
    assert(indexed_name(key, i).len() > key.len());
    assert(count_name(key).len() > key.len()) by {
        reveal_strlit("_count");
    }
}

proof fn lemma_store_indexed_lookup(
    vars: Seq<(Seq<char>, Seq<char>)>,
    key: Seq<char>,
    chosen: Seq<Seq<char>>,
    n: nat,
)
    requires
        unique_keys(vars),
        n <= chosen.len(),
    ensures
        unique_keys(store_indexed(vars, key, chosen, n)),
        forall|i: nat| i < n ==> lookup(store_indexed(vars, key, chosen, n), #[trigger] indexed_name(key, i))
            == Some(chosen[i as int]),
        forall|k: Seq<char>|
            (forall|i: nat| i < n ==> k != #[trigger] indexed_name(key, i)) ==> lookup(
                store_indexed(vars, key, chosen, n),
                k,
            ) == lookup(vars, k),
    decreases n,
{
    if n > 0 {
        let m = (n - 1) as nat;
        lemma_store_indexed_lookup(vars, key, chosen, m);
        let prev = store_indexed(vars, key, chosen, m);
        lemma_insert(prev, indexed_name(key, m), chosen[m as int]);
        assert forall|i: nat| i < n implies lookup(
            store_indexed(vars, key, chosen, n),
            #[trigger] indexed_name(key, i),
        ) == Some(chosen[i as int]) by {
            lemma_names_differ(key, i, m);
        }
    }
}

/// A multiple choice stored under `key` can be read back: `key` gives the
/// choices joined by commas, `key_<i>` the `i`-th choice, and `key_count`
/// their number.
pub proof fn lemma_multi_select_readback(
    vars: Seq<(Seq<char>, Seq<char>)>,
    key: Seq<char>,
    chosen: Seq<Seq<char>>,
)
    requires
        unique_keys(vars),
    ensures
        lookup(multi_select_outputs(vars, key, chosen), key) == Some(join(chosen, seq![','])),
        forall|i: nat| i < chosen.len() ==> lookup(
            multi_select_outputs(vars, key, chosen),
            #[trigger] indexed_name(key, i),
        ) == Some(chosen[i as int]),
        lookup(multi_select_outputs(vars, key, chosen), count_name(key)) == Some(
            decimal(chosen.len()),
        ),
{
    let v1 = assoc_insert(vars, key, join(chosen, seq![',']));
    lemma_insert(vars, key, join(chosen, seq![',']));
    lemma_store_indexed_lookup(v1, key, chosen, chosen.len());
    let v2 = store_indexed(v1, key, chosen, chosen.len());
    lemma_insert(v2, count_name(key), decimal(chosen.len()));
    assert forall|i: nat| i < chosen.len() implies key != #[trigger] indexed_name(key, i) by {
        lemma_names_differ(key, i, i);
    }
    assert forall|i: nat| i < chosen.len() implies lookup(
        multi_select_outputs(vars, key, chosen),
        #[trigger] indexed_name(key, i),
    ) == Some(chosen[i as int]) by {
        lemma_names_differ(key, i, i);
    }
    lemma_names_differ(key, 0, 0);
}

proof fn lemma_encode_concat(a: Seq<char>, b: Seq<char>)
    ensures
        encode_utf8(a + b) == encode_utf8(a) + encode_utf8(b),
    decreases a.len(),
{
    if a.len() > 0 {
        assert((a + b).drop_first() =~= a.drop_first() + b);
        lemma_encode_concat(a.drop_first(), b);
        assert((a + b)[0] == a[0]);
    } else {
        assert(a + b =~= b);
    }
}

/// A hint made from a description is at most 50 bytes long.
pub proof fn lemma_hint_length(value: Seq<char>)
    requires
        crate::steps::select::hint_shortenable(value),
    ensures
        crate::steps::password::byte_len(crate::steps::select::shortened_hint(value)) <= 50,
{
    if crate::steps::password::byte_len(value) > 50 {
        let bytes = encode_utf8(value);
        vstd::utf8::encode_utf8_valid_utf8(value);
        vstd::utf8::valid_utf8_split(bytes, 47);
        let prefix = bytes.subrange(0, 47);
        vstd::utf8::decode_utf8_encode_utf8(prefix);
        let dots = "..."@;
        lemma_encode_concat(decode_utf8(prefix), dots);
        assert(encode_utf8(dots).len() == 3) by {
            reveal_strlit("...");
            reveal_with_fuel(encode_utf8, 4);
        }
    }
}

/// Whether `s` holds neither `{` nor `}`.
pub open spec fn brace_free(s: Seq<char>) -> bool {
    !s.contains('{') && !s.contains('}')
}

/// Whether every name and value of `vars` is free of braces.
pub open spec fn all_brace_free(vars: Seq<(Seq<char>, Seq<char>)>) -> bool {
    forall|i: int| 0 <= i < vars.len() ==> #[trigger] entry_brace_free(vars[i])
}

/// Whether a name and its value are both free of braces.
pub open spec fn entry_brace_free(e: (Seq<char>, Seq<char>)) -> bool {
    brace_free(e.0) && brace_free(e.1)
}

/// The position of the first `}` in `s`, if any.
pub open spec fn first_close(s: Seq<char>) -> Option<int>
    decreases s.len(),
{
    if s.len() == 0 {
        None
    } else if s[0] == '}' {
        Some(0)
    } else {
        match first_close(s.skip(1)) {
            Some(j) => Some(j + 1),
            None => None,
        }
    }
}

/// The variable named right at the start of `s`: when `s` begins with `{`,
/// the text up to the first `}` after it, provided that text holds no `{`.
pub open spec fn leading_name(s: Seq<char>) -> Option<Seq<char>> {
    if s.len() > 0 && s[0] == '{' {
        match first_close(s.skip(1)) {
            Some(j) => if !s.subrange(1, j + 1).contains('{') {
                Some(s.subrange(1, j + 1))
            } else {
                None
            },
            None => None,
        }
    } else {
        None
    }
}

/// Every placeholder of a known variable in `s` replaced by its value in a
/// single left-to-right pass.
pub open spec fn substitute(s: Seq<char>, vars: Seq<(Seq<char>, Seq<char>)>) -> Seq<char>
    decreases s.len(),
{
    if s.len() == 0 {
        s
    } else {
        match leading_name(s) {
            Some(k) => match lookup(vars, k) {
                Some(v) => if k.len() + 2 <= s.len() {
                    v + substitute(s.skip(k.len() as int + 2), vars)
                } else {
                    seq![s[0]] + substitute(s.skip(1), vars)
                },
                None => seq![s[0]] + substitute(s.skip(1), vars),
            },
            None => seq![s[0]] + substitute(s.skip(1), vars),
        }
    }
}

proof fn lemma_first_close_props(s: Seq<char>)
    ensures
        first_close(s) matches Some(j) ==> 0 <= j < s.len() && s[j] == '}' && forall|i: int|
            0 <= i < j ==> #[trigger] s[i] != '}',
        first_close(s) is None ==> forall|i: int| 0 <= i < s.len() ==> #[trigger] s[i] != '}',
    decreases s.len(),
{
    if s.len() > 0 {
        lemma_first_close_props(s.skip(1));
        if s[0] != '}' {
            assert forall|i: int| 1 <= i < s.len() implies #[trigger] s[i] == s.skip(1)[i - 1] by {}
        }
    }
}

/// The placeholder of a brace-free name is found as the leading name of any
/// text that starts with it.
proof fn lemma_leading_placeholder(s: Seq<char>, k: Seq<char>)
    requires
        brace_free(k),
        occurs_at(s, placeholder(k), 0),
    ensures
        leading_name(s) == Some(k),
{
    let p = placeholder(k);
    assert(s.subrange(0, p.len() as int) == p);
    assert(s[0] == p[0]);
    let t = s.skip(1);
    lemma_first_close_props(t);
    assert(t[k.len() as int] == '}') by {
        assert(p[k.len() as int + 1] == '}');
        assert(s[k.len() as int + 1] == p[k.len() as int + 1]);
    }
    assert forall|i: int| 0 <= i < k.len() implies t[i] == k[i] && t[i] != '}' by {
        assert(p[i + 1] == k[i]);
        assert(s[i + 1] == p[i + 1]);
        if t[i] == '}' {
            assert(k.contains('}'));
        }
    }
    match first_close(t) {
        Some(j) => {
            if j < k.len() {
                assert(t[j] != '}');
            } else if j > k.len() {
                assert(t.subrange(0, j)[k.len() as int] == '}');
            }
            assert(s.subrange(1, j + 1) =~= k);
        },
        None => {
            assert(t.contains('}')) by {
                assert(t[k.len() as int] == '}');
            }
        },
    }
}

/// Text without `{` is passed over unchanged, and replacing after it
/// continues with what follows.
proof fn lemma_replace_prefix(a: Seq<char>, b: Seq<char>, pat: Seq<char>, rep: Seq<char>)
    requires
        pat.len() > 0,
        pat[0] == '{',
        !a.contains('{'),
    ensures
        replace_all(a + b, pat, rep) == a + replace_all(b, pat, rep),
    decreases a.len(),
{
    if a.len() > 0 {
        let s = a + b;
        assert(s[0] == a[0]);
        assert(!occurs_at(s, pat, 0)) by {
            if occurs_at(s, pat, 0) {
                assert(s.subrange(0, pat.len() as int)[0] == s[0]);
                assert(a.contains(a[0]));
            }
        }
        assert(s.skip(1) =~= a.skip(1) + b);
        assert forall|c: char| a.skip(1).contains(c) implies a.contains(c) by {
            let i = choose|i: int| 0 <= i < a.skip(1).len() && #[trigger] a.skip(1)[i] == c;
            assert(a[i + 1] == c);
        }
        lemma_replace_prefix(a.skip(1), b, pat, rep);
        assert(seq![a[0]] + (a.skip(1) + replace_all(b, pat, rep)) =~= a + replace_all(b, pat, rep));
    } else {
        assert(a + b =~= b);
    }
}

/// A single pass copies a leading text without `{`.
proof fn lemma_substitute_prefix(a: Seq<char>, b: Seq<char>, vars: Seq<(Seq<char>, Seq<char>)>)
    requires
        !a.contains('{'),
    ensures
        substitute(a + b, vars) == a + substitute(b, vars),
    decreases a.len(),
{
    if a.len() > 0 {
        let s = a + b;
        assert(s[0] == a[0]);
        assert(s[0] != '{') by {
            assert(a.contains(a[0]));
        }
        assert(leading_name(s) is None);
        assert(s.skip(1) =~= a.skip(1) + b);
        assert forall|c: char| a.skip(1).contains(c) implies a.contains(c) by {
            let i = choose|i: int| 0 <= i < a.skip(1).len() && #[trigger] a.skip(1)[i] == c;
            assert(a[i + 1] == c);
        }
        lemma_substitute_prefix(a.skip(1), b, vars);
        assert(seq![a[0]] + (a.skip(1) + substitute(b, vars)) =~= a + substitute(b, vars));
    } else {
        assert(a + b =~= b);
    }
}

/// Whether no `{` in `s` opens while another is still open (`open` tells
/// whether one is open before `s`): a text whose placeholders do not nest.
pub open spec fn flat_from(s: Seq<char>, open: bool) -> bool
    decreases s.len(),
{
    if s.len() == 0 {
        true
    } else if s[0] == '{' {
        !open && flat_from(s.skip(1), true)
    } else if s[0] == '}' {
        flat_from(s.skip(1), false)
    } else {
        flat_from(s.skip(1), open)
    }
}

/// Whether the placeholders of `s` do not nest.
pub open spec fn flat_braces(s: Seq<char>) -> bool {
    flat_from(s, false)
}

proof fn lemma_not_contains_skip(s: Seq<char>, c: char, n: int)
    requires
        !s.contains(c),
        0 <= n <= s.len(),
    ensures
        !s.skip(n).contains(c),
{
    if s.skip(n).contains(c) {
        let i = choose|i: int| 0 <= i < s.skip(n).len() && #[trigger] s.skip(n)[i] == c;
        assert(s[n + i] == c);
    }
}

proof fn lemma_flat_plain_prefix(a: Seq<char>, b: Seq<char>, open: bool)
    requires
        brace_free(a),
    ensures
        flat_from(a + b, open) == flat_from(b, open),
    decreases a.len(),
{
    if a.len() > 0 {
        assert((a + b)[0] == a[0]);
        assert(a.contains(a[0]));
        assert((a + b).skip(1) =~= a.skip(1) + b);
        lemma_not_contains_skip(a, '{', 1);
        lemma_not_contains_skip(a, '}', 1);
        lemma_flat_plain_prefix(a.skip(1), b, open);
    } else {
        assert(a + b =~= b);
    }
}

/// After a placeholder of a brace-free name, no `{` is open.
proof fn lemma_flat_through_name(s: Seq<char>, k: Seq<char>)
    requires
        brace_free(k),
        occurs_at(s, placeholder(k), 0),
        flat_from(s, false),
    ensures
        flat_from(s.skip(k.len() as int + 2), false),
{
    let p = placeholder(k);
    assert(s =~= p + s.skip(k.len() as int + 2));
    assert(s[0] == '{');
    assert(s.skip(1) =~= k + (seq!['}'] + s.skip(k.len() as int + 2)));
    lemma_flat_plain_prefix(k, seq!['}'] + s.skip(k.len() as int + 2), true);
    assert((seq!['}'] + s.skip(k.len() as int + 2)).skip(1) =~= s.skip(k.len() as int + 2));
}

/// Inside an open `{` of a text whose placeholders do not nest, no `{`
/// comes before the first `}`.
proof fn lemma_open_until_close(t: Seq<char>)
    requires
        flat_from(t, true),
    ensures
        first_close(t) matches Some(j) ==> forall|i: int| 0 <= i < j ==> #[trigger] t[i] != '{',
    decreases t.len(),
{
    if t.len() > 0 && t[0] != '}' {
        assert(t[0] != '{');
        assert(flat_from(t.skip(1), true));
        lemma_open_until_close(t.skip(1));
        lemma_first_close_props(t);
        if let Some(j) = first_close(t) {
            assert(first_close(t.skip(1)) == Some(j - 1));
            assert forall|i: int| 0 <= i < j implies #[trigger] t[i] != '{' by {
                if i > 0 {
                    assert(t[i] == t.skip(1)[i - 1]);
                }
            }
        }
    }
}

proof fn lemma_replace_absent_at(s: Seq<char>, pat: Seq<char>, rep: Seq<char>, m: int)
    requires
        0 <= m < pat.len(),
        !s.contains(pat[m]),
    ensures
        replace_all(s, pat, rep) == s,
    decreases s.len(),
{
    if s.len() > 0 {
        assert(!occurs_at(s, pat, 0)) by {
            if occurs_at(s, pat, 0) {
                assert(s.subrange(0, pat.len() as int)[m] == s[m]);
            }
        }
        lemma_not_contains_skip(s, pat[m], 1);
        lemma_replace_absent_at(s.skip(1), pat, rep, m);
        assert(seq![s[0]] + s.skip(1) =~= s);
    }
}

/// A name found at the start of a text is free of braces, and the text
/// starts with its placeholder.
proof fn lemma_leading_name_shape(s: Seq<char>)
    ensures
        leading_name(s) matches Some(k) ==> brace_free(k) && k.len() + 2 <= s.len() && occurs_at(
            s,
            placeholder(k),
            0,
        ),
{
    if let Some(k) = leading_name(s) {
        let t = s.skip(1);
        lemma_first_close_props(t);
        let j = first_close(t)->0;
        assert(k =~= t.subrange(0, j));
        assert(!k.contains('}')) by {
            if k.contains('}') {
                let i = choose|i: int| 0 <= i < k.len() && #[trigger] k[i] == '}';
                assert(t[i] == '}');
            }
        }
        assert(s.subrange(0, k.len() as int + 2) =~= placeholder(k)) by {
            assert(s[j + 1] == t[j]);
        }
    }
}

/// With unique names, the table without its first entry agrees with the
/// whole table on every other name and lacks the first.
proof fn lemma_lookup_tail(vars: Seq<(Seq<char>, Seq<char>)>)
    requires
        vars.len() > 0,
        unique_keys(vars),
    ensures
        unique_keys(vars.skip(1)),
        lookup(vars, vars[0].0) == Some(vars[0].1),
        lookup(vars.skip(1), vars[0].0) is None,
        forall|k: Seq<char>| k != vars[0].0 ==> #[trigger] lookup(vars.skip(1), k) == lookup(vars, k),
{
    let t = vars.skip(1);
    assert forall|i: int, j: int| 0 <= i < t.len() && 0 <= j < t.len() && i != j implies #[trigger] t[i].0
        != #[trigger] t[j].0 by {
        assert(t[i] == vars[i + 1] && t[j] == vars[j + 1]);
    }
    crate::context::lemma_lookup_at(vars, 0);
    if has_key(t, vars[0].0) {
        let i = key_index(t, vars[0].0);
        assert(vars[i + 1].0 == vars[0].0);
    }
    assert forall|k: Seq<char>| k != vars[0].0 implies #[trigger] lookup(t, k) == lookup(vars, k) by {
        if has_key(t, k) {
            let i = key_index(t, k);
            assert(vars[i + 1] == t[i]);
            crate::context::lemma_lookup_at(t, i);
            crate::context::lemma_lookup_at(vars, i + 1);
        } else if has_key(vars, k) {
            let i = key_index(vars, k);
            assert(i != 0);
            assert(t[i - 1] == vars[i]);
        }
    }
}

proof fn lemma_all_brace_free_tail(vars: Seq<(Seq<char>, Seq<char>)>)
    requires
        vars.len() > 0,
        all_brace_free(vars),
    ensures
        all_brace_free(vars.skip(1)),
        brace_free(vars[0].0),
        brace_free(vars[0].1),
{
    assert forall|i: int| 0 <= i < vars.skip(1).len() implies #[trigger] entry_brace_free(vars.skip(1)[i]) by {
        assert(vars.skip(1)[i] == vars[i + 1]);
        assert(entry_brace_free(vars[i + 1]));
    }
    assert(entry_brace_free(vars[0]));
}

/// Replacing the placeholder of `k0` by `v0`, then passing once over the
/// text with `rest`, is passing once with `vars`, when `vars` binds `k0` to
/// `v0` and agrees with `rest` on every other name.
proof fn lemma_replace_then_substitute(
    s: Seq<char>,
    k0: Seq<char>,
    v0: Seq<char>,
    vars: Seq<(Seq<char>, Seq<char>)>,
    rest: Seq<(Seq<char>, Seq<char>)>,
    open: bool,
)
    requires
        brace_free(k0),
        brace_free(v0),
        lookup(vars, k0) == Some(v0),
        forall|k: Seq<char>| k != k0 ==> #[trigger] lookup(rest, k) == lookup(vars, k),
        flat_from(s, open),
    ensures
        substitute(s, vars) == substitute(replace_all(s, placeholder(k0), v0), rest),
    decreases s.len(),
{
    let p0 = placeholder(k0);
    if s.len() == 0 {
        return;
    }
    if occurs_at(s, p0, 0) {
        lemma_leading_placeholder(s, k0);
        assert(s[0] == '{') by {
            assert(s.subrange(0, p0.len() as int)[0] == s[0]);
        }
        lemma_flat_through_name(s, k0);
        let t = s.skip(p0.len() as int);
        let x = replace_all(t, p0, v0);
        lemma_replace_then_substitute(t, k0, v0, vars, rest, false);
        lemma_substitute_prefix(v0, x, rest);
        return;
    }
    let r = replace_all(s.skip(1), p0, v0);
    assert(replace_all(s, p0, v0) == seq![s[0]] + r);
    if s[0] != '{' {
        assert(leading_name(s) is None);
        assert(seq![s[0]] + r =~= seq![s[0]] + r);
        lemma_substitute_prefix(seq![s[0]], r, rest);
        let o2 = if s[0] == '}' { false } else { open };
        lemma_replace_then_substitute(s.skip(1), k0, v0, vars, rest, o2);
        return;
    }
    // `s` starts with `{` and not with the first placeholder.
    assert(!open);
    let t = s.skip(1);
    assert(flat_from(t, true));
    lemma_leading_name_shape(s);
    lemma_first_close_props(t);
    lemma_open_until_close(t);
    match leading_name(s) {
        Some(k) => {
            assert(k != k0) by {
                if k == k0 {
                    assert(occurs_at(s, p0, 0));
                }
            }
            let after = s.skip(k.len() as int + 2);
            assert(t =~= (k + seq!['}']) + after);
            assert(!(k + seq!['}']).contains('{')) by {
                if (k + seq!['}']).contains('{') {
                    let i = choose|i: int| 0 <= i < (k + seq!['}']).len() && #[trigger] (k + seq!['}'])[i] == '{';
                    if i < k.len() {
                        assert(k[i] == '{');
                    }
                }
            }
            lemma_replace_prefix(k + seq!['}'], after, p0, v0);
            let y = seq!['{'] + r;
            assert(y =~= placeholder(k) + replace_all(after, p0, v0));
            assert(occurs_at(y, placeholder(k), 0)) by {
                assert(y.subrange(0, placeholder(k).len() as int) =~= placeholder(k));
            }
            lemma_leading_placeholder(y, k);
            assert(y.skip(k.len() as int + 2) =~= replace_all(after, p0, v0));
            assert(flat_from(after, false)) by {
                lemma_flat_through_name(s, k);
            }
            lemma_replace_then_substitute(after, k0, v0, vars, rest, false);
            lemma_replace_then_substitute(t, k0, v0, vars, rest, true);
            assert(y[0] == '{');
            assert(y.skip(1) =~= r);
        },
        None => {
            // No `}` follows: nothing in the rest can be replaced.
            match first_close(t) {
                Some(j) => {
                    assert(!s.subrange(1, j + 1).contains('{')) by {
                        if s.subrange(1, j + 1).contains('{') {
                            let i = choose|i: int| 0 <= i < j && #[trigger] s.subrange(1, j + 1)[i] == '{';
                            assert(t[i] == '{');
                        }
                    }
                },
                None => {},
            }
            assert(!t.contains('}')) by {
                if t.contains('}') {
                    let i = choose|i: int| 0 <= i < t.len() && #[trigger] t[i] == '}';
                }
            }
            lemma_replace_absent_at(t, p0, v0, p0.len() - 1);
            assert(seq![s[0]] + r =~= s);
            lemma_replace_then_substitute(t, k0, v0, vars, rest, true);
        },
    }
}


/// Replacing the placeholder of a brace-free name by a brace-free value
/// keeps the placeholders of a text from nesting.
proof fn lemma_replace_keeps_flat(s: Seq<char>, k: Seq<char>, v: Seq<char>, open: bool)
    requires
        brace_free(k),
        brace_free(v),
        flat_from(s, open),
    ensures
        flat_from(replace_all(s, placeholder(k), v), open),
    decreases s.len(),
{
    let p = placeholder(k);
    if s.len() == 0 {
        return;
    }
    if occurs_at(s, p, 0) {
        assert(s[0] == '{') by {
            assert(s.subrange(0, p.len() as int)[0] == s[0]);
        }
        lemma_flat_through_name(s, k);
        let t = s.skip(p.len() as int);
        lemma_replace_keeps_flat(t, k, v, false);
        lemma_flat_plain_prefix(v, replace_all(t, p, v), false);
    } else {
        let r = replace_all(s.skip(1), p, v);
        let o2 = if s[0] == '{' { true } else if s[0] == '}' { false } else { open };
        lemma_replace_keeps_flat(s.skip(1), k, v, o2);
        assert((seq![s[0]] + r)[0] == s[0]);
        assert((seq![s[0]] + r).skip(1) =~= r);
    }
}

/// A single pass with no variables copies the text.
proof fn lemma_substitute_nothing(s: Seq<char>)
    ensures
        substitute(s, Seq::<(Seq<char>, Seq<char>)>::empty()) == s,
    decreases s.len(),
{
    if s.len() > 0 {
        lemma_substitute_nothing(s.skip(1));
        assert(seq![s[0]] + s.skip(1) =~= s);
    }
}

/// Replacing the variables one after the other is a single pass with all
/// of them, when names and values hold no brace and placeholders do not nest.
proof fn lemma_replace_each_substitutes(s: Seq<char>, vars: Seq<(Seq<char>, Seq<char>)>)
    requires
        unique_keys(vars),
        all_brace_free(vars),
        flat_from(s, false),
    ensures
        replace_each(s, vars) == substitute(s, vars),
    decreases vars.len(),
{
    if vars.len() == 0 {
        assert(vars =~= Seq::<(Seq<char>, Seq<char>)>::empty());
        lemma_substitute_nothing(s);
    } else {
        lemma_lookup_tail(vars);
        lemma_all_brace_free_tail(vars);
        let r = replace_all(s, placeholder(vars[0].0), vars[0].1);
        lemma_replace_keeps_flat(s, vars[0].0, vars[0].1, false);
        lemma_replace_each_substitutes(r, vars.skip(1));
        lemma_replace_then_substitute(s, vars[0].0, vars[0].1, vars, vars.skip(1), false);
    }
}

/// A single pass depends on the variables only through what each name is
/// bound to.
proof fn lemma_substitute_by_lookup(
    s: Seq<char>,
    vars1: Seq<(Seq<char>, Seq<char>)>,
    vars2: Seq<(Seq<char>, Seq<char>)>,
)
    requires
        forall|k: Seq<char>| #[trigger] lookup(vars1, k) == lookup(vars2, k),
    ensures
        substitute(s, vars1) == substitute(s, vars2),
    decreases s.len(),
{
    if s.len() > 0 {
        lemma_substitute_by_lookup(s.skip(1), vars1, vars2);
        if let Some(k) = leading_name(s) {
            assert(lookup(vars1, k) == lookup(vars2, k));
            if k.len() + 2 <= s.len() {
                lemma_substitute_by_lookup(s.skip(k.len() as int + 2), vars1, vars2);
            }
        }
    }
}

/// Interpolation does not depend on the order in which the variables are
/// kept: two tables that bind the same names to the same values give the
/// same text, which is that of a single left-to-right pass over it. This
/// holds when no name, no value and no last input holds a brace, and the
/// placeholders of the text do not nest.
pub proof fn lemma_order_irrelevant(
    text: Seq<char>,
    vars1: Seq<(Seq<char>, Seq<char>)>,
    vars2: Seq<(Seq<char>, Seq<char>)>,
    last: Option<Seq<char>>,
)
    requires
        unique_keys(vars1),
        unique_keys(vars2),
        all_brace_free(vars1),
        all_brace_free(vars2),
        forall|k: Seq<char>| #[trigger] lookup(vars1, k) == lookup(vars2, k),
        last matches Some(i) ==> brace_free(i),
        flat_braces(text),
    ensures
        interpolate(text, vars1, last) == interpolate(text, vars2, last),
        interpolate(text, vars1, last) == substitute(
            match last {
                Some(i) => replace_all(text, input_placeholder(), i),
                None => text,
            },
            vars1,
        ),
{
    let t = match last {
        Some(i) => replace_all(text, input_placeholder(), i),
        None => text,
    };
    if let Some(i) = last {
        assert(brace_free(seq!['i', 'n', 'p', 'u', 't'])) by {
            let n = seq!['i', 'n', 'p', 'u', 't'];
            assert(!n.contains('{')) by {
                if n.contains('{') {
                    let j = choose|j: int| 0 <= j < n.len() && #[trigger] n[j] == '{';
                }
            }
            assert(!n.contains('}')) by {
                if n.contains('}') {
                    let j = choose|j: int| 0 <= j < n.len() && #[trigger] n[j] == '}';
                }
            }
        }
        lemma_replace_keeps_flat(text, seq!['i', 'n', 'p', 'u', 't'], i, false);
    }
    lemma_replace_each_substitutes(t, vars1);
    lemma_replace_each_substitutes(t, vars2);
    lemma_substitute_by_lookup(t, vars1, vars2);
}


/// Values of a known name never hold braces.
proof fn lemma_lookup_brace_free(vars: Seq<(Seq<char>, Seq<char>)>, k: Seq<char>)
    requires
        all_brace_free(vars),
    ensures
        lookup(vars, k) matches Some(v) ==> brace_free(v),
{
    if has_key(vars, k) {
        let i = key_index(vars, k);
        assert(entry_brace_free(vars[i]));
    }
}

/// A single pass over a text without `}` copies it.
proof fn lemma_substitute_no_close(s: Seq<char>, vars: Seq<(Seq<char>, Seq<char>)>)
    requires
        !s.contains('}'),
    ensures
        substitute(s, vars) == s,
    decreases s.len(),
{
    if s.len() > 0 {
        lemma_not_contains_skip(s, '}', 1);
        lemma_first_close_props(s.skip(1));
        if let Some(j) = first_close(s.skip(1)) {
            assert(s[j + 1] == s.skip(1)[j]);
        }
        assert(leading_name(s) is None);
        lemma_substitute_no_close(s.skip(1), vars);
        assert(seq![s[0]] + s.skip(1) =~= s);
    }
}

/// A second pass changes nothing, when values hold no brace and the
/// placeholders of the text do not nest.
proof fn lemma_substitute_idempotent(s: Seq<char>, vars: Seq<(Seq<char>, Seq<char>)>, open: bool)
    requires
        all_brace_free(vars),
        flat_from(s, open),
    ensures
        substitute(substitute(s, vars), vars) == substitute(s, vars),
    decreases s.len(),
{
    if s.len() == 0 {
        return;
    }
    match leading_name(s) {
        Some(k) => {
            lemma_leading_name_shape(s);
            let p = placeholder(k);
            assert(s[0] == '{') by {
                assert(s.subrange(0, p.len() as int)[0] == s[0]);
            }
            assert(!open);
            lemma_flat_through_name(s, k);
            let rest = s.skip(k.len() as int + 2);
            lemma_substitute_idempotent(rest, vars, false);
            let r = substitute(rest, vars);
            lemma_lookup_brace_free(vars, k);
            match lookup(vars, k) {
                Some(v) => {
                    lemma_substitute_prefix(v, r, vars);
                },
                None => {
                    let kc = k + seq!['}'];
                    assert(!kc.contains('{')) by {
                        if kc.contains('{') {
                            let i = choose|i: int| 0 <= i < kc.len() && #[trigger] kc[i] == '{';
                            if i < k.len() {
                                assert(k[i] == '{');
                            }
                        }
                    }
                    assert(s.subrange(0, p.len() as int) == p);
                    assert(s =~= p + rest);
                    assert(s.skip(1) =~= kc + rest);
                    lemma_substitute_prefix(kc, rest, vars);
                    let y = seq![s[0]] + (kc + r);
                    assert(substitute(s, vars) == y);
                    assert(y =~= p + r);
                    assert(occurs_at(y, p, 0)) by {
                        assert(y.subrange(0, p.len() as int) =~= p);
                    }
                    lemma_leading_placeholder(y, k);
                    assert(y.skip(1) =~= kc + r);
                    lemma_substitute_prefix(kc, r, vars);
                },
            }
        },
        None => {
            let x = substitute(s.skip(1), vars);
            if s[0] != '{' {
                let o2 = if s[0] == '}' { false } else { open };
                lemma_substitute_idempotent(s.skip(1), vars, o2);
                lemma_substitute_prefix(seq![s[0]], x, vars);
            } else {
                let t = s.skip(1);
                assert(flat_from(t, true));
                lemma_open_until_close(t);
                lemma_first_close_props(t);
                assert(!t.contains('}')) by {
                    if let Some(j) = first_close(t) {
                        assert(!s.subrange(1, j + 1).contains('{')) by {
                            if s.subrange(1, j + 1).contains('{') {
                                let i = choose|i: int| 0 <= i < j && #[trigger] s.subrange(1, j + 1)[i] == '{';
                                assert(t[i] == '{');
                            }
                        }
                    }
                    if t.contains('}') {
                        let i = choose|i: int| 0 <= i < t.len() && #[trigger] t[i] == '}';
                    }
                }
                lemma_substitute_no_close(t, vars);
                assert(seq![s[0]] + t =~= s);
            }
        },
    }
}

/// Replacing the variables one after the other keeps the placeholders of a
/// text from nesting.
proof fn lemma_replace_each_keeps_flat(s: Seq<char>, vars: Seq<(Seq<char>, Seq<char>)>)
    requires
        all_brace_free(vars),
        flat_from(s, false),
    ensures
        flat_from(replace_each(s, vars), false),
    decreases vars.len(),
{
    if vars.len() > 0 {
        lemma_all_brace_free_tail(vars);
        lemma_replace_keeps_flat(s, vars[0].0, vars[0].1, false);
        lemma_replace_each_keeps_flat(replace_all(s, placeholder(vars[0].0), vars[0].1), vars.skip(1));
    }
}

/// `s` without its entries named `x`.
pub open spec fn remove_key(s: Seq<(Seq<char>, Seq<char>)>, x: Seq<char>) -> Seq<(Seq<char>, Seq<char>)>
    decreases s.len(),
{
    if s.len() == 0 {
        s
    } else if s[0].0 == x {
        remove_key(s.skip(1), x)
    } else {
        seq![s[0]] + remove_key(s.skip(1), x)
    }
}

proof fn lemma_remove_key(s: Seq<(Seq<char>, Seq<char>)>, x: Seq<char>)
    requires
        unique_keys(s),
        all_brace_free(s),
    ensures
        unique_keys(remove_key(s, x)),
        all_brace_free(remove_key(s, x)),
        !has_key(remove_key(s, x), x),
        forall|k: Seq<char>| has_key(remove_key(s, x), k) ==> #[trigger] has_key(s, k),
        forall|k: Seq<char>| k != x ==> #[trigger] lookup(remove_key(s, x), k) == lookup(s, k),
    decreases s.len(),
{
    let r = remove_key(s, x);
    if s.len() == 0 {
        return;
    }
    let t = s.skip(1);
    lemma_lookup_tail(s);
    lemma_all_brace_free_tail(s);
    lemma_remove_key(t, x);
    let rt = remove_key(t, x);
    assert forall|k: Seq<char>| has_key(rt, k) implies #[trigger] has_key(s, k) by {
        assert(has_key(t, k));
        let j = key_index(t, k);
        assert(s[j + 1] == t[j]);
    }
    if s[0].0 == x {
        assert forall|k: Seq<char>| k != x implies #[trigger] lookup(r, k) == lookup(s, k) by {
            assert(lookup(rt, k) == lookup(t, k));
        }
    } else {
        assert(r == seq![s[0]] + rt);
        assert(!has_key(rt, s[0].0));
        assert forall|i: int, j: int| 0 <= i < r.len() && 0 <= j < r.len() && i != j implies #[trigger] r[i].0
            != #[trigger] r[j].0 by {
            if i > 0 && j > 0 {
                assert(r[i] == rt[i - 1] && r[j] == rt[j - 1]);
            } else if i == 0 {
                assert(r[j] == rt[j - 1]);
            } else {
                assert(r[i] == rt[i - 1]);
            }
        }
        assert forall|i: int| 0 <= i < r.len() implies #[trigger] entry_brace_free(r[i]) by {
            if i > 0 {
                assert(r[i] == rt[i - 1]);
            } else {
                assert(entry_brace_free(s[0]));
            }
        }
        assert(!has_key(r, x)) by {
            if has_key(r, x) {
                let j = key_index(r, x);
                if j > 0 {
                    assert(r[j] == rt[j - 1]);
                }
            }
        }
        assert forall|k: Seq<char>| has_key(r, k) implies #[trigger] has_key(s, k) by {
            let j = key_index(r, k);
            if j > 0 {
                assert(r[j] == rt[j - 1]);
                assert(has_key(rt, k));
            } else {
                assert(s[0].0 == k);
            }
        }
        lemma_lookup_tail(r);
        assert(r.skip(1) =~= rt);
        assert forall|k: Seq<char>| k != x implies #[trigger] lookup(r, k) == lookup(s, k) by {
            if k == s[0].0 {
                assert(lookup(r, k) == Some(r[0].1));
            } else {
                assert(lookup(rt, k) == lookup(t, k));
            }
        }
    }
}

/// Interpolating the result of an interpolation again, with the same
/// variables and last input, changes nothing: every placeholder of a known
/// variable is gone after the first pass. This holds when no name, no value
/// and no last input holds a brace, and the placeholders of the text do not
/// nest.
pub proof fn lemma_interpolation_settles(
    text: Seq<char>,
    vars: Seq<(Seq<char>, Seq<char>)>,
    last: Option<Seq<char>>,
)
    requires
        unique_keys(vars),
        all_brace_free(vars),
        last matches Some(i) ==> brace_free(i),
        flat_braces(text),
    ensures
        interpolate(interpolate(text, vars, last), vars, last) == interpolate(text, vars, last),
{
    match last {
        None => {
            let r = replace_each(text, vars);
            lemma_replace_each_substitutes(text, vars);
            lemma_replace_each_keeps_flat(text, vars);
            lemma_replace_each_substitutes(r, vars);
            lemma_substitute_idempotent(text, vars, false);
        },
        Some(i) => {
            let name = seq!['i', 'n', 'p', 'u', 't'];
            let pin = placeholder(name);
            assert(pin =~= input_placeholder());
            assert(brace_free(name)) by {
                assert(!name.contains('{')) by {
                    if name.contains('{') {
                        let j = choose|j: int| 0 <= j < name.len() && #[trigger] name[j] == '{';
                    }
                }
                assert(!name.contains('}')) by {
                    if name.contains('}') {
                        let j = choose|j: int| 0 <= j < name.len() && #[trigger] name[j] == '}';
                    }
                }
            }
            let t1 = replace_all(text, pin, i);
            lemma_replace_keeps_flat(text, name, i, false);
            let r = replace_each(t1, vars);
            lemma_replace_each_substitutes(t1, vars);
            lemma_replace_each_keeps_flat(t1, vars);
            // The table that binds `input` to the last input first.
            lemma_remove_key(vars, name);
            let rk = remove_key(vars, name);
            let w = seq![(name, i)] + rk;
            assert(w.skip(1) =~= rk);
            assert forall|a: int, b: int| 0 <= a < w.len() && 0 <= b < w.len() && a != b implies #[trigger] w[a].0
                != #[trigger] w[b].0 by {
                if a > 0 && b > 0 {
                    assert(w[a] == rk[a - 1] && w[b] == rk[b - 1]);
                } else if a == 0 {
                    assert(w[b] == rk[b - 1]);
                } else {
                    assert(w[a] == rk[a - 1]);
                }
            }
            assert forall|a: int| 0 <= a < w.len() implies #[trigger] entry_brace_free(w[a]) by {
                if a > 0 {
                    assert(w[a] == rk[a - 1]);
                }
            }
            lemma_lookup_tail(w);
            assert(lookup(w, name) == Some(i));
            assert forall|k: Seq<char>| k != name implies #[trigger] lookup(vars, k) == lookup(w, k) by {
                assert(lookup(rk, k) == lookup(vars, k));
            }
            lemma_replace_then_substitute(text, name, i, w, vars, false);
            let r2 = replace_all(r, pin, i);
            lemma_replace_keeps_flat(r, name, i, false);
            lemma_replace_each_substitutes(r2, vars);
            lemma_replace_then_substitute(r, name, i, w, vars, false);
            lemma_substitute_idempotent(text, w, false);
        },
    }
}

// ---------------------------------------------------------------------------
// Whole runs
// ---------------------------------------------------------------------------

/// Whether `reply`, answering a step awaiting in `stage`, may write the
/// variable `k`: the step's output, the indexed and count names of a
/// multiple choice, or a variable handed back by a nested flow.
pub open spec fn may_write(stage: Stage, reply: Reply, k: Seq<char>) -> bool {
    match stage {
        Stage::Store { key, .. } => key matches Some(x) && x@ == k,
        Stage::Confirm { output } => output matches Some(x) && x@ == k,
        Stage::Input { output, .. } => output matches Some(x) && x@ == k,
        Stage::MultiChoose { output } => output matches Some(x) && (k == x@ || k == count_name(x@)
            || exists|i: nat| k == #[trigger] indexed_name(x@, i)),
        Stage::SelectChoose { output, .. } => output matches Some(x) && x@ == k,
        Stage::Nested { output, .. } => (output matches Some(x) && x@ == k) || (
        reply matches Reply::NestedResult(res) && has_key(res@, k)),
        Stage::PasswordEntry { output, .. } => output matches Some(x) && x@ == k,
        Stage::PasswordConfirm { output, .. } => output matches Some(x) && x@ == k,
        _ => false,
    }
}

/// Whether the reply given in state `s` is the answer to a step that ran and
/// may write the variable `k`.
pub open spec fn wrote(s: RunState, reply: Reply, k: Seq<char>) -> bool {
    s.phase matches Phase::Awaiting(stage) && may_write(stage, reply, k)
}

/// Whether `states` is a run: each state moves to the next on the reply of
/// the same index, answering the result of that index.
pub open spec fn is_run(
    states: Seq<RunState>,
    replies: Seq<Reply>,
    outs: Seq<Result<Request, PromptError>>,
) -> bool {
    &&& states.len() == replies.len() + 1
    &&& outs.len() == replies.len()
    &&& forall|i: int|
        0 <= i < replies.len() ==> #[trigger] transition(states[i], replies[i], states[i + 1], outs[i])
}

proof fn lemma_extend_lookup(s: Seq<(Seq<char>, Seq<char>)>, t: Seq<(Seq<char>, Seq<char>)>)
    requires
        unique_keys(s),
    ensures
        unique_keys(assoc_extend(s, t)),
        forall|k: Seq<char>| !has_key(t, k) ==> #[trigger] lookup(assoc_extend(s, t), k) == lookup(s, k),
    decreases t.len(),
{
    if t.len() > 0 {
        let s1 = assoc_insert(s, t[0].0, t[0].1);
        lemma_insert(s, t[0].0, t[0].1);
        lemma_extend_lookup(s1, t.skip(1));
        assert forall|k: Seq<char>| !has_key(t, k) implies #[trigger] lookup(assoc_extend(s, t), k)
            == lookup(s, k) by {
            assert(t[0].0 != k);
            if has_key(t.skip(1), k) {
                let j = key_index(t.skip(1), k);
                assert(t[j + 1].0 == k);
            }
        }
    }
}

proof fn lemma_multi_outputs_lookup(vars: Seq<(Seq<char>, Seq<char>)>, key: Seq<char>, chosen: Seq<Seq<char>>)
    requires
        unique_keys(vars),
    ensures
        unique_keys(multi_select_outputs(vars, key, chosen)),
        forall|k: Seq<char>|
            k != key && k != count_name(key) && (forall|i: nat| k != #[trigger] indexed_name(key, i))
                ==> #[trigger] lookup(multi_select_outputs(vars, key, chosen), k) == lookup(vars, k),
{
    let v1 = assoc_insert(vars, key, join(chosen, seq![',']));
    lemma_insert(vars, key, join(chosen, seq![',']));
    lemma_store_indexed_lookup(v1, key, chosen, chosen.len());
    let v2 = store_indexed(v1, key, chosen, chosen.len());
    lemma_insert(v2, count_name(key), decimal(chosen.len()));
}

proof fn lemma_reaction_writes(
    stage: Stage,
    reply: Reply,
    vars: Seq<(Seq<char>, Seq<char>)>,
    last: Option<Seq<char>>,
)
    requires
        unique_keys(vars),
    ensures
        reaction(stage, reply, vars, last) matches Reaction::Complete { vars: v2, .. } ==> {
            &&& unique_keys(v2)
            &&& forall|k: Seq<char>| !may_write(stage, reply, k) ==> #[trigger] lookup(v2, k) == lookup(vars, k)
        },
{
    match stage {
        Stage::Store { key, value } => {
            if let Some(x) = key {
                lemma_insert(vars, x@, value@);
            }
        },
        Stage::Confirm { output } => {
            if let (Some(x), Reply::Confirmed(b)) = (output, reply) {
                lemma_insert(vars, x@, crate::steps::confirm::bool_word(b));
            }
        },
        Stage::Input { output, .. } => {
            if let (Some(x), Reply::Text(v)) = (output, reply) {
                lemma_insert(vars, x@, v@);
            }
        },
        Stage::MultiChoose { output } => {
            if let (Some(k), Reply::Chosen(vs)) = (output, reply) {
                let chosen = vs@.map_values(|s: String| s@);
                lemma_multi_outputs_lookup(vars, k@, chosen);
                assert(reaction(stage, reply, vars, last) == Reaction::Complete {
                    vars: multi_select_outputs(vars, k@, chosen),
                    last,
                    result: true,
                });
                assert forall|j: Seq<char>| !may_write(stage, reply, j) implies #[trigger] lookup(
                    multi_select_outputs(vars, k@, chosen),
                    j,
                ) == lookup(vars, j) by {
                    assert forall|i: nat| j != #[trigger] indexed_name(k@, i) by {
                        if j == indexed_name(k@, i) {
                            assert(exists|i: nat| j == #[trigger] indexed_name(k@, i));
                        }
                    }
                }
            }
        },
        Stage::SelectChoose { items, output } => {
            if let (Some(k), Reply::ChosenOne(v)) = (output, reply) {
                lemma_insert(vars, k@, v@);
            }
        },
        Stage::Nested { selected, output } => {
            if let Reply::NestedResult(res) = reply {
                lemma_extend_lookup(vars, res@);
                let v1 = assoc_extend(vars, res@);
                let value = crate::steps::select::nested_choice_value(selected@, res@);
                let v2 = select_store(v1, last, output, value).0;
                if let Some(x) = output {
                    lemma_insert(v1, x@, value);
                }
                assert forall|k: Seq<char>| !may_write(stage, reply, k) implies #[trigger] lookup(v2, k)
                    == lookup(vars, k) by {
                    assert(!has_key(res@, k));
                    assert(lookup(v1, k) == lookup(vars, k));
                }
            }
        },
        Stage::PasswordEntry { output, .. } => {
            if let (Some(k), Reply::Text(pw)) = (output, reply) {
                lemma_insert(vars, k@, pw@);
            }
        },
        Stage::PasswordConfirm { output, first } => {
            if let Some(k) = output {
                lemma_insert(vars, k@, first@);
            }
        },
        _ => {},
    }
}

/// One move of a run keeps names unique and changes no variable but those
/// the answered step may write.
proof fn lemma_step_writes(s: RunState, reply: Reply, t: RunState, r: Result<Request, PromptError>)
    requires
        transition(s, reply, t, r),
        unique_keys(s.vars),
    ensures
        unique_keys(t.vars),
        forall|k: Seq<char>| !wrote(s, reply, k) ==> #[trigger] lookup(t.vars, k) == lookup(s.vars, k),
{
    if let Phase::Awaiting(stage) = s.phase {
        lemma_reaction_writes(stage, reply, s.vars, s.last_input);
    }
}

/// Over a whole run, the variables handed to it are kept, and a variable
/// changes only where a step that ran may write it: every variable that no
/// answered step may write ends with the value it started with (or stays
/// unbound), so every variable at the end was handed in or written by a
/// step that ran.
pub proof fn lemma_run_variables(
    states: Seq<RunState>,
    replies: Seq<Reply>,
    outs: Seq<Result<Request, PromptError>>,
)
    requires
        is_run(states, replies, outs),
        unique_keys(states[0].vars),
    ensures
        unique_keys(states.last().vars),
        forall|k: Seq<char>| has_key(states[0].vars, k) ==> #[trigger] has_key(states.last().vars, k),
        forall|k: Seq<char>|
            (forall|i: int| 0 <= i < replies.len() ==> !#[trigger] wrote(states[i], replies[i], k))
                ==> #[trigger] lookup(states.last().vars, k) == lookup(states[0].vars, k),
        forall|k: Seq<char>| #[trigger]
            has_key(states.last().vars, k) ==> has_key(states[0].vars, k) || exists|i: int|
                0 <= i < replies.len() && #[trigger] wrote(states[i], replies[i], k),
    decreases replies.len(),
{
    let n = replies.len() as int;
    if n == 0 {
        return;
    }
    let ps = states.drop_last();
    let pr = replies.drop_last();
    let po = outs.drop_last();
    assert forall|i: int| 0 <= i < pr.len() implies #[trigger] transition(ps[i], pr[i], ps[i + 1], po[i]) by {
        assert(transition(states[i], replies[i], states[i + 1], outs[i]));
    }
    lemma_run_variables(ps, pr, po);
    let a = states[n - 1];
    let b = states[n];
    assert(ps.last() == a);
    assert(transition(states[n - 1], replies[n - 1], states[n], outs[n - 1]));
    lemma_step_writes(a, replies[n - 1], b, outs[n - 1]);
    lemma_names_kept(a, replies[n - 1], b, outs[n - 1]);
    assert forall|k: Seq<char>| has_key(states[0].vars, k) implies #[trigger] has_key(states.last().vars, k) by {
        assert(has_key(ps.last().vars, k));
    }
    assert forall|k: Seq<char>|
        (forall|i: int| 0 <= i < replies.len() ==> !#[trigger] wrote(states[i], replies[i], k)) implies
        #[trigger] lookup(states.last().vars, k) == lookup(states[0].vars, k) by {
        assert forall|i: int| 0 <= i < pr.len() implies !#[trigger] wrote(ps[i], pr[i], k) by {
            assert(!wrote(states[i], replies[i], k));
        }
        assert(!wrote(states[n - 1], replies[n - 1], k));
    }
    assert forall|k: Seq<char>| #[trigger] has_key(states.last().vars, k) implies has_key(states[0].vars, k)
        || exists|i: int| 0 <= i < replies.len() && #[trigger] wrote(states[i], replies[i], k) by {
        if !has_key(states[0].vars, k) && !wrote(states[n - 1], replies[n - 1], k) {
            assert(lookup(b.vars, k) == lookup(a.vars, k));
            if !has_key(a.vars, k) {
                assert(lookup(b.vars, k) is None);
            } else {
                let i = choose|i: int| 0 <= i < pr.len() && #[trigger] wrote(ps[i], pr[i], k);
                assert(wrote(states[i], replies[i], k));
            }
        } else if !has_key(states[0].vars, k) {
            assert(wrote(states[n - 1], replies[n - 1], k));
        }
    }
}

/// What the position, the phase and the outcomes of a run do on one move.
proof fn lemma_step_order(s: RunState, reply: Reply, t: RunState, r: Result<Request, PromptError>)
    requires
        transition(s, reply, t, r),
        0 <= s.pos <= s.steps.len(),
        s.phase is Awaiting ==> s.pos < s.steps.len() && should_run(s.steps[s.pos], s.results),
        s.phase is NotStarted ==> s.pos == 0,
    ensures
        t.steps == s.steps,
        s.pos <= t.pos <= t.steps.len(),
        !(t.phase is NotStarted),
        t.phase is Awaiting ==> t.pos < t.steps.len() && should_run(t.steps[t.pos], t.results),
        s.phase is Finished || s.phase is Failed ==> t == s,
        t.pos != s.pos ==> forall|j: int| s.pos < j < t.pos ==> !should_run(#[trigger] t.steps[j], t.results),
        t.pos != s.pos && s.phase is NotStarted ==> forall|j: int|
            0 <= j < t.pos ==> !should_run(#[trigger] t.steps[j], t.results),
        t.results == s.results || (s.phase is Awaiting && exists|b: bool|
            t.results == record(s.results, s.steps[s.pos].step_name, b)),
{
    lemma_conditions_respected(s, reply, t, r);
    match s.phase {
        Phase::NotStarted => {
            if reply is Start {
                lemma_next_runnable(s.steps, s.results, 0);
            }
        },
        Phase::Awaiting(stage) => {
            match reaction(stage, reply, s.vars, s.last_input) {
                Reaction::Complete { vars, last, result } => {
                    let res = record(s.results, s.steps[s.pos].step_name, result);
                    lemma_next_runnable(s.steps, res, s.pos + 1);
                    assert(t.results == record(s.results, s.steps[s.pos].step_name, result));
                },
                _ => {},
            }
        },
        _ => {},
    }
}

/// Whether one move of a run over `steps`, from `s` to `t`, keeps to the
/// order of the steps: the position never moves back; every step passed over
/// has a condition that fails on the outcomes then recorded; a run that is
/// over or has failed stays as it is; and the outcomes change only by
/// recording, under its name, the outcome of the step that awaited an
/// answer.
pub open spec fn orderly_move(steps: Seq<crate::PromptStep>, s: RunState, t: RunState) -> bool {
    &&& t.steps == steps
    &&& s.pos <= t.pos
    &&& forall|j: int|
        (if s.phase is NotStarted {
            0
        } else {
            s.pos + 1
        }) <= j < t.pos ==> !should_run(#[trigger] steps[j], t.results)
    &&& (s.phase is Finished || s.phase is Failed) ==> t == s
    &&& t.results == s.results || (s.phase is Awaiting && exists|b: bool|
        t.results == record(s.results, steps[s.pos].step_name, b))
}

/// Whether a state of a run over `steps` fits them: its position is within
/// them, and the step awaiting an answer is one whose condition holds on
/// the outcomes recorded so far.
pub open spec fn orderly_state(steps: Seq<crate::PromptStep>, s: RunState) -> bool {
    &&& s.steps == steps
    &&& 0 <= s.pos <= steps.len()
    &&& s.phase is Awaiting ==> s.pos < steps.len() && should_run(steps[s.pos], s.results)
    &&& s.phase is NotStarted ==> s.pos == 0
}

/// Over a whole run from its start, steps are taken in order and only as
/// their conditions allow: every state fits the steps (the step awaiting an
/// answer is one whose condition holds on the outcomes recorded so far), and
/// every move keeps to their order (the position never moves back, the
/// steps passed over are those whose conditions fail, outcomes are recorded
/// only for the step that ran, and once the run is over or has failed
/// nothing changes).
pub proof fn lemma_run_order(
    states: Seq<RunState>,
    replies: Seq<Reply>,
    outs: Seq<Result<Request, PromptError>>,
)
    requires
        is_run(states, replies, outs),
        states[0].phase is NotStarted,
        states[0].pos == 0,
    ensures
        forall|i: int| 0 <= i < states.len() ==> #[trigger] orderly_state(states[0].steps, states[i]),
        forall|i: int|
            0 <= i < replies.len() ==> #[trigger] orderly_move(states[0].steps, states[i], states[i + 1]),
{
    assert forall|i: int| 0 <= i < replies.len() implies #[trigger] moves(
        states[i],
        replies[i],
        states[i + 1],
        outs[i],
    ) by {
        reveal(moves);
        assert(transition(states[i], replies[i], states[i + 1], outs[i]));
    }
    lemma_run_invariant(states, replies, outs);
    assert forall|i: int|
        0 <= i < replies.len() implies #[trigger] orderly_move(states[0].steps, states[i], states[i + 1]) by {
        assert(orderly_state(states[0].steps, states[i]));
        assert(moves(states[i], replies[i], states[i + 1], outs[i]));
        lemma_step_order_moves(states[i], replies[i], states[i + 1], outs[i]);
    }
}

/// One move of a run, with what it does kept out of sight.
#[verifier::opaque]
spec fn moves(s: RunState, reply: Reply, t: RunState, r: Result<Request, PromptError>) -> bool {
    transition(s, reply, t, r)
}

proof fn lemma_step_order_moves(s: RunState, reply: Reply, t: RunState, r: Result<Request, PromptError>)
    requires
        moves(s, reply, t, r),
        0 <= s.pos <= s.steps.len(),
        s.phase is Awaiting ==> s.pos < s.steps.len() && should_run(s.steps[s.pos], s.results),
        s.phase is NotStarted ==> s.pos == 0,
    ensures
        t.steps == s.steps,
        s.pos <= t.pos <= t.steps.len(),
        !(t.phase is NotStarted),
        t.phase is Awaiting ==> t.pos < t.steps.len() && should_run(t.steps[t.pos], t.results),
        s.phase is Finished || s.phase is Failed ==> t == s,
        t.pos != s.pos ==> forall|j: int| s.pos < j < t.pos ==> !should_run(#[trigger] t.steps[j], t.results),
        t.pos != s.pos && s.phase is NotStarted ==> forall|j: int|
            0 <= j < t.pos ==> !should_run(#[trigger] t.steps[j], t.results),
        t.results == s.results || (s.phase is Awaiting && exists|b: bool|
            t.results == record(s.results, s.steps[s.pos].step_name, b)),
{
    reveal(moves);
    lemma_step_order(s, reply, t, r);
}

/// The positions, steps and awaited conditions of every state of a run.
proof fn lemma_run_invariant(
    states: Seq<RunState>,
    replies: Seq<Reply>,
    outs: Seq<Result<Request, PromptError>>,
)
    requires
        states.len() == replies.len() + 1,
        outs.len() == replies.len(),
        forall|i: int|
            0 <= i < replies.len() ==> #[trigger] moves(states[i], replies[i], states[i + 1], outs[i]),
        states[0].phase is NotStarted,
        states[0].pos == 0,
    ensures
        forall|i: int| 0 <= i < states.len() ==> #[trigger] orderly_state(states[0].steps, states[i]),
    decreases replies.len(),
{
    let n = replies.len() as int;
    if n == 0 {
        return;
    }
    let ps = states.drop_last();
    let pr = replies.drop_last();
    let po = outs.drop_last();
    assert forall|i: int| 0 <= i < pr.len() implies #[trigger] moves(ps[i], pr[i], ps[i + 1], po[i]) by {
        assert(moves(states[i], replies[i], states[i + 1], outs[i]));
    }
    lemma_run_invariant(ps, pr, po);
    let m = n - 1;
    assert(ps[m] == states[m]);
    assert(orderly_state(states[0].steps, states[m]));
    assert(moves(states[m], replies[m], states[m + 1], outs[m]));
    lemma_step_order_moves(states[m], replies[m], states[m + 1], outs[m]);
    assert forall|i: int| 0 <= i < states.len() implies #[trigger] orderly_state(states[0].steps, states[i]) by {
        if i < n {
            assert(ps[i] == states[i]);
        }
    }
}


// ---------------------------------------------------------------------------
// What a started step asks
// ---------------------------------------------------------------------------

/// When a run moves on to an opening banner, it asks to show the banner's
/// own text, in exactly the colours of its style when the console takes
/// colours: the ANSI code of the colour, then that of the background, then
/// the text, then the reset code; and the text itself when colours are off
/// or there is no style.
pub proof fn lemma_intro_banner(
    steps: Seq<crate::PromptStep>,
    from: int,
    vars: Seq<(Seq<char>, Seq<char>)>,
    results: Seq<(Seq<char>, bool)>,
    last: Option<Seq<char>>,
    t: RunState,
    r: Result<Request, PromptError>,
    text: String,
    style: Option<crate::TextStyle>,
)
    requires
        proceeds(steps, from, vars, results, last, t, r),
        t.pos < steps.len(),
        steps[t.pos].step_type == (crate::PromptStepType::Intro { text, style }),
    ensures
        r matches Ok(Request::Intro { text: x }) && x@ == match style {
            None => text@,
            Some(st) => if t.colours {
                crate::style::ansi_text(
                    crate::style::banner_fg(crate::variables::opt_view(st.color)),
                    crate::style::banner_bg(crate::variables::opt_view(st.background)),
                    text@,
                )
            } else {
                text@
            },
        },
{
}

/// When a run moves on to a closing banner, it asks to show the banner's
/// text with its variables replaced, in exactly the colours of its style
/// when the console takes colours, and stores that text (uncoloured) under
/// the step's output when the step ends.
pub proof fn lemma_outro_banner(
    steps: Seq<crate::PromptStep>,
    from: int,
    vars: Seq<(Seq<char>, Seq<char>)>,
    results: Seq<(Seq<char>, bool)>,
    last: Option<Seq<char>>,
    t: RunState,
    r: Result<Request, PromptError>,
    text: String,
    input: Option<String>,
    output: Option<String>,
    style: Option<crate::TextStyle>,
)
    requires
        proceeds(steps, from, vars, results, last, t, r),
        t.pos < steps.len(),
        steps[t.pos].step_type == (crate::PromptStepType::Outro { text, input, output, style }),
    ensures
        ({
            let shown = interpolate(
                text@,
                vars,
                crate::steps::outro::outro_input(last, crate::variables::opt_view(input), vars),
            );
            &&& r matches Ok(Request::Outro { text: x }) && x@ == match style {
                None => shown,
                Some(st) => if t.colours {
                    crate::style::ansi_text(
                        crate::style::banner_fg(crate::variables::opt_view(st.color)),
                        crate::style::banner_bg(crate::variables::opt_view(st.background)),
                        shown,
                    )
                } else {
                    shown
                },
            }
            &&& t.phase matches Phase::Awaiting(Stage::Store { key, value }) && key == output && value@
                == shown
        }),
{
}

/// When a run moves on to a yes/no question, it asks the step's own question
/// with the step's own default answer, and the answer given is stored under
/// the step's output as `true` or `false` and becomes the step's outcome.
pub proof fn lemma_confirm_asks_with_default(
    steps: Seq<crate::PromptStep>,
    from: int,
    vars: Seq<(Seq<char>, Seq<char>)>,
    results: Seq<(Seq<char>, bool)>,
    last: Option<Seq<char>>,
    t: RunState,
    r: Result<Request, PromptError>,
    prompt: String,
    output: Option<String>,
    default: Option<bool>,
    answer: bool,
)
    requires
        proceeds(steps, from, vars, results, last, t, r),
        t.pos < steps.len(),
        steps[t.pos].step_type == (crate::PromptStepType::Confirm { prompt, output, default }),
    ensures
        r matches Ok(Request::Confirm { prompt: p, default: d }) && p == prompt && d == default,
        t.phase matches Phase::Awaiting(stage) && reaction(stage, Reply::Confirmed(answer), vars, last)
            == (Reaction::Complete {
            vars: match output {
                Some(k) => assoc_insert(vars, k@, if answer { "true"@ } else { "false"@ }),
                None => vars,
            },
            last,
            result: answer,
        }),
{
}

/// When a run moves on to a password entry, it asks with the step's own
/// question, mask and rules, whether or not the password is to be entered
/// again; and a first entry that breaks a rule never completes the step nor
/// leads to the repeated entry: the run fails with the message of the first
/// rule it breaks.
pub proof fn lemma_password_rules_hold(
    steps: Seq<crate::PromptStep>,
    from: int,
    vars: Seq<(Seq<char>, Seq<char>)>,
    results: Seq<(Seq<char>, bool)>,
    last: Option<Seq<char>>,
    t: RunState,
    r: Result<Request, PromptError>,
    prompt: String,
    mask: Option<char>,
    validate: Option<Vec<crate::steps::password::Validation>>,
    output: Option<String>,
    confirm_password: Option<bool>,
    confirm_prompt: Option<String>,
    pw: String,
)
    requires
        proceeds(steps, from, vars, results, last, t, r),
        t.pos < steps.len(),
        steps[t.pos].step_type == (crate::PromptStepType::Password {
            prompt,
            mask,
            validate,
            output,
            confirm_password,
            confirm_prompt,
        }),
    ensures
        r matches Ok(Request::Password { prompt: p, mask: m, validations: vs }) && p == prompt && m == mask
            && match (vs, validate) {
            (Some(a), Some(b)) => a@ == b@,
            (None, None) => true,
            _ => false,
        },
        match validate {
            Some(rules) => match crate::steps::password::password_verdict(rules@, pw@) {
                Some(msg) => t.phase matches Phase::Awaiting(stage) && reaction(
                    stage,
                    Reply::Text(pw),
                    vars,
                    last,
                ) == (Reaction::Fail { message: msg }),
                None => true,
            },
            None => true,
        },
{
    if let Some(rules) = validate {
        if let Some(msg) = crate::steps::password::password_verdict(rules@, pw@) {
            if let Phase::Awaiting(stage) = t.phase {
                if let Stage::PasswordEntry { output: o, validations: vs, confirm } = stage {
                    assert(crate::engine::opt_seq(vs) == Some(rules@));
                    assert(crate::engine::secret_verdict(crate::engine::opt_seq(vs), pw@) == Some(msg));
                }
            }
        }
    }
}

/// When a run moves on to a spinner, it asks to show the step's start text
/// while the task named by the step runs and the step's stop text when it
/// is done.
pub proof fn lemma_spinner_texts(
    steps: Seq<crate::PromptStep>,
    from: int,
    vars: Seq<(Seq<char>, Seq<char>)>,
    results: Seq<(Seq<char>, bool)>,
    last: Option<Seq<char>>,
    t: RunState,
    r: Result<Request, PromptError>,
    start_text: String,
    stop_text: String,
    run_fn: String,
    output: Option<String>,
)
    requires
        proceeds(steps, from, vars, results, last, t, r),
        t.pos < steps.len(),
        steps[t.pos].step_type == (crate::PromptStepType::Spinner { start_text, stop_text, run_fn, output }),
    ensures
        r matches Ok(Request::Spinner { start_text: a, stop_text: b, .. }) && a == start_text && b
            == stop_text,
{
}

/// A message shows its text with every placeholder of a set variable
/// replaced, whether or not it names an input variable: the same text as a
/// plain interpolation without a last input, which is a single
/// left-to-right pass over the text. This holds when no name and no value
/// holds a brace and the placeholders of the text do not nest.
pub proof fn lemma_print_replaces_every_variable(
    text: Seq<char>,
    input: Option<Seq<char>>,
    vars: Seq<(Seq<char>, Seq<char>)>,
)
    requires
        unique_keys(vars),
        all_brace_free(vars),
        flat_braces(text),
    ensures
        crate::steps::print::print_display(text, input, vars) == interpolate(text, vars, None),
        crate::steps::print::print_display(text, input, vars) == substitute(text, vars),
{
    lemma_replace_each_substitutes(text, vars);
    if let Some(k) = input {
        if let Some(v) = lookup(vars, k) {
            let i = key_index(vars, k);
            assert(entry_brace_free(vars[i]));
            assert(vars[i].0 == k);
            let t = replace_all(text, placeholder(k), v);
            lemma_replace_keeps_flat(text, k, v, false);
            lemma_replace_each_substitutes(t, vars);
            lemma_replace_then_substitute(text, k, v, vars, vars, false);
        }
    }
}

} // verus!
