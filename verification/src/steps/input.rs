//! Text input: the rules a typed line must meet.

use vstd::prelude::*;

verus! {

/// A rule for a typed line, with the message shown when it is broken.
#[derive(Debug, Clone)]
pub enum Validation {
    NotEmpty { message: String },
    Regex { pattern: String, message: String },
    MustStartWithLetter { message: String },
}

#[verifier::external_type_specification]
#[verifier::external_body]
pub struct ExRegex(regex::Regex);

/// A regular expression together with the pattern it was compiled from.
struct CompiledPattern {
    regex: regex::Regex,
    source: String,
}

/// Whether `regex::Regex::new` accepts `pattern`.
pub uninterp spec fn pattern_compiles(pattern: Seq<char>) -> bool;

/// Whether the regular expression compiled from `pattern` finds a match in
/// `input` (`regex::Regex::is_match`).
pub uninterp spec fn pattern_matches(pattern: Seq<char>, input: Seq<char>) -> bool;

/// Whether `c` has the Unicode Alphabetic property (`char::is_alphabetic`).
pub uninterp spec fn is_alphabetic(c: char) -> bool;

/// Calls `regex::Regex::new(pattern)`. Claims that it succeeds exactly when
/// the pattern compiles (a name for the crate's judgement), and keeps the
/// pattern beside the compiled expression.
#[verifier::external_body]
fn compile_pattern(pattern: &String) -> (r: Option<CompiledPattern>)
    ensures
        r is Some == pattern_compiles(pattern@),
        r matches Some(c) ==> c.source@ == pattern@,
{
    match regex::Regex::new(pattern) {
        Ok(regex) => Some(CompiledPattern { regex, source: pattern.clone() }),
        Err(_) => None,
    }
}

/// Calls `regex::Regex::is_match` on `input`. Claims that the answer is the
/// one named by `pattern_matches` for the pattern the expression was compiled
/// from.
#[verifier::external_body]
fn compiled_is_match(c: &CompiledPattern, input: &String) -> (b: bool)
    ensures
        b == pattern_matches(c.source@, input@),
{
    c.regex.is_match(input)
}

/// Calls `char::is_alphabetic`; the answer is the one named by
/// `is_alphabetic`.
#[verifier::external_body]
fn char_is_alphabetic(c: char) -> (b: bool)
    ensures
        b == is_alphabetic(c),
{
    c.is_alphabetic()
}

/// The message of the rule `v` when `input` breaks it, or `None`.
pub open spec fn rule_verdict(v: Validation, input: Seq<char>) -> Option<Seq<char>> {
    match v {
        Validation::NotEmpty { message } => if input.len() == 0 {
            Some(message@)
        } else {
            None
        },
        Validation::Regex { pattern, message } => if !pattern_compiles(pattern@) {
            Some("Invalid regex pattern"@)
        } else if !pattern_matches(pattern@, input) {
            Some(message@)
        } else {
            None
        },
        Validation::MustStartWithLetter { message } => if input.len() > 0 && is_alphabetic(
            input[0],
        ) {
            None
        } else {
            Some(message@)
        },
    }
}

/// The message of the first rule that `input` breaks, or `None`.
pub open spec fn input_verdict(rules: Seq<Validation>, input: Seq<char>) -> Option<Seq<char>>
    decreases rules.len(),
{
    if rules.len() == 0 {
        None
    } else {
        match rule_verdict(rules[0], input) {
            Some(m) => Some(m),
            None => input_verdict(rules.skip(1), input),
        }
    }
}

/// The outcome of a pattern rule, given whether the pattern compiled and
/// whether it matched.
pub fn regex_rule_outcome(compiles: bool, matched: bool, message: &String) -> (r: Option<String>)
    ensures
        !compiles ==> (r matches Some(m) && m@ == "Invalid regex pattern"@),
        compiles && !matched ==> (r matches Some(m) && m@ == message@),
        compiles && matched ==> r is None,
{
    if !compiles {
        Some(String::from_str("Invalid regex pattern"))
    } else if !matched {
        Some(message.clone())
    } else {
        None
    }
}

/// The outcome of the first-letter rule, given whether the first character
/// is alphabetic (`None` for an empty line).
pub fn letter_rule_outcome(first_is_letter: Option<bool>, message: &String) -> (r: Option<String>)
    ensures
        first_is_letter == Some(true) ==> r is None,
        first_is_letter != Some(true) ==> (r matches Some(m) && m@ == message@),
{
    match first_is_letter {
        Some(true) => None,
        _ => Some(message.clone()),
    }
}

/// The message of `rule` when `input` breaks it.
pub fn check_rule(rule: &Validation, input: &String) -> (r: Option<String>)
    ensures
        opt_message(r) == rule_verdict(*rule, input@),
{
    match rule {
        Validation::NotEmpty { message } => {
            if input.unicode_len() == 0 {
                Some(message.clone())
            } else {
                None
            }
        },
        Validation::Regex { pattern, message } => {
            match compile_pattern(pattern) {
                Some(c) => {
                    let matched = compiled_is_match(&c, input);
                    regex_rule_outcome(true, matched, message)
                },
                None => regex_rule_outcome(false, false, message),
            }
        },
        Validation::MustStartWithLetter { message } => {
            let first = if input.unicode_len() > 0 {
                Some(char_is_alphabetic(input.get_char(0)))
            } else {
                None
            };
            letter_rule_outcome(first, message)
        },
    }
}

/// The view of an optional message.
pub open spec fn opt_message(r: Option<String>) -> Option<Seq<char>> {
    match r {
        Some(m) => Some(m@),
        None => None,
    }
}

/// Checks `input` against the rules in order: the message of the first rule
/// it breaks, or success.
pub fn validate_input(rules: &Vec<Validation>, input: &String) -> (r: Result<(), String>)
    ensures
        r is Ok <==> input_verdict(rules@, input@) is None,
        r matches Err(m) ==> input_verdict(rules@, input@) == Some(m@),
{
    let mut i: usize = 0;
    assert(rules@.skip(0) =~= rules@);
    while i < rules.len()
        invariant
            i <= rules@.len(),
            input_verdict(rules@, input@) == input_verdict(rules@.skip(i as int), input@),
        decreases rules@.len() - i,
    {
        assert(rules@.skip(i as int)[0] == rules@[i as int]);
        assert(rules@.skip(i as int).skip(1) =~= rules@.skip(i + 1));
        if let Some(m) = check_rule(&rules[i], input) {
            return Err(m);
        }
        i = i + 1;
    }
    Ok(())
}

/// A copy of a rule.
pub fn copy_rule(v: &Validation) -> (r: Validation)
    ensures
        r == *v,
{
    match v {
        Validation::NotEmpty { message } => Validation::NotEmpty { message: message.clone() },
        Validation::Regex { pattern, message } => Validation::Regex {
            pattern: pattern.clone(),
            message: message.clone(),
        },
        Validation::MustStartWithLetter { message } => Validation::MustStartWithLetter {
            message: message.clone(),
        },
    }
}

/// A copy of a list of rules.
pub fn copy_rules(rules: &Vec<Validation>) -> (r: Vec<Validation>)
    ensures
        r@ == rules@,
{
    let mut r: Vec<Validation> = Vec::new();
    let mut i: usize = 0;
    while i < rules.len()
        invariant
            i <= rules@.len(),
            r@ == rules@.take(i as int),
        decreases rules@.len() - i,
    {
        r.push(copy_rule(&rules[i]));
        i = i + 1;
        assert(r@ =~= rules@.take(i as int));
    }
    assert(rules@.take(rules@.len() as int) =~= rules@);
    r
}

} // verus!
