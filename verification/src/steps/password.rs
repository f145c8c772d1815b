//! Password input: the rules a password must meet, and the repeated entry.

use vstd::prelude::*;
use vstd::utf8::encode_utf8;

verus! {

/// A rule for a password, with the message shown when it is broken.
#[derive(Debug, Clone)]
pub enum Validation {
    NotEmpty { message: String },
    MinLength { length: usize, message: String },
}

/// The length of `s` in bytes of UTF-8.
pub open spec fn byte_len(s: Seq<char>) -> nat {
    encode_utf8(s).len()
}

/// The message of the rule `v` when `input` breaks it, or `None`.
pub open spec fn rule_verdict(v: Validation, input: Seq<char>) -> Option<Seq<char>> {
    match v {
        Validation::NotEmpty { message } => if input.len() == 0 {
            Some(message@)
        } else {
            None
        },
        Validation::MinLength { length, message } => if byte_len(input) < length {
            Some(message@)
        } else {
            None
        },
    }
}

/// The message of the first rule that `input` breaks, or `None`.
pub open spec fn password_verdict(rules: Seq<Validation>, input: Seq<char>) -> Option<Seq<char>>
    decreases rules.len(),
{
    if rules.len() == 0 {
        None
    } else {
        match rule_verdict(rules[0], input) {
            Some(m) => Some(m),
            None => password_verdict(rules.skip(1), input),
        }
    }
}

/// Checks a password against the rules in order: the message of the first
/// rule it breaks, or success.
pub fn validate_password(rules: &Vec<Validation>, input: &String) -> (r: Result<(), String>)
    ensures
        r is Ok <==> password_verdict(rules@, input@) is None,
        r matches Err(m) ==> password_verdict(rules@, input@) == Some(m@),
{
    let mut i: usize = 0;
    assert(rules@.skip(0) =~= rules@);
    while i < rules.len()
        invariant
            i <= rules@.len(),
            password_verdict(rules@, input@) == password_verdict(rules@.skip(i as int), input@),
        decreases rules@.len() - i,
    {
        assert(rules@.skip(i as int)[0] == rules@[i as int]);
        assert(rules@.skip(i as int).skip(1) =~= rules@.skip(i + 1));
        match &rules[i] {
            Validation::NotEmpty { message } => {
                if input.unicode_len() == 0 {
                    return Err(message.clone());
                }
            },
            Validation::MinLength { length, message } => {
                if input.as_str().as_bytes().len() < *length {
                    return Err(message.clone());
                }
            },
        }
        i = i + 1;
    }
    Ok(())
}

/// The repeated entry must equal the first one.
pub fn passwords_match(first: &String, input: &String) -> (r: Result<(), String>)
    ensures
        first@ == input@ ==> r is Ok,
        first@ != input@ ==> (r matches Err(m) && m@ == "Passwords do not match"@),
{
    if *input != *first {
        Err(String::from_str("Passwords do not match"))
    } else {
        Ok(())
    }
}

/// The question for the repeated entry: the one configured, or
/// `Confirm your password`.
pub fn confirm_prompt_text(confirm_prompt: &Option<String>) -> (t: String)
    ensures
        confirm_prompt matches Some(p) ==> t@ == p@,
        confirm_prompt is None ==> t@ == "Confirm your password"@,
{
    match confirm_prompt {
        Some(p) => p.clone(),
        None => String::from_str("Confirm your password"),
    }
}

/// A copy of a rule.
pub fn copy_rule(v: &Validation) -> (r: Validation)
    ensures
        r == *v,
{
    match v {
        Validation::NotEmpty { message } => Validation::NotEmpty { message: message.clone() },
        Validation::MinLength { length, message } => Validation::MinLength {
            length: *length,
            message: message.clone(),
        },
    }
}

/// A copy of a list of rules.
pub fn copy_rules(rules: &Vec<Validation>) -> (r: Vec<Validation>)
    ensures
        r@ == rules@,
{
    let mut r: Vec<Validation> = Vec::new();
    let mut i: usize = 0;
    while i < rules.len()
        invariant
            i <= rules@.len(),
            r@ == rules@.take(i as int),
        decreases rules@.len() - i,
    {
        r.push(copy_rule(&rules[i]));
        i = i + 1;
        assert(r@ =~= rules@.take(i as int));
    }
    assert(rules@.take(rules@.len() as int) =~= rules@);
    r
}

} // verus!
