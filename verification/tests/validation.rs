use cliclack_yaml::steps::input::{letter_rule_outcome, regex_rule_outcome, validate_input};
use cliclack_yaml::steps::password::{self, confirm_prompt_text, passwords_match, validate_password};
use cliclack_yaml::Validation;

fn s(x: &str) -> String {
    x.to_string()
}

#[test]
fn input_rules_in_order() {
    let rules = vec![
        Validation::NotEmpty { message: s("Project name is required") },
        Validation::MustStartWithLetter { message: s("Must start with a letter") },
        Validation::Regex { pattern: s("^[a-z][a-z0-9-]*$"), message: s("Only lowercase letters, numbers, and hyphens") },
    ];
    assert_eq!(validate_input(&rules, &s("")), Err(s("Project name is required")));
    assert_eq!(validate_input(&rules, &s("1abc")), Err(s("Must start with a letter")));
    assert_eq!(validate_input(&rules, &s("Abc")), Err(s("Only lowercase letters, numbers, and hyphens")));
    assert_eq!(validate_input(&rules, &s("my-project2")), Ok(()));
    assert_eq!(validate_input(&vec![], &s("")), Ok(()));
}

#[test]
fn invalid_pattern_is_reported() {
    let rules = vec![Validation::Regex { pattern: s("(unclosed"), message: s("never shown") }];
    assert_eq!(validate_input(&rules, &s("anything")), Err(s("Invalid regex pattern")));
}

#[test]
fn letters_beyond_ascii_count() {
    let rules = vec![Validation::MustStartWithLetter { message: s("letter") }];
    assert_eq!(validate_input(&rules, &s("édition")), Ok(()));
    assert_eq!(validate_input(&rules, &s("京都")), Ok(()));
    assert_eq!(validate_input(&rules, &s("_x")), Err(s("letter")));
}

#[test]
fn rule_outcomes_from_results() {
    let m = s("msg");
    assert_eq!(regex_rule_outcome(false, true, &m), Some(s("Invalid regex pattern")));
    assert_eq!(regex_rule_outcome(true, false, &m), Some(s("msg")));
    assert_eq!(regex_rule_outcome(true, true, &m), None);
    assert_eq!(letter_rule_outcome(Some(true), &m), None);
    assert_eq!(letter_rule_outcome(Some(false), &m), Some(s("msg")));
    assert_eq!(letter_rule_outcome(None, &m), Some(s("msg")));
}

#[test]
fn password_rules_count_bytes() {
    let rules = vec![
        password::Validation::NotEmpty { message: s("Password is required") },
        password::Validation::MinLength { length: 8, message: s("Must be at least 8 characters") },
    ];
    assert_eq!(validate_password(&rules, &s("")), Err(s("Password is required")));
    assert_eq!(validate_password(&rules, &s("short")), Err(s("Must be at least 8 characters")));
    assert_eq!(validate_password(&rules, &s("longenough")), Ok(()));
    // Four characters, eight bytes of UTF-8.
    assert_eq!(validate_password(&rules, &s("éééé")), Ok(()));
}

#[test]
fn repeated_password_must_match() {
    assert_eq!(passwords_match(&s("secret123"), &s("secret123")), Ok(()));
    assert_eq!(passwords_match(&s("secret123"), &s("secret124")), Err(s("Passwords do not match")));
    assert_eq!(confirm_prompt_text(&None), "Confirm your password");
    assert_eq!(confirm_prompt_text(&Some(s("Again"))), "Again");
}
