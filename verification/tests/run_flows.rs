use cliclack_yaml::steps::input::Validation as InputValidation;
use cliclack_yaml::steps::password::Validation as PasswordValidation;
use cliclack_yaml::steps::progress::ProgressType;
use cliclack_yaml::engine::{Reply, Request};
use cliclack_yaml::{
    create_prompt_with_vars_custom, should_execute_step, Condition, Context, MultiSelectItem,
    MultiSelectItems, PromptStep, PromptStepType, SelectItem, SelectItems, StepResults, TextStyle,
};

fn s(x: &str) -> String {
    x.to_string()
}

fn step(t: PromptStepType) -> PromptStep {
    PromptStep { step_type: t, output: None, step_name: None, condition: None }
}

fn vars(pairs: &[(&str, &str)]) -> Context {
    let mut c = Context::new();
    for (k, v) in pairs {
        c.insert(k.to_string(), v.to_string());
    }
    c
}

fn get(c: &Context, k: &str) -> Option<String> {
    c.get(&k.to_string()).cloned()
}

fn confirm(prompt: &str, output: &str, name: &str) -> PromptStep {
    PromptStep {
        step_type: PromptStepType::Confirm { prompt: s(prompt), output: Some(s(output)), default: None },
        output: None,
        step_name: Some(s(name)),
        condition: None,
    }
}

fn input_if(prompt: &str, output: &str, parent: &str, value: bool) -> PromptStep {
    PromptStep {
        step_type: PromptStepType::Input {
            prompt: s(prompt),
            placeholder: None,
            validate: None,
            output: Some(s(output)),
        },
        output: None,
        step_name: None,
        condition: Some(Condition { parent: s(parent), value }),
    }
}

fn print_if(text: &str, parent: &str, value: bool) -> PromptStep {
    PromptStep {
        step_type: PromptStepType::Print { text: s(text), loglevel: Some(s("info")), input: None },
        output: None,
        step_name: None,
        condition: Some(Condition { parent: s(parent), value }),
    }
}

#[test]
fn conditional_steps_follow_the_answer() {
    let steps = vec![
        confirm("Do you want to proceed?", "should_proceed", "proceed_step"),
        input_if("Enter name", "name", "proceed_step", true),
        print_if("Hello {name}", "proceed_step", true),
    ];
    let mut run = create_prompt_with_vars_custom(steps.clone(), Some(vars(&[("name", "Test User")])));
    assert!(matches!(run.advance(Reply::Start).unwrap(), Request::Confirm { .. }));
    assert!(matches!(run.advance(Reply::Confirmed(true)).unwrap(), Request::Input { .. }));
    match run.advance(Reply::Text(s("Ada"))).unwrap() {
        Request::Print { text, .. } => assert_eq!(text, "Hello Ada"),
        other => panic!("unexpected {:?}", other),
    }
    assert!(matches!(run.advance(Reply::Done).unwrap(), Request::Finished));
    assert!(run.is_finished());
    let c = run.into_context();
    assert_eq!(get(&c, "name"), Some(s("Ada")));
    assert_eq!(get(&c, "should_proceed"), Some(s("true")));

    let mut run = create_prompt_with_vars_custom(steps, Some(vars(&[("name", "Test User")])));
    run.advance(Reply::Start).unwrap();
    assert!(matches!(run.advance(Reply::Confirmed(false)).unwrap(), Request::Finished));
    let c = run.into_context();
    assert_eq!(get(&c, "name"), Some(s("Test User")));
    assert_eq!(get(&c, "should_proceed"), Some(s("false")));
}

#[test]
fn a_condition_on_an_unknown_step_skips() {
    let steps = vec![print_if("never", "nobody", true)];
    let mut run = create_prompt_with_vars_custom(steps.clone(), None);
    assert!(matches!(run.advance(Reply::Start).unwrap(), Request::Finished));
    assert!(!should_execute_step(&steps[0], &StepResults::new()));
    let mut r = StepResults::new();
    r.insert(s("nobody"), true);
    assert!(should_execute_step(&steps[0], &r));
    r.insert(s("nobody"), false);
    assert!(!should_execute_step(&steps[0], &r));
}

#[test]
fn banners_keep_the_variables() {
    let steps = vec![
        step(PromptStepType::Intro {
            text: s("Welcome {name}"),
            style: Some(TextStyle { color: Some(s("blue")), background: None }),
        }),
        step(PromptStepType::Outro {
            text: s("Goodbye {name}"),
            input: None,
            output: None,
            style: None,
        }),
    ];
    let mut run = create_prompt_with_vars_custom(steps, Some(vars(&[("name", "Test User")])));
    match run.advance(Reply::Start).unwrap() {
        Request::Intro { text } => assert!(text.contains("Welcome {name}")),
        other => panic!("unexpected {:?}", other),
    }
    match run.advance(Reply::Done).unwrap() {
        Request::Outro { text } => assert_eq!(text, "Goodbye Test User"),
        other => panic!("unexpected {:?}", other),
    }
    assert!(matches!(run.advance(Reply::Done).unwrap(), Request::Finished));
    let c = run.into_context();
    assert_eq!(c.len(), 1);
    assert_eq!(get(&c, "name"), Some(s("Test User")));
}

#[test]
fn empty_flow_returns_empty_variables() {
    let mut run = create_prompt_with_vars_custom(vec![], None);
    assert!(matches!(run.advance(Reply::Start).unwrap(), Request::Finished));
    assert!(run.context().is_empty());
    assert!(run.advance(Reply::Done).is_err());
}

#[test]
fn outro_reads_its_input_variable_and_stores_its_text() {
    let steps = vec![
        step(PromptStepType::Input { prompt: s("Name"), placeholder: None, validate: None, output: Some(s("n")) }),
        step(PromptStepType::Outro {
            text: s("Bye {input} / {n}"),
            input: Some(s("other")),
            output: Some(s("farewell")),
            style: None,
        }),
    ];
    let mut run = create_prompt_with_vars_custom(steps, Some(vars(&[("other", "O")])));
    run.advance(Reply::Start).unwrap();
    match run.advance(Reply::Text(s("typed"))).unwrap() {
        Request::Outro { text } => assert_eq!(text, "Bye O / typed"),
        other => panic!("unexpected {:?}", other),
    }
    run.advance(Reply::Done).unwrap();
    assert_eq!(get(run.context(), "farewell"), Some(s("Bye O / typed")));
}

#[test]
fn select_stores_choice_and_runs_nested_flow() {
    let items = vec![
        SelectItem { value: s("dev"), label: s("Dev"), hint: None, execute_yaml: None },
        SelectItem { value: s("prod"), label: s("Prod"), hint: None, execute_yaml: Some(s("deploy/prod")) },
    ];
    let steps = vec![step(PromptStepType::Select {
        prompt: s("Target"),
        items: SelectItems::Static(items),
        output: Some(s("target")),
        initial: Some(s("{default}")),
    })];

    let mut run = create_prompt_with_vars_custom(steps.clone(), Some(vars(&[("default", "dev")])));
    match run.advance(Reply::Start).unwrap() {
        Request::Select { initial, items, .. } => {
            assert_eq!(initial, Some(s("dev")));
            assert_eq!(items.len(), 2);
        }
        other => panic!("unexpected {:?}", other),
    }
    assert!(matches!(run.advance(Reply::ChosenOne(s("dev"))).unwrap(), Request::Finished));
    assert_eq!(get(run.context(), "target"), Some(s("dev")));

    let mut run = create_prompt_with_vars_custom(steps, Some(vars(&[("default", "dev")])));
    run.advance(Reply::Start).unwrap();
    match run.advance(Reply::ChosenOne(s("prod"))).unwrap() {
        Request::RunNested { prompt_name, variables } => {
            assert_eq!(prompt_name, "deploy/prod");
            assert_eq!(get(&variables, "default"), Some(s("dev")));
        }
        other => panic!("unexpected {:?}", other),
    }
    let result = vars(&[("region", "eu"), ("external_step_output", "prod-eu")]);
    assert!(matches!(run.advance(Reply::NestedResult(result)).unwrap(), Request::Finished));
    let c = run.into_context();
    assert_eq!(get(&c, "target"), Some(s("prod-eu")));
    assert_eq!(get(&c, "region"), Some(s("eu")));
}

#[test]
fn variable_items_are_read_then_offered() {
    let steps = vec![step(PromptStepType::MultiSelect {
        prompt: s("Pick"),
        items: MultiSelectItems::Variable(s("{list}")),
        output: Some(s("picked")),
        required: Some(true),
    })];
    let mut run = create_prompt_with_vars_custom(steps.clone(), Some(vars(&[("list", "{\"a\":\"A\"}")])));
    match run.advance(Reply::Start).unwrap() {
        Request::ReadMultiSelectItems { text } => assert_eq!(text, "{\"a\":\"A\"}"),
        other => panic!("unexpected {:?}", other),
    }
    match run.advance(Reply::MultiSelectItemsRead(None)).unwrap() {
        Request::MultiSelect { items, required, .. } => {
            assert!(required);
            assert_eq!(items.len(), 1);
            assert_eq!(items[0].value, "a");
            assert_eq!(items[0].label, "a");
            assert_eq!(items[0].hint, Some(s("A")));
        }
        other => panic!("unexpected {:?}", other),
    }
    assert!(matches!(run.advance(Reply::Chosen(vec![s("a")])).unwrap(), Request::Finished));
    assert_eq!(get(run.context(), "picked_count"), Some(s("1")));

    let mut run = create_prompt_with_vars_custom(steps, Some(vars(&[("list", "oops")])));
    run.advance(Reply::Start).unwrap();
    let err = run.advance(Reply::MultiSelectItemsRead(None)).unwrap_err();
    assert_eq!(err.message, "No items available for multiselect");
}

#[test]
fn empty_static_items_fail() {
    let steps = vec![step(PromptStepType::Select {
        prompt: s("x"),
        items: SelectItems::Static(vec![]),
        output: None,
        initial: None,
    })];
    let mut run = create_prompt_with_vars_custom(steps, None);
    assert_eq!(run.advance(Reply::Start).unwrap_err().message, "No items available for select");
    let steps = vec![step(PromptStepType::MultiSelect {
        prompt: s("x"),
        items: MultiSelectItems::Static(Vec::<MultiSelectItem>::new()),
        output: None,
        required: None,
    })];
    let mut run = create_prompt_with_vars_custom(steps, None);
    assert_eq!(run.advance(Reply::Start).unwrap_err().message, "No items available for multiselect");
    let steps = vec![step(PromptStepType::Select {
        prompt: s("x"),
        items: SelectItems::Variable(s("[]")),
        output: None,
        initial: None,
    })];
    let mut run = create_prompt_with_vars_custom(steps, None);
    run.advance(Reply::Start).unwrap();
    let err = run.advance(Reply::SelectItemsRead(Some(vec![]))).unwrap_err();
    assert_eq!(err.message, "No items available for select");
}

#[test]
fn select_items_from_an_object_of_strings() {
    let long = "x".repeat(60);
    let list = format!("{{\"dev\":\"Local\",\"prod\":\"{}\"}}", long);
    let steps = vec![step(PromptStepType::Select {
        prompt: s("Where?"),
        items: SelectItems::Variable(s("{list}")),
        output: Some(s("target")),
        initial: Some(s("prod")),
    })];
    let mut run = create_prompt_with_vars_custom(steps, Some(vars(&[("list", &list)])));
    run.advance(Reply::Start).unwrap();
    assert_eq!(run.advance_checked(Reply::SelectItemsRead(None)).is_some(), true);
    let mut run2 = create_prompt_with_vars_custom(
        vec![step(PromptStepType::Select {
            prompt: s("Where?"),
            items: SelectItems::Variable(s("{list}")),
            output: Some(s("target")),
            initial: Some(s("prod")),
        })],
        Some(vars(&[("list", &list)])),
    );
    run2.advance(Reply::Start).unwrap();
    match run2.advance(Reply::SelectItemsRead(None)).unwrap() {
        Request::Select { mut items, initial, .. } => {
            items.sort_by(|a, b| a.value.cmp(&b.value));
            assert_eq!(items.len(), 2);
            assert_eq!(items[0].value, "dev");
            assert_eq!(items[0].hint, Some(s("Local")));
            assert_eq!(items[1].hint, Some(format!("{}...", "x".repeat(47))));
            assert_eq!(initial, Some(s("prod")));
        }
        other => panic!("unexpected {:?}", other),
    }
    assert!(matches!(run2.advance(Reply::ChosenOne(s("dev"))).unwrap(), Request::Finished));
    assert_eq!(get(run2.context(), "target"), Some(s("dev")));
}

#[test]
fn a_description_cut_inside_a_character_is_refused() {
    let desc = format!("{}é{}", "a".repeat(46), "b".repeat(10));
    let list = format!("{{\"k\":\"{}\"}}", desc);
    let steps = vec![step(PromptStepType::MultiSelect {
        prompt: s("Pick"),
        items: MultiSelectItems::Variable(s("{list}")),
        output: None,
        required: None,
    })];
    let mut run = create_prompt_with_vars_custom(steps, Some(vars(&[("list", &list)])));
    run.advance(Reply::Start).unwrap();
    assert!(!run.hints_fit(&Reply::MultiSelectItemsRead(None)));
    assert!(run.advance_checked(Reply::MultiSelectItemsRead(None)).is_none());
    assert!(run.hints_fit(&Reply::MultiSelectItemsRead(Some(vec![]))));
}

#[test]
fn password_with_confirmation() {
    let steps = vec![step(PromptStepType::Password {
        prompt: s("New password"),
        mask: Some('*'),
        validate: None,
        output: Some(s("new_password")),
        confirm_password: Some(true),
        confirm_prompt: None,
    })];
    let mut run = create_prompt_with_vars_custom(steps, None);
    assert!(matches!(run.advance(Reply::Start).unwrap(), Request::Password { mask: Some('*'), .. }));
    match run.advance(Reply::Text(s("newpassword123"))).unwrap() {
        Request::ConfirmPassword { prompt, first, mask } => {
            assert_eq!(prompt, "Confirm your password");
            assert_eq!(first, "newpassword123");
            assert_eq!(mask, Some('*'));
        }
        other => panic!("unexpected {:?}", other),
    }
    assert!(matches!(run.advance(Reply::Text(s("newpassword123"))).unwrap(), Request::Finished));
    assert_eq!(get(run.context(), "new_password"), Some(s("newpassword123")));
}

#[test]
fn a_different_repeated_password_fails() {
    let steps = vec![step(PromptStepType::Password {
        prompt: s("New password"),
        mask: None,
        validate: None,
        output: Some(s("pw")),
        confirm_password: Some(true),
        confirm_prompt: Some(s("Again")),
    })];
    let mut run = create_prompt_with_vars_custom(steps, None);
    run.advance(Reply::Start).unwrap();
    run.advance(Reply::Text(s("secret123"))).unwrap();
    let err = run.advance(Reply::Text(s("secret124"))).unwrap_err();
    assert_eq!(err.message, "Passwords do not match");
    assert_eq!(get(run.context(), "pw"), None);
}

#[test]
fn a_password_breaking_a_rule_fails() {
    let steps = vec![step(PromptStepType::Password {
        prompt: s("Password"),
        mask: None,
        validate: Some(vec![PasswordValidation::MinLength { length: 8, message: s("Must be at least 8 characters") }]),
        output: Some(s("pw")),
        confirm_password: None,
        confirm_prompt: None,
    })];
    let mut run = create_prompt_with_vars_custom(steps, None);
    run.advance(Reply::Start).unwrap();
    let err = run.advance(Reply::Text(s("short"))).unwrap_err();
    assert_eq!(err.message, "Must be at least 8 characters");
}

#[test]
fn a_line_breaking_a_rule_fails_and_a_good_one_is_stored() {
    let rules = vec![
        InputValidation::NotEmpty { message: s("Name is required") },
        InputValidation::MustStartWithLetter { message: s("Must start with a letter") },
    ];
    let make = || vec![step(PromptStepType::Input {
        prompt: s("Name"),
        placeholder: None,
        validate: Some(rules.clone()),
        output: Some(s("name")),
    })];
    let mut run = create_prompt_with_vars_custom(make(), None);
    run.advance(Reply::Start).unwrap();
    assert_eq!(run.advance(Reply::Text(s("1abc"))).unwrap_err().message, "Must start with a letter");
    let mut run = create_prompt_with_vars_custom(make(), None);
    run.advance(Reply::Start).unwrap();
    assert_eq!(run.advance(Reply::Text(s(""))).unwrap_err().message, "Name is required");
    let mut run = create_prompt_with_vars_custom(make(), None);
    run.advance(Reply::Start).unwrap();
    assert!(matches!(run.advance(Reply::Text(s("TestUser123"))).unwrap(), Request::Finished));
    assert_eq!(get(run.context(), "name"), Some(s("TestUser123")));
}

#[test]
fn spinner_output_and_unknown_function() {
    let good = step(PromptStepType::Spinner {
        start_text: s("Working"),
        stop_text: s("Done"),
        run_fn: s("wait_five_seconds"),
        output: Some(s("result")),
    });
    let mut run = create_prompt_with_vars_custom(vec![good], None);
    assert!(matches!(run.advance(Reply::Start).unwrap(), Request::Spinner { task: Ok(_), .. }));
    run.advance(Reply::Done).unwrap();
    assert_eq!(get(run.context(), "result"), Some(s("Task completed successfully")));

    let bad = step(PromptStepType::Spinner {
        start_text: s("Working"),
        stop_text: s("Done"),
        run_fn: s("install_deps"),
        output: None,
    });
    let mut run = create_prompt_with_vars_custom(vec![bad], None);
    match run.advance(Reply::Start).unwrap() {
        Request::Spinner { task: Err(m), .. } => assert_eq!(m, "Function not found: install_deps"),
        other => panic!("unexpected {:?}", other),
    }
    assert_eq!(run.advance(Reply::Done).unwrap_err().message, "Function not found: install_deps");
}

#[test]
fn progress_stores_completed() {
    let steps = vec![step(PromptStepType::Progress {
        progress_type: ProgressType::Bar { total: 3, use_download_template: false },
        start_message: s("Installing"),
        stop_message: s("Installed"),
        items: None,
        output: Some(s("install_status")),
    })];
    let mut run = create_prompt_with_vars_custom(steps, None);
    run.advance(Reply::Start).unwrap();
    run.advance(Reply::Done).unwrap();
    assert_eq!(get(run.context(), "install_status"), Some(s("completed")));
}

#[test]
fn a_wrong_reply_fails_the_run() {
    let mut run = create_prompt_with_vars_custom(vec![confirm("ok?", "o", "n")], None);
    assert!(run.advance(Reply::Done).is_err());
    let mut run = create_prompt_with_vars_custom(vec![confirm("ok?", "o", "n")], None);
    run.advance(Reply::Start).unwrap();
    let e = run.advance(Reply::Text(s("yes"))).unwrap_err();
    assert_eq!(e.message, "reply does not answer the pending request");
}

#[test]
fn multiselect_items_marked_selected_start_selected() {
    let item = |v: &str, l: &str, sel: Option<bool>| MultiSelectItem { value: s(v), label: s(l), hint: None, is_selected: sel };
    let steps = vec![step(PromptStepType::MultiSelect {
        prompt: s("Select features"),
        items: MultiSelectItems::Static(vec![
            item("auth", "Authentication", None),
            item("db", "Database", Some(true)),
            item("api", "API", Some(false)),
        ]),
        output: Some(s("features")),
        required: Some(true),
    })];
    let mut run = create_prompt_with_vars_custom(steps, None);
    match run.advance(Reply::Start).unwrap() {
        Request::MultiSelect { items, required, initial_values, .. } => {
            assert_eq!(items.len(), 3);
            assert!(required);
            assert_eq!(initial_values, vec![s("db")]);
        }
        other => panic!("unexpected {:?}", other),
    }
    run.advance(Reply::Chosen(vec![s("db"), s("api")])).unwrap();
    assert_eq!(get(run.context(), "features"), Some(s("db,api")));
    assert_eq!(get(run.context(), "features_count"), Some(s("2")));
}

#[test]
fn a_run_keeps_given_variables_and_adds_only_outputs() {
    let steps = vec![
        step(PromptStepType::Input { prompt: s("Name"), placeholder: None, validate: None, output: Some(s("name")) }),
        step(PromptStepType::Print { text: s("Hello {name} from {project}"), loglevel: None, input: None }),
    ];
    let mut run = create_prompt_with_vars_custom(steps, Some(vars(&[("project", "CLI Project"), ("version", "1.0.0")])));
    run.advance(Reply::Start).unwrap();
    match run.advance(Reply::Text(s("Test User"))).unwrap() {
        Request::Print { text, .. } => assert_eq!(text, "Hello Test User from CLI Project"),
        other => panic!("unexpected {:?}", other),
    }
    assert!(matches!(run.advance(Reply::Done).unwrap(), Request::Finished));
    let c = run.into_context();
    assert_eq!(c.len(), 3);
    assert_eq!(get(&c, "project"), Some(s("CLI Project")));
    assert_eq!(get(&c, "version"), Some(s("1.0.0")));
    assert_eq!(get(&c, "name"), Some(s("Test User")));
}
