use cliclack_yaml::steps::multi_select::{multi_select_items_from_parsed, store_multi_select, ParsedMultiSelectItems};
use cliclack_yaml::steps::print::{ends_with_newline, plain_lines, print_level, print_text, PrintLevel};
use cliclack_yaml::steps::progress::{
    multi_progress_plan, progress_work, ProgressBarConfig, ProgressItem, ProgressOp, ProgressType, ProgressWork,
};
use cliclack_yaml::steps::select::{
    choice_output_from, find_selected, hint_can_be_shortened, nested_output_value, select_items_from_parsed, shorten_hint,
    ParsedSelectItems,
};
use cliclack_yaml::steps::spinner::{execute_function_by_name, task_duration_ms, task_output, NamedTask};
use cliclack_yaml::steps::confirm::bool_text;
use cliclack_yaml::text::decimal_chars;
use cliclack_yaml::{Context, MultiSelectItem, SelectItem};

fn s(x: &str) -> String {
    x.to_string()
}

fn get(c: &Context, k: &str) -> Option<String> {
    c.get(&k.to_string()).cloned()
}

#[test]
fn short_hints_stay_and_long_ones_are_cut() {
    assert_eq!(shorten_hint(&s("short")), "short");
    let exactly_50 = "x".repeat(50);
    assert_eq!(shorten_hint(&exactly_50), exactly_50);
    let long = "y".repeat(60);
    let h = shorten_hint(&long);
    assert_eq!(h, format!("{}...", "y".repeat(47)));
    assert_eq!(h.len(), 50);
}

#[test]
fn cutting_inside_a_character_is_detected() {
    // 46 ASCII bytes, then two-byte characters: byte 47 falls inside one.
    let v = format!("{}{}", "a".repeat(46), "é".repeat(5));
    assert!(!hint_can_be_shortened(&v));
    let w = format!("{}{}", "a".repeat(45), "é".repeat(5));
    assert!(hint_can_be_shortened(&w));
    assert_eq!(shorten_hint(&w), format!("{}é...", "a".repeat(45)));
}

#[test]
fn items_from_pairs() {
    let parsed = ParsedSelectItems::Pairs(vec![(s("dev"), s("Local")), (s("prod"), "z".repeat(55))]);
    let items = select_items_from_parsed(parsed);
    assert_eq!(items.len(), 2);
    assert_eq!(items[0].value, "dev");
    assert_eq!(items[0].label, "dev");
    assert_eq!(items[0].hint, Some(s("Local")));
    assert_eq!(items[0].execute_yaml, None);
    assert_eq!(items[1].hint, Some(format!("{}...", "z".repeat(47))));
    assert!(select_items_from_parsed(ParsedSelectItems::Unreadable).is_empty());
    let given = vec![SelectItem { value: s("a"), label: s("A"), hint: None, execute_yaml: Some(s("flow")) }];
    let items = select_items_from_parsed(ParsedSelectItems::Items(given));
    assert_eq!(items[0].execute_yaml, Some(s("flow")));

    let m = multi_select_items_from_parsed(ParsedMultiSelectItems::Pairs(vec![(s("k"), s("v"))]));
    assert_eq!(m[0].value, "k");
    assert_eq!(m[0].hint, Some(s("v")));
    let m = multi_select_items_from_parsed(ParsedMultiSelectItems::Items(vec![MultiSelectItem {
        value: s("a"),
        label: s("A"),
        hint: None,
        is_selected: None,
    }]));
    assert_eq!(m.len(), 1);
    assert!(multi_select_items_from_parsed(ParsedMultiSelectItems::Unreadable).is_empty());
}

#[test]
fn first_matching_item_is_found() {
    let items = vec![
        SelectItem { value: s("a"), label: s("1"), hint: None, execute_yaml: None },
        SelectItem { value: s("b"), label: s("2"), hint: None, execute_yaml: None },
        SelectItem { value: s("b"), label: s("3"), hint: None, execute_yaml: None },
    ];
    assert_eq!(find_selected(&items, &s("b")), Some(1));
    assert_eq!(find_selected(&items, &s("c")), None);
}

#[test]
fn multi_select_choices_are_stored_three_ways() {
    let mut c = Context::new();
    store_multi_select(&mut c, &s("tools"), &vec![s("eslint"), s("prettier")]);
    assert_eq!(get(&c, "tools"), Some(s("eslint,prettier")));
    assert_eq!(get(&c, "tools_0"), Some(s("eslint")));
    assert_eq!(get(&c, "tools_1"), Some(s("prettier")));
    assert_eq!(get(&c, "tools_count"), Some(s("2")));
    let mut e = Context::new();
    store_multi_select(&mut e, &s("none"), &vec![]);
    assert_eq!(get(&e, "none"), Some(s("")));
    assert_eq!(get(&e, "none_count"), Some(s("0")));
}

#[test]
fn many_choices_get_two_digit_indexes() {
    let mut c = Context::new();
    let chosen: Vec<String> = (0..12).map(|i| format!("v{}", i)).collect();
    store_multi_select(&mut c, &s("k"), &chosen);
    assert_eq!(get(&c, "k_11"), Some(s("v11")));
    assert_eq!(get(&c, "k_count"), Some(s("12")));
}

#[test]
fn decimal_notation() {
    let d: String = decimal_chars(0).into_iter().collect();
    assert_eq!(d, "0");
    let d: String = decimal_chars(1907).into_iter().collect();
    assert_eq!(d, "1907");
}

#[test]
fn nested_output_prefers_external_step_output() {
    let mut r = Context::new();
    r.insert(s("a"), s("1"));
    r.insert(s("external_step_output"), s("picked"));
    assert_eq!(nested_output_value(&s("sel"), &r), "picked");
    let mut q = Context::new();
    q.insert(s("b"), s("2"));
    q.insert(s("a"), s("x\"y"));
    assert_eq!(nested_output_value(&s("sel"), &q), "{\"a\":\"x\\\"y\",\"b\":\"2\"}");
    assert_eq!(nested_output_value(&s("sel"), &Context::new()), "{}");
}

#[test]
fn print_text_and_levels() {
    let mut c = Context::new();
    c.insert(s("project"), s("MyProject"));
    assert_eq!(print_text(&s("Building {project}"), &Some(s("project")), &c), "Building MyProject");
    assert_eq!(print_text(&s("Building {project}"), &None, &c), "Building MyProject");
    assert_eq!(print_text(&s("{missing}"), &Some(s("missing")), &c), "{missing}");
    assert_eq!(print_level(&None), PrintLevel::Plain);
    assert_eq!(print_level(&Some(s("info"))), PrintLevel::Info);
    assert_eq!(print_level(&Some(s("warn"))), PrintLevel::Warning);
    assert_eq!(print_level(&Some(s("warning"))), PrintLevel::Warning);
    assert_eq!(print_level(&Some(s("error"))), PrintLevel::Error);
    assert_eq!(print_level(&Some(s("none"))), PrintLevel::Remark);
    assert_eq!(print_level(&Some(s("loud"))), PrintLevel::Remark);
}

#[test]
fn plain_lines_follow_str_lines() {
    for text in ["a\nb", "a\r\nb\n", "", "\n", "x\r", "one\n\ntwo\r\n\r\n", "no newline"] {
        let expected: Vec<String> = text.lines().map(|l| l.to_string()).collect();
        assert_eq!(plain_lines(&s(text)), expected, "text {:?}", text);
        assert_eq!(ends_with_newline(&s(text)), text.ends_with('\n'));
    }
}

#[test]
fn spinner_tasks_by_name() {
    let t = execute_function_by_name(&s("wait_five_seconds")).unwrap();
    assert_eq!(t, NamedTask::WaitFiveSeconds);
    assert_eq!(task_output(t), "Task completed successfully");
    assert_eq!(task_duration_ms(t), 5000);
    assert_eq!(execute_function_by_name(&s("install_deps")).unwrap_err(), "Function not found: install_deps");
    assert_eq!(bool_text(true), "true");
    assert_eq!(bool_text(false), "false");
}

#[test]
fn progress_work_for_items_and_defaults() {
    let items = vec![
        ProgressItem { message: s("Downloading"), increment: Some(30), delay_ms: Some(100) },
        ProgressItem { message: s(""), increment: None, delay_ms: None },
    ];
    let bar = ProgressType::Bar { total: 100, use_download_template: false };
    match progress_work(&bar, &Some(items.clone())) {
        ProgressWork::Steps(ops) => {
            assert_eq!(ops.len(), 4);
            assert!(matches!(ops[0], ProgressOp::Pause(100)));
            assert!(matches!(ops[1], ProgressOp::Advance(30)));
            assert!(matches!(&ops[2], ProgressOp::Message(m) if m == "Downloading"));
            assert!(matches!(ops[3], ProgressOp::Advance(1)));
        }
        _ => panic!("expected steps"),
    }
    match progress_work(&ProgressType::Spinner, &Some(items)) {
        ProgressWork::Steps(ops) => assert_eq!(ops.len(), 2),
        _ => panic!("expected steps"),
    }
    assert!(matches!(progress_work(&bar, &None), ProgressWork::Fill { ticks: 100, pause_ms: 50 }));
    assert!(matches!(progress_work(&ProgressType::Spinner, &None), ProgressWork::Wait(2000)));
}

#[test]
fn multi_progress_orders_bars_before_spinners() {
    let cfg = |t: ProgressType| ProgressBarConfig {
        progress_type: t,
        start_message: s("start"),
        stop_message: s("stop"),
        items: None,
    };
    let configs = vec![
        cfg(ProgressType::Spinner),
        cfg(ProgressType::Bar { total: 3, use_download_template: true }),
        cfg(ProgressType::Spinner),
        cfg(ProgressType::Bar { total: 5, use_download_template: false }),
    ];
    let plan = multi_progress_plan(&configs);
    assert_eq!(plan.order, vec![1, 3, 0, 2]);
    assert_eq!(plan.indicators.len(), 4);
    assert!(matches!(plan.indicators[1].work, ProgressWork::Fill { ticks: 3, pause_ms: 20 }));
    assert!(matches!(plan.indicators[0].work, ProgressWork::Wait(1000)));
}

#[test]
fn choice_output_precedence() {
    let sel = s("sel");
    let ext = s("ext");
    assert_eq!(choice_output_from(&sel, Some(&ext), Some(s("{}"))), "ext");
    assert_eq!(choice_output_from(&sel, None, Some(s("{}"))), "{}");
    assert_eq!(choice_output_from(&sel, None, None), "sel");
}
