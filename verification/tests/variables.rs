use cliclack_yaml::style::style_text;
use cliclack_yaml::style::text_style_terms;
use cliclack_yaml::text::{chars_of, join_strings, replace_all_chars, string_of};
use cliclack_yaml::variables::variables_from_pairs;
use cliclack_yaml::{apply_text_style, handle_output, inject_external_variables, replace_variables};
use cliclack_yaml::{Context, OutputValue, TextStyle};

fn ctx(pairs: &[(&str, &str)]) -> Context {
    let mut c = Context::new();
    for (k, v) in pairs {
        c.insert(k.to_string(), v.to_string());
    }
    c
}

fn get(c: &Context, k: &str) -> Option<String> {
    c.get(&k.to_string()).cloned()
}

#[test]
fn replaces_named_variables() {
    let c = ctx(&[("name", "Test User"), ("project", "CLI Project")]);
    assert_eq!(replace_variables("Hello {name}, welcome to {project}!", &c, &None), "Hello Test User, welcome to CLI Project!");
}

#[test]
fn replaces_input_placeholder_first() {
    let c = ctx(&[("input", "from context")]);
    assert_eq!(replace_variables("[{input}]", &c, &Some("typed".to_string())), "[typed]");
    assert_eq!(replace_variables("[{input}]", &c, &None), "[from context]");
}

#[test]
fn unknown_placeholders_and_plain_text_stay() {
    let c = ctx(&[("a", "1")]);
    assert_eq!(replace_variables("{b} and {a}{a}", &c, &None), "{b} and 11");
    assert_eq!(replace_variables("no braces here", &c, &Some("x".to_string())), "no braces here");
    assert_eq!(replace_variables("", &c, &None), "");
}

#[test]
fn a_lone_placeholder_becomes_its_value() {
    let c = ctx(&[("config_path", "/home/user/.config/myapp")]);
    assert_eq!(replace_variables("{config_path}", &c, &None), "/home/user/.config/myapp");
}

#[test]
fn replacement_is_left_to_right_and_not_overlapping() {
    let s = chars_of("aaaa");
    let out = replace_all_chars(&s, &chars_of("aa"), &chars_of("b"));
    assert_eq!(string_of(&out), "bb");
    let out = replace_all_chars(&chars_of("aaa"), &chars_of("aa"), &chars_of("b"));
    assert_eq!(string_of(&out), "ba");
    let out = replace_all_chars(&chars_of("héllo wörld"), &chars_of("ö"), &chars_of("oe"));
    assert_eq!(string_of(&out), "héllo woerld");
}

#[test]
fn handle_output_stores_values_and_joined_output() {
    let mut c = ctx(&[("user", "alice")]);
    let values = vec![
        OutputValue { name: "who".to_string(), value: "user".to_string() },
        OutputValue { name: "greeting".to_string(), value: "hi".to_string() },
    ];
    assert!(handle_output(&values, &Some("all".to_string()), &mut c).is_ok());
    assert_eq!(get(&c, "who"), Some("alice".to_string()));
    assert_eq!(get(&c, "greeting"), Some("hi".to_string()));
    assert_eq!(get(&c, "all"), Some("alice,hi".to_string()));
    assert_eq!(c.len(), 4);
}

#[test]
fn handle_output_reads_values_stored_earlier_in_the_same_call() {
    let mut c = Context::new();
    let values = vec![
        OutputValue { name: "x".to_string(), value: "first".to_string() },
        OutputValue { name: "y".to_string(), value: "x".to_string() },
    ];
    handle_output(&values, &None, &mut c).unwrap();
    assert_eq!(get(&c, "y"), Some("first".to_string()));
    assert_eq!(c.len(), 2);
}

#[test]
fn inject_defaults_to_no_variables() {
    assert!(inject_external_variables(None).is_empty());
    let c = inject_external_variables(Some(ctx(&[("k", "v")])));
    assert_eq!(get(&c, "k"), Some("v".to_string()));
}

#[test]
fn context_insert_overwrites_in_place() {
    let mut c = ctx(&[("a", "1"), ("b", "2")]);
    c.insert("a".to_string(), "3".to_string());
    assert_eq!(c.len(), 2);
    assert_eq!(c.entry(0), (&"a".to_string(), &"3".to_string()));
    let mut d = ctx(&[("b", "x"), ("c", "y")]);
    d.extend(c);
    assert_eq!(get(&d, "b"), Some("2".to_string()));
    assert_eq!(get(&d, "a"), Some("3".to_string()));
    assert_eq!(d.len(), 3);
}

#[test]
fn join_with_commas() {
    let parts = vec!["a".to_string(), "b".to_string(), "c".to_string()];
    assert_eq!(join_strings(&parts, &vec![',']), "a,b,c");
    assert_eq!(join_strings(&vec![], &vec![',']), "");
}

#[test]
fn unstyled_text_is_unchanged_and_styled_text_keeps_it() {
    assert_eq!(apply_text_style(" Welcome ", &None), " Welcome ");
    let plain = TextStyle { color: Some("purple".to_string()), background: None };
    assert_eq!(apply_text_style("x", &Some(plain)), "x");
    let styled = TextStyle { color: Some("black".to_string()), background: Some("cyan".to_string()) };
    assert!(apply_text_style(" Welcome ", &Some(styled)).contains(" Welcome "));
}

#[test]
fn style_terms_are_dotted() {
    let both = TextStyle { color: Some("black".to_string()), background: Some("cyan".to_string()) };
    assert_eq!(text_style_terms(&both), "on_cyan.black");
    let fg = TextStyle { color: Some("blue".to_string()), background: None };
    assert_eq!(text_style_terms(&fg), "blue");
    let bg = TextStyle { color: Some("pink".to_string()), background: Some("yellow".to_string()) };
    assert_eq!(text_style_terms(&bg), "on_yellow");
}

#[test]
fn later_pairs_win() {
    let c = variables_from_pairs(vec![
        ("name".to_string(), "first".to_string()),
        ("other".to_string(), "x".to_string()),
        ("name".to_string(), "second".to_string()),
    ]);
    assert_eq!(c.len(), 2);
    assert_eq!(get(&c, "name"), Some("second".to_string()));
}

#[test]
fn order_of_variables_does_not_change_the_text() {
    let a = ctx(&[("user", "Ada"), ("tool", "cliclack"), ("n", "3")]);
    let b = ctx(&[("n", "3"), ("tool", "cliclack"), ("user", "Ada")]);
    let text = "{user} runs {tool} {n} times; {missing} stays";
    let expected = "Ada runs cliclack 3 times; {missing} stays";
    assert_eq!(replace_variables(text, &a, &None), expected);
    assert_eq!(replace_variables(text, &b, &None), expected);
    let last = Some("typed".to_string());
    assert_eq!(replace_variables("{input}/{user}", &a, &last), replace_variables("{input}/{user}", &b, &last));
}

#[test]
fn order_matters_when_a_value_holds_a_placeholder() {
    let a = ctx(&[("a", "{b}"), ("b", "B")]);
    let b = ctx(&[("b", "B"), ("a", "{b}")]);
    assert_eq!(replace_variables("{a}{b}", &a, &None), "BB");
    assert_eq!(replace_variables("{a}{b}", &b, &None), "{b}B");
}

#[test]
fn banner_colours_with_colours_on() {
    console::set_colors_enabled(true);
    let style = |c: Option<&str>, b: Option<&str>| TextStyle {
        color: c.map(|s| s.to_string()),
        background: b.map(|s| s.to_string()),
    };
    assert_eq!(
        apply_text_style(" Welcome ", &Some(style(Some("black"), Some("cyan")))),
        "\x1b[30m\x1b[46m Welcome \x1b[0m"
    );
    assert_eq!(apply_text_style("ok", &Some(style(Some("white"), None))), "\x1b[37mok\x1b[0m");
    assert_eq!(apply_text_style("ok", &Some(style(None, Some("yellow")))), "\x1b[43mok\x1b[0m");
    assert_eq!(apply_text_style("ok", &Some(style(Some("blue"), Some("blue")))), "\x1b[34mok\x1b[0m");
    assert_eq!(apply_text_style("ok", &Some(style(Some("pink"), Some("blue")))), "ok");
}

#[test]
fn banner_colours_with_colours_off() {
    console::set_colors_enabled(false);
    let st = TextStyle { color: Some("red".to_string()), background: Some("green".to_string()) };
    assert_eq!(apply_text_style(" Bye ", &Some(st)), " Bye ");
}

#[test]
fn interpolating_twice_changes_nothing() {
    let c = ctx(&[("name", "Ada"), ("input", "ctx")]);
    let last = Some("typed".to_string());
    for text in ["Hi {name}, you typed {input}; {unknown} stays", "{", "{name", "}{name}{", "plain"] {
        let once = replace_variables(text, &c, &last);
        assert_eq!(replace_variables(&once, &c, &last), once);
        let once_none = replace_variables(text, &c, &None);
        assert_eq!(replace_variables(&once_none, &c, &None), once_none);
    }
    assert_eq!(replace_variables("Hi {name}, you typed {input}", &c, &last), "Hi Ada, you typed typed");
}

#[test]
fn style_text_follows_the_colour_switch() {
    let st = Some(TextStyle { color: Some("green".to_string()), background: Some("red".to_string()) });
    assert_eq!(style_text(" Go ", &st, true), "\x1b[32m\x1b[41m Go \x1b[0m");
    assert_eq!(style_text(" Go ", &st, false), " Go ");
    assert_eq!(style_text(" Go ", &None, true), " Go ");
    let none_known = Some(TextStyle { color: Some("purple".to_string()), background: Some("blue".to_string()) });
    assert_eq!(style_text(" Go ", &none_known, true), " Go ");
}
