//! A run of a prompt flow: which step comes next, what it asks of the user,
//! and what the answer changes.
//!
//! The run hands out one [`Request`] at a time; the caller performs it (asks,
//! shows, waits) and hands back the [`Reply`]. Steps run in order; a step with
//! a condition runs only when the outcome recorded under its parent equals the
//! condition's value.

use vstd::prelude::*;
use crate::context::{
    assoc_extend, assoc_insert, lookup, unique_keys, Context, StepResults,
};
use crate::steps::confirm::{bool_text, bool_word};
use crate::steps::input;
use crate::steps::multi_select::{
    copy_items as copy_multi_items, multi_item_from_pair, multi_parse_of, parse_multi_select_items,
    preselected, preselected_values, string_views, multi_select_items_from_parsed,
    multi_select_outputs, store_multi_select, MultiSelectItem, MultiSelectItems,
    ParsedMultiSelectItems,
};
use crate::steps::outro::{outro_input, outro_text};
use crate::steps::password;
use crate::steps::print::{level_of, print_display, print_level, print_text, PrintLevel};
use crate::steps::progress::{
    bar_total, copy_progress_type, indicator_for, kind_positions, multi_progress_plan,
    progress_work, work_is, MultiProgressPlan, ProgressType, ProgressWork,
};
use crate::steps::select::{
    copy_items as copy_select_items, find_selected, item_from_pair, nested_choice_value,
    nested_output_value, select_items_from_parsed, lemma_pair_hints, lemma_pairs_map, no_items_in,
    pair_views, parse_select_items, select_parse_of, text_hints_fit, text_hints_ok, ParsedSelectItems,
    SelectItem,
    SelectItems,
};
use crate::steps::spinner::{execute_function_by_name, task_named, task_output, task_result, NamedTask};
use crate::style::{ansi_text, banner_bg, banner_fg, colours_enabled, style_text};
use crate::text::copy_opt_string;
use crate::variables::{interpolate, opt_view, replace_variables};
use crate::{PromptError, PromptStep, PromptStepType, TextStyle};

verus! {

/// What the caller is asked to do next.
#[derive(Debug)]
#[allow(inconsistent_fields)]
pub enum Request {
    /// Clear the terminal, then reply `Done`.
    ClearScreen,
    /// Show the opening banner `text`, then reply `Done`.
    Intro { text: String },
    /// Ask a yes/no question, then reply `Confirmed`.
    Confirm { prompt: String, default: Option<bool> },
    /// Ask for a line checked by `input::validate_input` against the rules,
    /// then reply `Text`.
    Input {
        prompt: String,
        placeholder: Option<String>,
        validations: Option<Vec<input::Validation>>,
    },
    /// Show a spinner with `start_text`, run the task, stop it with
    /// `stop_text`, then reply `Done`. When there is no such task, start the
    /// spinner and give up with the message.
    Spinner { start_text: String, stop_text: String, task: Result<NamedTask, String> },
    /// Show a message, then reply `Done`.
    Print { text: String, level: PrintLevel },
    /// Show the closing banner `text`, then reply `Done`.
    Outro { text: String },
    /// Read the JSON text of a multiple-choice item list as a list of items,
    /// then reply `MultiSelectItemsRead`.
    ReadMultiSelectItems { text: String },
    /// Offer a multiple choice with the items of `initial_values` selected,
    /// then reply `Chosen`.
    MultiSelect {
        prompt: String,
        items: Vec<MultiSelectItem>,
        required: bool,
        initial_values: Vec<String>,
    },
    /// Read the JSON text of a single-choice item list, then reply
    /// `SelectItemsRead`.
    ReadSelectItems { text: String },
    /// Offer a single choice, then reply `ChosenOne`.
    Select { prompt: String, items: Vec<SelectItem>, initial: Option<String> },
    /// Run the prompt flow `prompt_name` with these variables, then reply
    /// `NestedResult` with its variables.
    RunNested { prompt_name: String, variables: Context },
    /// Ask for a password checked by `password::validate_password` against
    /// the rules, then reply `Text`.
    Password {
        prompt: String,
        mask: Option<char>,
        validations: Option<Vec<password::Validation>>,
    },
    /// Ask for the password again, checked by `password::passwords_match`
    /// against `first`, then reply `Text` with it.
    ConfirmPassword { prompt: String, mask: Option<char>, first: String },
    /// Show a progress indicator doing `work`, then reply `Done`.
    Progress {
        progress_type: ProgressType,
        start_message: String,
        stop_message: String,
        work: ProgressWork,
    },
    /// Show a group of indicators following `plan`, then reply `Done`.
    MultiProgress { title: String, plan: MultiProgressPlan },
    /// The run is over; its variables are those of the run.
    Finished,
}

/// What the caller hands back.
pub enum Reply {
    /// Begins the run.
    Start,
    /// The request was carried out.
    Done,
    /// The answer to a yes/no question.
    Confirmed(bool),
    /// The line or password entered.
    Text(String),
    /// The items that the JSON text of a multiple-choice item list holds as
    /// a list of items, or `None` where it is no such list.
    MultiSelectItemsRead(Option<Vec<MultiSelectItem>>),
    /// The items that the JSON text of a single-choice item list holds as a
    /// list of items, or `None` where it is no such list.
    SelectItemsRead(Option<Vec<SelectItem>>),
    /// The values chosen in a multiple choice.
    Chosen(Vec<String>),
    /// The value chosen in a single choice.
    ChosenOne(String),
    /// The variables that a nested flow ended with.
    NestedResult(Context),
}

/// What the current step awaits.
#[allow(inconsistent_fields)]
pub enum Stage {
    /// `Done`; nothing is stored.
    Plain,
    /// `Done`; then `value` is stored under `key`, if given.
    Store { key: Option<String>, value: String },
    /// Any reply ends the run with `message`.
    Abort { message: String },
    /// `Confirmed`; the answer is stored under `output`.
    Confirm { output: Option<String> },
    /// `Text`; a line that meets the rules becomes the last input and is
    /// stored under `output`; one that breaks a rule ends the run with the
    /// rule's message.
    Input { output: Option<String>, validations: Option<Vec<input::Validation>> },
    /// `MultiSelectItemsRead` for the item list `text`.
    MultiItems { prompt: String, output: Option<String>, required: bool, text: String },
    /// `Chosen`; the choices are stored under `output`.
    MultiChoose { output: Option<String> },
    /// `SelectItemsRead` for the item list `text`.
    SelectItems {
        prompt: String,
        output: Option<String>,
        initial: Option<String>,
        text: String,
    },
    /// `ChosenOne` among `items`.
    SelectChoose { items: Vec<SelectItem>, output: Option<String> },
    /// `NestedResult` of the flow run for the choice `selected`.
    Nested { selected: String, output: Option<String> },
    /// `Text`; a password that meets the rules, to be entered again when
    /// `confirm` gives the question and mask for it; one that breaks a rule
    /// ends the run with the rule's message.
    PasswordEntry {
        output: Option<String>,
        validations: Option<Vec<password::Validation>>,
        confirm: Option<(String, Option<char>)>,
    },
    /// `Text`: the password `first` entered again; a different one ends the
    /// run with the mismatch message.
    PasswordConfirm { output: Option<String>, first: String },
}

/// Where a run stands.
pub enum Phase {
    NotStarted,
    Awaiting(Stage),
    Finished,
    Failed,
}

/// The state of a run.
pub ghost struct RunState {
    pub steps: Seq<PromptStep>,
    /// The current step, or the next one to consider.
    pub pos: int,
    pub vars: Seq<(Seq<char>, Seq<char>)>,
    pub results: Seq<(Seq<char>, bool)>,
    pub last_input: Option<Seq<char>>,
    pub phase: Phase,
    /// Whether the console took colours when the current step started.
    pub colours: bool,
}

// ---------------------------------------------------------------------------
// Conditions and the order of steps
// ---------------------------------------------------------------------------

/// Whether `step` runs, given the outcomes recorded so far: a step without a
/// condition always runs; one with a condition runs when its parent's
/// outcome is recorded and equals the condition's value.
pub open spec fn should_run(step: PromptStep, results: Seq<(Seq<char>, bool)>) -> bool {
    match step.condition {
        Some(c) => lookup(results, c.parent@) == Some(c.value),
        None => true,
    }
}

/// The first step at or after `from` that runs, or the number of steps.
pub open spec fn next_runnable(steps: Seq<PromptStep>, results: Seq<(Seq<char>, bool)>, from: int) -> int
    decreases steps.len() - from,
{
    if from < 0 || from >= steps.len() {
        steps.len() as int
    } else if should_run(steps[from], results) {
        from
    } else {
        next_runnable(steps, results, from + 1)
    }
}

/// Whether `step` runs, given the recorded outcomes.
pub fn should_execute_step(step: &PromptStep, step_results: &StepResults) -> (b: bool)
    ensures
        b == should_run(*step, step_results@),
{
    match &step.condition {
        Some(c) => match step_results.get(&c.parent) {
            Some(r) => r == c.value,
            None => false,
        },
        None => true,
    }
}

// ---------------------------------------------------------------------------
// Starting a step
// ---------------------------------------------------------------------------

/// `r` is `text` in the colours of `style`, as `apply_text_style` gives it:
/// the text itself, or (when the console takes colours) the text written
/// with the ANSI codes of the style's colour and background.
pub open spec fn styled_as(r: Seq<char>, text: Seq<char>, style: Option<TextStyle>) -> bool {
    match style {
        None => r == text,
        Some(st) => r == text || r == ansi_text(
            banner_fg(opt_view(st.color)),
            banner_bg(opt_view(st.background)),
            text,
        ),
    }
}

/// The contents of an optional list.
pub open spec fn opt_seq<T>(o: Option<Vec<T>>) -> Option<Seq<T>> {
    match o {
        Some(v) => Some(v@),
        None => None,
    }
}

/// The message for a choice with no items.
pub open spec fn no_items_message(multi: bool) -> Seq<char> {
    if multi {
        "No items available for multiselect"@
    } else {
        "No items available for select"@
    }
}

/// When starting `step` fails: a choice whose items are given in the flow
/// and are none.
pub open spec fn start_failure(step: PromptStep) -> Option<Seq<char>> {
    match step.step_type {
        PromptStepType::MultiSelect { items, .. } => match items {
            MultiSelectItems::Static(v) => if v@.len() == 0 {
                Some(no_items_message(true))
            } else {
                None
            },
            MultiSelectItems::Variable(_) => None,
        },
        PromptStepType::Select { items, .. } => match items {
            SelectItems::Static(v) => if v@.len() == 0 {
                Some(no_items_message(false))
            } else {
                None
            },
            SelectItems::Variable(_) => None,
        },
        _ => None,
    }
}

/// The resolved initial value of a single choice.
pub open spec fn resolved_initial(
    initial: Option<String>,
    vars: Seq<(Seq<char>, Seq<char>)>,
    last: Option<Seq<char>>,
) -> Option<Seq<char>> {
    match initial {
        Some(i) => Some(interpolate(i@, vars, last)),
        None => None,
    }
}

/// The question and mask of the repeated password entry, when it is asked.
pub open spec fn confirm_entry(
    mask: Option<char>,
    confirm_password: Option<bool>,
    confirm_prompt: Option<String>,
) -> Option<(Seq<char>, Option<char>)> {
    if confirm_password == Some(true) {
        Some(
            (
                match confirm_prompt {
                    Some(p) => p@,
                    None => "Confirm your password"@,
                },
                mask,
            ),
        )
    } else {
        None
    }
}

/// The view of the repeated-entry part of a password stage.
pub open spec fn confirm_view(c: Option<(String, Option<char>)>) -> Option<(Seq<char>, Option<char>)> {
    match c {
        Some(p) => Some((p.0@, p.1)),
        None => None,
    }
}

/// The request that starts `step` (when starting it does not fail).
pub open spec fn start_request(
    step: PromptStep,
    vars: Seq<(Seq<char>, Seq<char>)>,
    last: Option<Seq<char>>,
    req: Request,
) -> bool {
    match step.step_type {
        PromptStepType::ClearScreen => req is ClearScreen,
        PromptStepType::Intro { text, style } => req matches Request::Intro { text: t } && styled_as(
            t@,
            text@,
            style,
        ),
        PromptStepType::Confirm { prompt, default, .. } => req == Request::Confirm { prompt, default },
        PromptStepType::Input { prompt, placeholder, validate, .. } => req matches Request::Input {
            prompt: p,
            placeholder: ph,
            validations: vs,
        } && p == prompt && ph == placeholder && opt_seq(vs) == opt_seq(validate),
        PromptStepType::Spinner { start_text, stop_text, run_fn, .. } => req matches Request::Spinner {
            start_text: a,
            stop_text: b,
            task: t,
        } && a == start_text && b == stop_text && match task_named(run_fn@) {
            Ok(tk) => t == Ok::<NamedTask, String>(tk),
            Err(m) => t matches Err(e) && e@ == m,
        },
        PromptStepType::Print { text, loglevel, input } => req matches Request::Print { text: t, level }
            && t@ == print_display(text@, opt_view(input), vars) && level == level_of(
            opt_view(loglevel),
        ),
        PromptStepType::Outro { text, input, style, .. } => req matches Request::Outro { text: t }
            && styled_as(t@, interpolate(text@, vars, outro_input(last, opt_view(input), vars)), style),
        PromptStepType::MultiSelect { prompt, items, required, .. } => match items {
            MultiSelectItems::Static(v) => req matches Request::MultiSelect {
                prompt: p,
                items: its,
                required: r,
                initial_values: iv,
            } && p == prompt && its@ == v@ && r == (required == Some(true)) && string_views(iv@)
                == preselected(v@),
            MultiSelectItems::Variable(t) => req matches Request::ReadMultiSelectItems { text: x }
                && x@ == interpolate(t@, vars, last),
        },
        PromptStepType::Select { prompt, items, initial, .. } => match items {
            SelectItems::Static(v) => req matches Request::Select { prompt: p, items: its, initial: i }
                && p == prompt && its@ == v@ && opt_view(i) == resolved_initial(initial, vars, last),
            SelectItems::Variable(t) => req matches Request::ReadSelectItems { text: x } && x@
                == interpolate(t@, vars, last),
        },
        PromptStepType::Password { prompt, mask, validate, .. } => req matches Request::Password {
            prompt: p,
            mask: m,
            validations: vs,
        } && p == prompt && m == mask && opt_seq(vs) == opt_seq(validate),
        PromptStepType::Progress { progress_type, start_message, stop_message, items, .. } =>
            req matches Request::Progress {
            progress_type: t,
            start_message: a,
            stop_message: b,
            work,
        } && t == progress_type && a == start_message && b == stop_message && work_is(
            work,
            bar_total(progress_type),
            items,
            50,
            2000,
        ),
        PromptStepType::MultiProgress { title, progress_bars, .. } => req matches Request::MultiProgress {
            title: t,
            plan,
        } && t == title && plan.indicators@.len() == progress_bars@.len() && (forall|i: int|
            0 <= i < progress_bars@.len() ==> indicator_for(
                #[trigger] plan.indicators@[i],
                progress_bars@[i],
            )) && plan.order@ == kind_positions(progress_bars@, true, progress_bars@.len())
            + kind_positions(progress_bars@, false, progress_bars@.len()),
    }
}

/// The text stored when a progress step ends.
pub open spec fn completed_word() -> Seq<char> {
    "completed"@
}

/// The stage that awaits the reply to the request that starts `step`.
pub open spec fn start_stage(
    step: PromptStep,
    vars: Seq<(Seq<char>, Seq<char>)>,
    last: Option<Seq<char>>,
    stage: Stage,
) -> bool {
    match step.step_type {
        PromptStepType::ClearScreen => stage is Plain,
        PromptStepType::Intro { .. } => stage is Plain,
        PromptStepType::Confirm { output, .. } => stage == Stage::Confirm { output },
        PromptStepType::Input { output, validate, .. } => stage matches Stage::Input {
            output: o,
            validations: vs,
        } && o == output && opt_seq(vs) == opt_seq(validate),
        PromptStepType::Spinner { run_fn, output, .. } => match task_named(run_fn@) {
            Ok(tk) => stage matches Stage::Store { key, value } && key == output && value@ == task_result(
                tk,
            ),
            Err(m) => stage matches Stage::Abort { message } && message@ == m,
        },
        PromptStepType::Print { .. } => stage is Plain,
        PromptStepType::Outro { text, input, output, .. } => stage matches Stage::Store { key, value }
            && key == output && value@ == interpolate(
            text@,
            vars,
            outro_input(last, opt_view(input), vars),
        ),
        PromptStepType::MultiSelect { prompt, items, output, required } => match items {
            MultiSelectItems::Static(_) => stage == Stage::MultiChoose { output },
            MultiSelectItems::Variable(t) => stage matches Stage::MultiItems {
                prompt: p,
                output: o,
                required: r,
                text: x,
            } && p == prompt && o == output && r == (required == Some(true)) && x@ == interpolate(
                t@,
                vars,
                last,
            ),
        },
        PromptStepType::Select { prompt, items, output, initial } => match items {
            SelectItems::Static(v) => stage matches Stage::SelectChoose { items: its, output: o } && its@
                == v@ && o == output,
            SelectItems::Variable(t) => stage matches Stage::SelectItems {
                prompt: p,
                output: o,
                initial: i,
                text: x,
            } && p == prompt && o == output && i == initial && x@ == interpolate(t@, vars, last),
        },
        PromptStepType::Password { mask, validate, output, confirm_password, confirm_prompt, .. } =>
            stage matches Stage::PasswordEntry { output: o, validations: vs, confirm } && o == output
                && opt_seq(vs) == opt_seq(validate) && confirm_view(confirm) == confirm_entry(
                mask,
                confirm_password,
                confirm_prompt,
            ),
        PromptStepType::Progress { output, .. } => stage matches Stage::Store { key, value } && key
            == output && value@ == completed_word(),
        PromptStepType::MultiProgress { output, .. } => stage matches Stage::Store { key, value } && key
            == output && value@ == completed_word(),
    }
}

/// A banner's text in the colours of `style`, with colours written or not
/// as `colours` says.
pub open spec fn banner_text(text: Seq<char>, style: Option<TextStyle>, colours: bool) -> Seq<char> {
    match style {
        None => text,
        Some(st) => if colours {
            ansi_text(banner_fg(opt_view(st.color)), banner_bg(opt_view(st.background)), text)
        } else {
            text
        },
    }
}

/// The request that starts `step` when the console takes colours as
/// `colours` says: as `start_request` gives it, with a banner's text in
/// exactly the colours of its style.
pub open spec fn start_request_in(
    step: PromptStep,
    vars: Seq<(Seq<char>, Seq<char>)>,
    last: Option<Seq<char>>,
    colours: bool,
    req: Request,
) -> bool {
    &&& start_request(step, vars, last, req)
    &&& match step.step_type {
        PromptStepType::Intro { text, style } => req matches Request::Intro { text: t } && t@
            == banner_text(text@, style, colours),
        PromptStepType::Outro { text, input, style, .. } => req matches Request::Outro { text: t }
            && t@ == banner_text(
            interpolate(text@, vars, outro_input(last, opt_view(input), vars)),
            style,
            colours,
        ),
        _ => true,
    }
}

/// Starts `step`: the request it makes and the stage that awaits the reply,
/// or the error of a choice with no items.
pub fn execute_prompt_step(step: &PromptStep, context: &Context, last_input: &Option<String>) -> (r:
    Result<(Request, Stage), PromptError>)
    ensures
        start_failure(*step) matches Some(m) ==> (r matches Err(e) && e.message@ == m),
        start_failure(*step) is None ==> (r matches Ok(rs) && start_request(
            *step,
            context@,
            opt_view(*last_input),
            rs.0,
        ) && start_stage(*step, context@, opt_view(*last_input), rs.1)),
{
    let colours = colours_enabled();
    start_step(step, context, last_input, colours)
}

/// Starts `step` with colours written or not as `colours` says: the request
/// it makes and the stage that awaits the reply, or the error of a choice
/// with no items.
pub fn start_step(step: &PromptStep, context: &Context, last_input: &Option<String>, colours: bool) -> (r:
    Result<(Request, Stage), PromptError>)
    ensures
        start_failure(*step) matches Some(m) ==> (r matches Err(e) && e.message@ == m),
        start_failure(*step) is None ==> (r matches Ok(rs) && start_request_in(
            *step,
            context@,
            opt_view(*last_input),
            colours,
            rs.0,
        ) && start_stage(*step, context@, opt_view(*last_input), rs.1)),
{
    match &step.step_type {
        PromptStepType::ClearScreen => Ok((Request::ClearScreen, Stage::Plain)),
        PromptStepType::Intro { text, style } => {
            let t = style_text(text.as_str(), style, colours);
            Ok((Request::Intro { text: t }, Stage::Plain))
        },
        PromptStepType::Confirm { prompt, output, default } => Ok(
            (
                Request::Confirm { prompt: prompt.clone(), default: *default },
                Stage::Confirm { output: copy_opt_string(output) },
            ),
        ),
        PromptStepType::Input { prompt, placeholder, validate, output } => {
            let validations = match validate {
                Some(v) => Some(input::copy_rules(v)),
                None => None,
            };
            let kept = match validate {
                Some(v) => Some(input::copy_rules(v)),
                None => None,
            };
            Ok(
                (
                    Request::Input {
                        prompt: prompt.clone(),
                        placeholder: copy_opt_string(placeholder),
                        validations,
                    },
                    Stage::Input { output: copy_opt_string(output), validations: kept },
                ),
            )
        },
        PromptStepType::Spinner { start_text, stop_text, run_fn, output } => {
            let task = execute_function_by_name(run_fn);
            let stage = match &task {
                Ok(t) => Stage::Store { key: copy_opt_string(output), value: task_output(*t) },
                Err(m) => Stage::Abort { message: m.clone() },
            };
            Ok(
                (
                    Request::Spinner { start_text: start_text.clone(), stop_text: stop_text.clone(), task },
                    stage,
                ),
            )
        },
        PromptStepType::Print { text, loglevel, input } => {
            let t = print_text(text, input, context);
            Ok((Request::Print { text: t, level: print_level(loglevel) }, Stage::Plain))
        },
        PromptStepType::Outro { text, input, output, style } => {
            let processed = outro_text(text, input, context, last_input);
            let styled = style_text(processed.as_str(), style, colours);
            Ok(
                (
                    Request::Outro { text: styled },
                    Stage::Store { key: copy_opt_string(output), value: processed },
                ),
            )
        },
        PromptStepType::MultiSelect { prompt, items, output, required } => {
            let req = match required {
                Some(b) => *b,
                None => false,
            };
            match items {
                MultiSelectItems::Static(v) => {
                    if v.len() == 0 {
                        return Err(crate::settings::error_with("No items available for multiselect"));
                    }
                    Ok(
                        (
                            Request::MultiSelect {
                                prompt: prompt.clone(),
                                items: copy_multi_items(v),
                                required: req,
                                initial_values: preselected_values(v),
                            },
                            Stage::MultiChoose { output: copy_opt_string(output) },
                        ),
                    )
                },
                MultiSelectItems::Variable(t) => {
                    let text = replace_variables(t.as_str(), context, last_input);
                    let kept = text.clone();
                    Ok(
                        (
                            Request::ReadMultiSelectItems { text },
                            Stage::MultiItems {
                                prompt: prompt.clone(),
                                output: copy_opt_string(output),
                                required: req,
                                text: kept,
                            },
                        ),
                    )
                },
            }
        },
        PromptStepType::Select { prompt, items, output, initial } => {
            match items {
                SelectItems::Static(v) => {
                    if v.len() == 0 {
                        return Err(crate::settings::error_with("No items available for select"));
                    }
                    let init = match initial {
                        Some(i) => Some(replace_variables(i.as_str(), context, last_input)),
                        None => None,
                    };
                    Ok(
                        (
                            Request::Select { prompt: prompt.clone(), items: copy_select_items(v), initial: init },
                            Stage::SelectChoose { items: copy_select_items(v), output: copy_opt_string(output) },
                        ),
                    )
                },
                SelectItems::Variable(t) => {
                    let text = replace_variables(t.as_str(), context, last_input);
                    let kept = text.clone();
                    Ok(
                        (
                            Request::ReadSelectItems { text },
                            Stage::SelectItems {
                                prompt: prompt.clone(),
                                output: copy_opt_string(output),
                                initial: copy_opt_string(initial),
                                text: kept,
                            },
                        ),
                    )
                },
            }
        },
        PromptStepType::Password { prompt, mask, validate, output, confirm_password, confirm_prompt } => {
            let validations = match validate {
                Some(v) => Some(password::copy_rules(v)),
                None => None,
            };
            let kept = match validate {
                Some(v) => Some(password::copy_rules(v)),
                None => None,
            };
            let confirm = match confirm_password {
                Some(true) => Some((password::confirm_prompt_text(confirm_prompt), *mask)),
                _ => None,
            };
            Ok(
                (
                    Request::Password { prompt: prompt.clone(), mask: *mask, validations },
                    Stage::PasswordEntry { output: copy_opt_string(output), validations: kept, confirm },
                ),
            )
        },
        PromptStepType::Progress { progress_type, start_message, stop_message, items, output } => {
            let work = progress_work(progress_type, items);
            Ok(
                (
                    Request::Progress {
                        progress_type: copy_progress_type(progress_type),
                        start_message: start_message.clone(),
                        stop_message: stop_message.clone(),
                        work,
                    },
                    Stage::Store { key: copy_opt_string(output), value: String::from_str("completed") },
                ),
            )
        },
        PromptStepType::MultiProgress { title, progress_bars, output } => {
            let plan = multi_progress_plan(progress_bars);
            Ok(
                (
                    Request::MultiProgress { title: title.clone(), plan },
                    Stage::Store { key: copy_opt_string(output), value: String::from_str("completed") },
                ),
            )
        },
    }
}

// ---------------------------------------------------------------------------
// Answering a request
// ---------------------------------------------------------------------------

/// `vars` with `value` stored under `key`, when a key is given.
pub open spec fn store_opt(
    vars: Seq<(Seq<char>, Seq<char>)>,
    key: Option<String>,
    value: Seq<char>,
) -> Seq<(Seq<char>, Seq<char>)> {
    match key {
        Some(k) => assoc_insert(vars, k@, value),
        None => vars,
    }
}

/// What a single choice stores: the value under `output` and as the last
/// input, when an output is given; nothing otherwise.
pub open spec fn select_store(
    vars: Seq<(Seq<char>, Seq<char>)>,
    last: Option<Seq<char>>,
    output: Option<String>,
    value: Seq<char>,
) -> (Seq<(Seq<char>, Seq<char>)>, Option<Seq<char>>) {
    match output {
        Some(k) => (assoc_insert(vars, k@, value), Some(value)),
        None => (vars, last),
    }
}

/// Whether `reply` answers what `stage` awaits.
pub open spec fn reply_fits(stage: Stage, reply: Reply) -> bool {
    match stage {
        Stage::Plain => reply is Done,
        Stage::Store { .. } => reply is Done,
        Stage::Abort { .. } => true,
        Stage::Confirm { .. } => reply is Confirmed,
        Stage::Input { .. } => reply is Text,
        Stage::MultiItems { .. } => reply is MultiSelectItemsRead,
        Stage::MultiChoose { .. } => reply is Chosen,
        Stage::SelectItems { .. } => reply is SelectItemsRead,
        Stage::SelectChoose { .. } => reply is ChosenOne,
        Stage::Nested { .. } => reply is NestedResult,
        Stage::PasswordEntry { .. } => reply is Text,
        Stage::PasswordConfirm { .. } => reply is Text,
    }
}

/// The message for a reply that does not answer the pending request.
pub open spec fn mismatch_message() -> Seq<char> {
    "reply does not answer the pending request"@
}

/// Whether `i` is the position of the first item whose value is `v`.
pub open spec fn is_first_with_value(items: Seq<SelectItem>, v: Seq<char>, i: int) -> bool {
    &&& 0 <= i < items.len()
    &&& items[i].value@ == v
    &&& forall|j: int| 0 <= j < i ==> #[trigger] items[j].value@ != v
}

/// The flow to run for choosing `v`: that of the first item whose value is
/// `v`, if it has one.
pub open spec fn nested_flow_for(items: Seq<SelectItem>, v: Seq<char>) -> Option<String> {
    if exists|i: int| is_first_with_value(items, v, i) {
        items[choose|i: int| is_first_with_value(items, v, i)].execute_yaml
    } else {
        None
    }
}

proof fn lemma_first_unique(items: Seq<SelectItem>, v: Seq<char>, i: int)
    requires
        is_first_with_value(items, v, i),
    ensures
        nested_flow_for(items, v) == items[i].execute_yaml,
{
    let k = choose|k: int| is_first_with_value(items, v, k);
    assert(is_first_with_value(items, v, k));
    if k < i {
        assert(items[k].value@ != v);
    } else if i < k {
        assert(items[i].value@ != v);
    }
}

/// The items offered after reading a multiple-choice item list.
pub open spec fn multi_items_read(p: ParsedMultiSelectItems, items: Seq<MultiSelectItem>) -> bool {
    match p {
        ParsedMultiSelectItems::Items(v) => items == v@,
        ParsedMultiSelectItems::Pairs(ps) => items.len() == ps@.len() && forall|i: int|
            0 <= i < ps@.len() ==> multi_item_from_pair(#[trigger] items[i], ps@[i]),
        ParsedMultiSelectItems::Unreadable => items.len() == 0,
    }
}

/// The items offered after reading a single-choice item list.
pub open spec fn select_items_read(p: ParsedSelectItems, items: Seq<SelectItem>) -> bool {
    match p {
        ParsedSelectItems::Items(v) => items == v@,
        ParsedSelectItems::Pairs(ps) => items.len() == ps@.len() && forall|i: int|
            0 <= i < ps@.len() ==> item_from_pair(#[trigger] items[i], ps@[i]),
        ParsedSelectItems::Unreadable => items.len() == 0,
    }
}

/// The number of items read as a list, if the text was one.
pub open spec fn opt_len<T>(o: Option<Vec<T>>) -> Option<nat> {
    match o {
        Some(v) => Some(v@.len()),
        None => None,
    }
}

/// Whether every description that reading the item list awaited in
/// `stage` would shorten can be shortened to a hint (else reading it fails,
/// as slicing a string inside a character fails).
pub open spec fn stage_hints_ok(stage: Stage, reply: Reply) -> bool {
    match stage {
        Stage::MultiItems { text, .. } => reply matches Reply::MultiSelectItemsRead(None)
            ==> text_hints_ok(text@),
        Stage::SelectItems { text, .. } => reply matches Reply::SelectItemsRead(None) ==> text_hints_ok(
            text@,
        ),
        _ => true,
    }
}

/// Whether `reply` can be handed to a run in state `s` without reading a
/// description that cannot be shortened to a hint.
pub open spec fn reply_hints_ok(s: RunState, reply: Reply) -> bool {
    s.phase matches Phase::Awaiting(stage) ==> stage_hints_ok(stage, reply)
}

/// The message of the first input rule a line breaks, when there are rules.
pub open spec fn line_verdict(rules: Option<Seq<input::Validation>>, line: Seq<char>) -> Option<Seq<char>> {
    match rules {
        Some(rs) => input::input_verdict(rs, line),
        None => None,
    }
}

/// The message of the first password rule a password breaks, when there
/// are rules.
pub open spec fn secret_verdict(
    rules: Option<Seq<password::Validation>>,
    pw: Seq<char>,
) -> Option<Seq<char>> {
    match rules {
        Some(rs) => password::password_verdict(rs, pw),
        None => None,
    }
}

/// The message for a repeated password that differs from the first.
pub open spec fn mismatch_password_message() -> Seq<char> {
    "Passwords do not match"@
}

/// What a reply does to the current step.
pub ghost enum Reaction {
    /// The step makes a further request.
    Continue,
    /// The step is over, with these variables and last input, and this outcome.
    Complete { vars: Seq<(Seq<char>, Seq<char>)>, last: Option<Seq<char>>, result: bool },
    /// The run ends with this message.
    Fail { message: Seq<char> },
}

/// What `reply` does in `stage`.
pub open spec fn reaction(
    stage: Stage,
    reply: Reply,
    vars: Seq<(Seq<char>, Seq<char>)>,
    last: Option<Seq<char>>,
) -> Reaction {
    if let Stage::Abort { message } = stage {
        Reaction::Fail { message: message@ }
    } else if !reply_fits(stage, reply) {
        Reaction::Fail { message: mismatch_message() }
    } else {
        match stage {
            Stage::Store { key, value } => Reaction::Complete {
                vars: store_opt(vars, key, value@),
                last,
                result: true,
            },
            Stage::Confirm { output } => match reply {
                Reply::Confirmed(b) => Reaction::Complete {
                    vars: store_opt(vars, output, bool_word(b)),
                    last,
                    result: b,
                },
                _ => Reaction::Fail { message: mismatch_message() },
            },
            Stage::Input { output, validations } => match reply {
                Reply::Text(v) => match line_verdict(opt_seq(validations), v@) {
                    Some(m) => Reaction::Fail { message: m },
                    None => Reaction::Complete {
                        vars: store_opt(vars, output, v@),
                        last: Some(v@),
                        result: true,
                    },
                },
                _ => Reaction::Fail { message: mismatch_message() },
            },
            Stage::MultiItems { text, .. } => match reply {
                Reply::MultiSelectItemsRead(typed) => if no_items_in(text@, opt_len(typed)) {
                    Reaction::Fail { message: no_items_message(true) }
                } else {
                    Reaction::Continue
                },
                _ => Reaction::Fail { message: mismatch_message() },
            },
            Stage::MultiChoose { output } => match reply {
                Reply::Chosen(vs) => Reaction::Complete {
                    vars: match output {
                        Some(k) => multi_select_outputs(vars, k@, vs@.map_values(|s: String| s@)),
                        None => vars,
                    },
                    last,
                    result: true,
                },
                _ => Reaction::Fail { message: mismatch_message() },
            },
            Stage::SelectItems { text, .. } => match reply {
                Reply::SelectItemsRead(typed) => if no_items_in(text@, opt_len(typed)) {
                    Reaction::Fail { message: no_items_message(false) }
                } else {
                    Reaction::Continue
                },
                _ => Reaction::Fail { message: mismatch_message() },
            },
            Stage::SelectChoose { items, output } => match reply {
                Reply::ChosenOne(v) => if nested_flow_for(items@, v@) is Some {
                    Reaction::Continue
                } else {
                    let st = select_store(vars, last, output, v@);
                    Reaction::Complete { vars: st.0, last: st.1, result: true }
                },
                _ => Reaction::Fail { message: mismatch_message() },
            },
            Stage::Nested { selected, output } => match reply {
                Reply::NestedResult(res) => {
                    let st = select_store(
                        assoc_extend(vars, res@),
                        last,
                        output,
                        nested_choice_value(selected@, res@),
                    );
                    Reaction::Complete { vars: st.0, last: st.1, result: true }
                },
                _ => Reaction::Fail { message: mismatch_message() },
            },
            Stage::PasswordEntry { output, validations, confirm } => match reply {
                Reply::Text(pw) => if let Some(m) = secret_verdict(opt_seq(validations), pw@) {
                    Reaction::Fail { message: m }
                } else if confirm is Some {
                    Reaction::Continue
                } else {
                    Reaction::Complete {
                        vars: store_opt(vars, output, pw@),
                        last: Some(pw@),
                        result: true,
                    }
                },
                _ => Reaction::Fail { message: mismatch_message() },
            },
            Stage::PasswordConfirm { output, first } => match reply {
                Reply::Text(again) => if again@ != first@ {
                    Reaction::Fail { message: mismatch_password_message() }
                } else {
                    Reaction::Complete {
                        vars: store_opt(vars, output, first@),
                        last: Some(first@),
                        result: true,
                    }
                },
                _ => Reaction::Fail { message: mismatch_message() },
            },
            _ => Reaction::Complete { vars, last, result: true },
        }
    }
}

/// The further request a step makes on `reply`, and the stage that then
/// awaits the answer (when the reaction is to continue).
pub open spec fn continues_with(
    stage: Stage,
    reply: Reply,
    vars: Seq<(Seq<char>, Seq<char>)>,
    last: Option<Seq<char>>,
    req: Request,
    next: Stage,
) -> bool {
    match stage {
        Stage::MultiItems { prompt, output, required, text } => match reply {
            Reply::MultiSelectItemsRead(typed) => req matches Request::MultiSelect {
                prompt: q,
                items: its,
                required: r,
                initial_values: iv,
            } && q == prompt && r == required && (exists|p: ParsedMultiSelectItems|
                #[trigger] multi_parse_of(text@, typed, p) && multi_items_read(p, its@))
                && string_views(iv@)
                == preselected(its@) && next
                == Stage::MultiChoose { output },
            _ => false,
        },
        Stage::SelectItems { prompt, output, initial, text } => match reply {
            Reply::SelectItemsRead(typed) => req matches Request::Select { prompt: q, items: its, initial: i }
                && q == prompt && (exists|p: ParsedSelectItems|
                #[trigger] select_parse_of(text@, typed, p) && select_items_read(p, its@)) && opt_view(i) == resolved_initial(
                initial,
                vars,
                last,
            ) && (next matches Stage::SelectChoose { items: its2, output: o } && its2@ == its@ && o
                == output),
            _ => false,
        },
        Stage::SelectChoose { items, output } => match reply {
            Reply::ChosenOne(v) => req matches Request::RunNested { prompt_name: y, variables: c }
                && nested_flow_for(items@, v@) == Some(y) && c@ == vars && next == Stage::Nested {
                selected: v,
                output,
            },
            _ => false,
        },
        Stage::PasswordEntry { output, confirm, .. } => match reply {
            Reply::Text(pw) => match confirm {
                Some(c) => req == Request::ConfirmPassword { prompt: c.0, mask: c.1, first: pw }
                    && next == Stage::PasswordConfirm { output, first: pw },
                None => false,
            },
            _ => false,
        },
        _ => false,
    }
}

/// What happens to the current step.
enum Outcome {
    Continue(Request, Stage),
    Complete(bool),
    Fail(String),
}

/// Applies `reply` to the step awaiting in `stage`.
fn react(stage: Stage, reply: Reply, context: &mut Context, last_input: &mut Option<String>) -> (out:
    Outcome)
    requires
        stage_hints_ok(stage, reply),
    ensures
        unique_keys(final(context)@),
        match reaction(stage, reply, old(context)@, opt_view(*old(last_input))) {
            Reaction::Continue => out matches Outcome::Continue(req, next) && continues_with(
                stage,
                reply,
                old(context)@,
                opt_view(*old(last_input)),
                req,
                next,
            ) && final(context)@ == old(context)@ && *final(last_input) == *old(last_input),
            Reaction::Complete { vars, last, result } => out == Outcome::Complete(result)
                && final(context)@ == vars && opt_view(*final(last_input)) == last,
            Reaction::Fail { message } => out matches Outcome::Fail(m) && m@ == message
                && final(context)@ == old(context)@ && *final(last_input) == *old(last_input),
        },
{
    proof {
        use_type_invariant(&*context);
    }
    let mismatch = String::from_str("reply does not answer the pending request");
    match stage {
        Stage::Abort { message } => Outcome::Fail(message),
        Stage::Plain => match reply {
            Reply::Done => Outcome::Complete(true),
            _ => Outcome::Fail(mismatch),
        },
        Stage::Store { key, value } => match reply {
            Reply::Done => {
                if let Some(k) = key {
                    context.insert(k, value);
                }
                Outcome::Complete(true)
            },
            _ => Outcome::Fail(mismatch),
        },
        Stage::Confirm { output } => match reply {
            Reply::Confirmed(b) => {
                if let Some(k) = output {
                    context.insert(k, bool_text(b));
                }
                Outcome::Complete(b)
            },
            _ => Outcome::Fail(mismatch),
        },
        Stage::Input { output, validations } => match reply {
            Reply::Text(v) => {
                if let Some(rules) = &validations {
                    if let Err(m) = input::validate_input(rules, &v) {
                        return Outcome::Fail(m);
                    }
                }
                *last_input = Some(v.clone());
                if let Some(k) = output {
                    context.insert(k, v);
                }
                Outcome::Complete(true)
            },
            _ => Outcome::Fail(mismatch),
        },
        Stage::MultiItems { prompt, output, required, text } => match reply {
            Reply::MultiSelectItemsRead(typed) => {
                let p = parse_multi_select_items(text.as_str(), typed);
                let ghost gp = p;
                proof {
                    if let ParsedMultiSelectItems::Pairs(ps) = gp {
                        lemma_pair_hints(ps@, text@);
                        lemma_pairs_map(pair_views(ps@));
                    }
                }
                let items = multi_select_items_from_parsed(p);
                assert(multi_parse_of(text@, typed, gp) && multi_items_read(gp, items@));
                if items.len() == 0 {
                    Outcome::Fail(String::from_str("No items available for multiselect"))
                } else {
                    let initial_values = preselected_values(&items);
                    Outcome::Continue(
                        Request::MultiSelect { prompt, items, required, initial_values },
                        Stage::MultiChoose { output },
                    )
                }
            },
            _ => Outcome::Fail(mismatch),
        },
        Stage::MultiChoose { output } => match reply {
            Reply::Chosen(vs) => {
                if let Some(k) = output {
                    store_multi_select(context, &k, &vs);
                }
                Outcome::Complete(true)
            },
            _ => Outcome::Fail(mismatch),
        },
        Stage::SelectItems { prompt, output, initial, text } => match reply {
            Reply::SelectItemsRead(typed) => {
                let p = parse_select_items(text.as_str(), typed);
                let ghost gp = p;
                proof {
                    if let ParsedSelectItems::Pairs(ps) = gp {
                        lemma_pair_hints(ps@, text@);
                        lemma_pairs_map(pair_views(ps@));
                    }
                }
                let items = select_items_from_parsed(p);
                assert(select_parse_of(text@, typed, gp) && select_items_read(gp, items@));
                if items.len() == 0 {
                    Outcome::Fail(String::from_str("No items available for select"))
                } else {
                    let init = match &initial {
                        Some(i) => Some(replace_variables(i.as_str(), context, last_input)),
                        None => None,
                    };
                    let kept = copy_select_items(&items);
                    Outcome::Continue(
                        Request::Select { prompt, items, initial: init },
                        Stage::SelectChoose { items: kept, output },
                    )
                }
            },
            _ => Outcome::Fail(mismatch),
        },
        Stage::SelectChoose { items, output } => match reply {
            Reply::ChosenOne(v) => {
                let found = find_selected(&items, &v);
                let flow = match found {
                    Some(i) => {
                        proof {
                            lemma_first_unique(items@, v@, i as int);
                        }
                        copy_opt_string(&items[i].execute_yaml)
                    },
                    None => None,
                };
                match flow {
                    Some(y) => Outcome::Continue(
                        Request::RunNested { prompt_name: y, variables: context.duplicate() },
                        Stage::Nested { selected: v, output },
                    ),
                    None => {
                        if let Some(k) = output {
                            context.insert(k, v.clone());
                            *last_input = Some(v);
                        }
                        Outcome::Complete(true)
                    },
                }
            },
            _ => Outcome::Fail(mismatch),
        },
        Stage::Nested { selected, output } => match reply {
            Reply::NestedResult(res) => {
                let value = nested_output_value(&selected, &res);
                context.extend(res);
                if let Some(k) = output {
                    context.insert(k, value.clone());
                    *last_input = Some(value);
                }
                Outcome::Complete(true)
            },
            _ => Outcome::Fail(mismatch),
        },
        Stage::PasswordEntry { output, validations, confirm } => match reply {
            Reply::Text(pw) => {
                if let Some(rules) = &validations {
                    if let Err(m) = password::validate_password(rules, &pw) {
                        return Outcome::Fail(m);
                    }
                }
                match confirm {
                Some(c) => {
                    let first = pw.clone();
                    Outcome::Continue(
                        Request::ConfirmPassword { prompt: c.0, mask: c.1, first: pw },
                        Stage::PasswordConfirm { output, first },
                    )
                },
                None => {
                    *last_input = Some(pw.clone());
                    if let Some(k) = output {
                        context.insert(k, pw);
                    }
                    Outcome::Complete(true)
                },
                }
            },
            _ => Outcome::Fail(mismatch),
        },
        Stage::PasswordConfirm { output, first } => match reply {
            Reply::Text(again) => {
                if let Err(m) = password::passwords_match(&first, &again) {
                    return Outcome::Fail(m);
                }
                *last_input = Some(first.clone());
                if let Some(k) = output {
                    context.insert(k, first);
                }
                Outcome::Complete(true)
            },
            _ => Outcome::Fail(mismatch),
        },
    }
}

// ---------------------------------------------------------------------------
// The run
// ---------------------------------------------------------------------------

/// The outcomes after a step named `name` ended with `result`.
pub open spec fn record(
    results: Seq<(Seq<char>, bool)>,
    name: Option<String>,
    result: bool,
) -> Seq<(Seq<char>, bool)> {
    match name {
        Some(n) => assoc_insert(results, n@, result),
        None => results,
    }
}

/// The run moves on from step `from` with these variables, outcomes and last
/// input: to the first step at or after `from` that runs, which is started,
/// or to the end of the run.
pub open spec fn proceeds(
    steps: Seq<PromptStep>,
    from: int,
    vars: Seq<(Seq<char>, Seq<char>)>,
    results: Seq<(Seq<char>, bool)>,
    last: Option<Seq<char>>,
    t: RunState,
    r: Result<Request, PromptError>,
) -> bool {
    let p = next_runnable(steps, results, from);
    &&& t.steps == steps
    &&& t.vars == vars
    &&& t.results == results
    &&& t.last_input == last
    &&& t.pos == p
    &&& if p >= steps.len() {
        t.phase is Finished && r matches Ok(Request::Finished)
    } else {
        match start_failure(steps[p]) {
            Some(m) => t.phase is Failed && (r matches Err(e) && e.message@ == m),
            None => r matches Ok(req) && (t.phase matches Phase::Awaiting(st) && start_request_in(
                steps[p],
                vars,
                last,
                t.colours,
                req,
            ) && start_stage(steps[p], vars, last, st)),
        }
    }
}

/// The run ends with the error `m`, all else unchanged.
pub open spec fn fails_with(s: RunState, t: RunState, r: Result<Request, PromptError>, m: Seq<char>) -> bool {
    &&& t == RunState { phase: Phase::Failed, ..s }
    &&& r matches Err(e) && e.message@ == m
}

/// The message for a reply after the run is over.
pub open spec fn over_message() -> Seq<char> {
    "the run is over"@
}

/// How a run in state `s` moves to state `t`, answering `r`, on `reply`.
pub open spec fn transition(s: RunState, reply: Reply, t: RunState, r: Result<Request, PromptError>) -> bool {
    match s.phase {
        Phase::NotStarted => if reply is Start {
            proceeds(s.steps, 0, s.vars, s.results, s.last_input, t, r)
        } else {
            fails_with(s, t, r, mismatch_message())
        },
        Phase::Awaiting(stage) => match reaction(stage, reply, s.vars, s.last_input) {
            Reaction::Continue => r matches Ok(req) && (t.phase matches Phase::Awaiting(next)
                && continues_with(stage, reply, s.vars, s.last_input, req, next)) && t == RunState {
                phase: t.phase,
                ..s
            },
            Reaction::Complete { vars, last, result } => proceeds(
                s.steps,
                s.pos + 1,
                vars,
                record(s.results, s.steps[s.pos].step_name, result),
                last,
                t,
                r,
            ),
            Reaction::Fail { message } => fails_with(s, t, r, message),
        },
        _ => t == s && (r matches Err(e) && e.message@ == over_message()),
    }
}

/// A run of a prompt flow.
pub struct PromptRun {
    steps: Vec<PromptStep>,
    pos: usize,
    context: Context,
    step_results: StepResults,
    last_input: Option<String>,
    phase: Phase,
    colours: bool,
}

impl View for PromptRun {
    type V = RunState;

    closed spec fn view(&self) -> RunState {
        RunState {
            steps: self.steps@,
            pos: self.pos as int,
            vars: self.context@,
            results: self.step_results@,
            last_input: opt_view(self.last_input),
            phase: self.phase,
            colours: self.colours,
        }
    }
}

impl PromptRun {
    /// The run's positions are consistent.
    pub closed spec fn wf(&self) -> bool {
        &&& self.pos <= self.steps@.len()
        &&& self.phase is Awaiting ==> self.pos < self.steps@.len()
    }

    /// The variables of the run.
    pub fn context(&self) -> (c: &Context)
        ensures
            c@ == self@.vars,
    {
        &self.context
    }

    /// The variables of the run, taking the run apart.
    pub fn into_context(self) -> (c: Context)
        ensures
            c@ == self@.vars,
    {
        self.context
    }

    /// Whether the run has ended without error.
    pub fn is_finished(&self) -> (b: bool)
        ensures
            b == (self@.phase is Finished),
    {
        match self.phase {
            Phase::Finished => true,
            _ => false,
        }
    }

    /// Moves to the first step at or after `from` that runs and starts it.
    fn proceed(&mut self, from: usize) -> (r: Result<Request, PromptError>)
        requires
            from <= old(self).steps@.len(),
        ensures
            final(self).wf(),
            proceeds(
                old(self)@.steps,
                from as int,
                old(self)@.vars,
                old(self)@.results,
                old(self)@.last_input,
                final(self)@,
                r,
            ),
    {
        let ghost steps = self.steps@;
        let ghost results = self.step_results@;
        let mut p = from;
        while p < self.steps.len()
            invariant_except_break
                from <= p <= steps.len(),
                steps == self.steps@,
                results == self.step_results@,
                next_runnable(steps, results, from as int) == next_runnable(steps, results, p as int),
            ensures
                from <= p <= steps.len(),
                steps == self.steps@,
                results == self.step_results@,
                next_runnable(steps, results, from as int) == p,
            decreases steps.len() - p,
        {
            if should_execute_step(&self.steps[p], &self.step_results) {
                break;
            }
            p = p + 1;
        }
        self.pos = p;
        if p == self.steps.len() {
            self.phase = Phase::Finished;
            return Ok(Request::Finished);
        }
        let colours = colours_enabled();
        self.colours = colours;
        match start_step(&self.steps[p], &self.context, &self.last_input, colours) {
            Ok((req, stage)) => {
                self.phase = Phase::Awaiting(stage);
                Ok(req)
            },
            Err(e) => {
                self.phase = Phase::Failed;
                Err(e)
            },
        }
    }

    /// Whether `reply` can be handed to the run: no description that
    /// reading the awaited item list would shorten falls inside a character
    /// at its 47th byte.
    pub fn hints_fit(&self, reply: &Reply) -> (b: bool)
        ensures
            b == reply_hints_ok(self@, *reply),
    {
        match &self.phase {
            Phase::Awaiting(Stage::MultiItems { text, .. }) => match reply {
                Reply::MultiSelectItemsRead(None) => text_hints_fit(text.as_str()),
                _ => true,
            },
            Phase::Awaiting(Stage::SelectItems { text, .. }) => match reply {
                Reply::SelectItemsRead(None) => text_hints_fit(text.as_str()),
                _ => true,
            },
            _ => true,
        }
    }

    /// Hands `reply` to the run as `advance` does, when it can be handed
    /// over (`hints_fit`); otherwise leaves the run as it is and gives
    /// `None`.
    pub fn advance_checked(&mut self, reply: Reply) -> (r: Option<Result<Request, PromptError>>)
        requires
            old(self).wf(),
        ensures
            final(self).wf(),
            r is None <==> !reply_hints_ok(old(self)@, reply),
            r is None ==> final(self)@ == old(self)@,
            r matches Some(x) ==> transition(old(self)@, reply, final(self)@, x),
    {
        if self.hints_fit(&reply) {
            Some(self.advance(reply))
        } else {
            None
        }
    }

    /// Hands `reply` to the run and returns what it asks next: the first
    /// request after `Reply::Start`, then one request per reply, until
    /// `Request::Finished` or an error.
    pub fn advance(&mut self, reply: Reply) -> (r: Result<Request, PromptError>)
        requires
            old(self).wf(),
            reply_hints_ok(old(self)@, reply),
        ensures
            final(self).wf(),
            transition(old(self)@, reply, final(self)@, r),
    {
        let mut phase = Phase::Failed;
        std::mem::swap(&mut phase, &mut self.phase);
        match phase {
            Phase::NotStarted => {
                match reply {
                    Reply::Start => self.proceed(0),
                    _ => Err(crate::settings::error_with("reply does not answer the pending request")),
                }
            },
            Phase::Awaiting(stage) => {
                let ghost st = stage;
                let out = react(stage, reply, &mut self.context, &mut self.last_input);
                match out {
                    Outcome::Continue(req, next) => {
                        self.phase = Phase::Awaiting(next);
                        Ok(req)
                    },
                    Outcome::Complete(result) => {
                        if let Some(n) = &self.steps[self.pos].step_name {
                            self.step_results.insert(n.clone(), result);
                        }
                        let n = self.steps.len();
                        assert(self.pos < n);
                        let from = self.pos + 1;
                        self.proceed(from)
                    },
                    Outcome::Fail(m) => Err(PromptError { message: m }),
                }
            },
            Phase::Finished => {
                self.phase = Phase::Finished;
                Err(crate::settings::error_with("the run is over"))
            },
            Phase::Failed => Err(crate::settings::error_with("the run is over")),
        }
    }
}

/// A run of `steps`, starting with the given variables.
pub fn create_prompt_with_vars_custom(steps: Vec<PromptStep>, external_vars: Option<Context>) -> (run:
    PromptRun)
    ensures
        run.wf(),
        run@.steps == steps@,
        run@.pos == 0,
        run@.vars == (match external_vars {
            Some(v) => assoc_extend(Seq::empty(), v@),
            None => Seq::empty(),
        }),
        run@.results == Seq::<(Seq<char>, bool)>::empty(),
        run@.last_input is None,
        run@.phase is NotStarted,
{
    let mut context = Context::new();
    if let Some(vars) = external_vars {
        context.extend(vars);
    }
    PromptRun {
        steps,
        pos: 0,
        context,
        step_results: StepResults::new(),
        last_input: None,
        phase: Phase::NotStarted,
        colours: false,
    }
}

} // verus!
