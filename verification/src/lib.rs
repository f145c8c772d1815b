//! Interactive command-line prompt flows described as data: steps, variable
//! interpolation, conditional execution and the bookkeeping of the values that
//! the steps produce.
//!
//! The library decides; the program around it asks the user and shows text.
//! A run of a flow is a [`engine::PromptRun`]: it hands out one
//! [`engine::Request`] at a time and takes back the user's [`engine::Reply`].

pub mod context;
pub mod engine;
pub mod laws;
pub mod settings;
pub mod steps;
pub mod style;
pub mod test_utils;
pub mod text;
pub mod variables;

pub use context::{Context, StepResults};
pub use engine::{
    create_prompt_with_vars_custom, execute_prompt_step, should_execute_step, PromptRun, Reply,
    Request,
};
pub use settings::{get_app_root, get_prompt_folder, set_app_root, set_prompt_folder, PromptSettings};
pub use steps::input::Validation;
pub use steps::multi_select::{MultiSelectItem, MultiSelectItems};
pub use steps::select::{SelectItem, SelectItems};
pub use style::apply_text_style;
pub use variables::{handle_output, inject_external_variables, replace_variables};

use vstd::prelude::*;

verus! {

/// One kind of step of a prompt flow, with its parameters.
#[derive(Debug, Clone)]
#[allow(inconsistent_fields)]
pub enum PromptStepType {
    /// Clears the terminal.
    ClearScreen,
    /// An opening banner.
    Intro { text: String, style: Option<TextStyle> },
    /// A yes/no question.
    Confirm { prompt: String, output: Option<String>, default: Option<bool> },
    /// A line of text typed by the user.
    Input {
        prompt: String,
        placeholder: Option<String>,
        validate: Option<Vec<steps::input::Validation>>,
        output: Option<String>,
    },
    /// A spinner shown while a named task runs.
    Spinner { start_text: String, stop_text: String, run_fn: String, output: Option<String> },
    /// A message inside the frame.
    Print { text: String, loglevel: Option<String>, input: Option<String> },
    /// A closing banner.
    Outro {
        text: String,
        input: Option<String>,
        output: Option<String>,
        style: Option<TextStyle>,
    },
    /// A choice of several items.
    MultiSelect {
        prompt: String,
        items: steps::multi_select::MultiSelectItems,
        output: Option<String>,
        required: Option<bool>,
    },
    /// A choice of one item.
    Select {
        prompt: String,
        items: steps::select::SelectItems,
        output: Option<String>,
        initial: Option<String>,
    },
    /// A hidden line of text, optionally typed twice.
    Password {
        prompt: String,
        mask: Option<char>,
        validate: Option<Vec<steps::password::Validation>>,
        output: Option<String>,
        confirm_password: Option<bool>,
        confirm_prompt: Option<String>,
    },
    /// A progress bar or spinner driven by a list of items.
    Progress {
        progress_type: steps::progress::ProgressType,
        start_message: String,
        stop_message: String,
        items: Option<Vec<steps::progress::ProgressItem>>,
        output: Option<String>,
    },
    /// Several progress indicators shown together.
    MultiProgress {
        title: String,
        progress_bars: Vec<steps::progress::ProgressBarConfig>,
        output: Option<String>,
    },
}

/// A step runs only when the outcome recorded under `parent` equals `value`.
#[derive(Debug, Clone)]
pub struct Condition {
    pub parent: String,
    pub value: bool,
}

/// A step of a prompt flow.
#[derive(Debug, Clone)]
pub struct PromptStep {
    pub step_type: PromptStepType,
    pub output: Option<String>,
    pub step_name: Option<String>,
    pub condition: Option<Condition>,
}

/// A value to store: `value` names a variable, or is the text itself.
#[derive(Debug, Clone)]
pub struct OutputValue {
    pub name: String,
    pub value: String,
}

/// Colours of a banner.
#[derive(Debug, Clone)]
pub struct TextStyle {
    pub color: Option<String>,
    pub background: Option<String>,
}

/// An error of the library, with its message.
#[derive(Debug, Clone)]
pub struct PromptError {
    pub message: String,
}

} // verus!
