//! Where prompt flows are found: the application root and the folder of
//! prompt files, each set once.

use vstd::prelude::*;
use crate::text::{chars_of, string_of};
use crate::PromptError;

verus! {

/// The configured application root and prompt folder.
pub struct PromptSettings {
    pub app_root: Option<String>,
    pub prompt_folder: Option<String>,
}

impl PromptSettings {
    /// Nothing configured.
    pub fn new() -> (s: PromptSettings)
        ensures
            s.app_root is None,
            s.prompt_folder is None,
    {
        PromptSettings { app_root: None, prompt_folder: None }
    }
}

/// An error with the given message.
pub fn error_with(message: &str) -> (e: PromptError)
    ensures
        e.message@ == message@,
{
    PromptError { message: String::from_str(message) }
}

/// Sets the application root; refused once it is set.
pub fn set_app_root(settings: &mut PromptSettings, path: String) -> (r: Result<(), PromptError>)
    ensures
        old(settings).app_root is None ==> r is Ok && final(settings).app_root == Some(path)
            && final(settings).prompt_folder == old(settings).prompt_folder,
        old(settings).app_root is Some ==> (r matches Err(e) && e.message@ == "App root already set"@
            && *final(settings) == *old(settings)),
{
    if settings.app_root.is_none() {
        settings.app_root = Some(path);
        Ok(())
    } else {
        Err(error_with("App root already set"))
    }
}

/// The application root, if set.
pub fn get_app_root(settings: &PromptSettings) -> (r: Option<String>)
    ensures
        r == settings.app_root,
{
    match &settings.app_root {
        Some(p) => Some(p.clone()),
        None => None,
    }
}

/// Sets the prompt folder to the already resolved `full_path`; refused once
/// it is set.
pub fn set_prompt_folder(settings: &mut PromptSettings, full_path: String) -> (r: Result<(), PromptError>)
    ensures
        old(settings).prompt_folder is None ==> r is Ok && final(settings).prompt_folder == Some(full_path)
            && final(settings).app_root == old(settings).app_root,
        old(settings).prompt_folder is Some ==> (r matches Err(e) && e.message@
            == "Prompt folder already set"@ && *final(settings) == *old(settings)),
{
    if settings.prompt_folder.is_none() {
        settings.prompt_folder = Some(full_path);
        Ok(())
    } else {
        Err(error_with("Prompt folder already set"))
    }
}

/// The prompt folder, if set.
pub fn get_prompt_folder(settings: &PromptSettings) -> (r: Option<String>)
    ensures
        r == settings.prompt_folder,
{
    match &settings.prompt_folder {
        Some(p) => Some(p.clone()),
        None => None,
    }
}

/// What a prompt folder path is taken relative to.
pub enum FolderBase {
    /// The path is used as it is.
    AsGiven,
    /// The path is joined to this application root.
    AppRoot(String),
    /// The path is joined to the working directory.
    CurrentDir,
}

/// Whether `c` occurs in `s`.
pub fn contains_char(s: &str, c: char) -> (b: bool)
    ensures
        b == s@.contains(c),
{
    let cs = chars_of(s);
    let mut i: usize = 0;
    while i < cs.len()
        invariant
            cs@ == s@,
            i <= cs.len(),
            forall|j: int| 0 <= j < i ==> cs@[j] != c,
        decreases cs.len() - i,
    {
        if cs[i] == c {
            return true;
        }
        i = i + 1;
    }
    false
}

/// What the prompt folder `path` is relative to: an absolute path, or one
/// whose text holds `:`, is used as it is; otherwise it lies under the
/// application root when one is set, else under the working directory.
pub fn prompt_folder_base(settings: &PromptSettings, path: &str, path_is_absolute: bool) -> (b: FolderBase)
    ensures
        (path_is_absolute || path@.contains(':')) ==> b is AsGiven,
        !(path_is_absolute || path@.contains(':')) ==> match settings.app_root {
            Some(root) => b matches FolderBase::AppRoot(r) && r == root,
            None => b is CurrentDir,
        },
{
    if path_is_absolute || contains_char(path, ':') {
        FolderBase::AsGiven
    } else {
        match &settings.app_root {
            Some(root) => FolderBase::AppRoot(root.clone()),
            None => FolderBase::CurrentDir,
        }
    }
}

/// The file name of a prompt flow: its name followed by `.yaml`.
pub open spec fn yaml_file_name(prompt_name: Seq<char>) -> Seq<char> {
    prompt_name + ".yaml"@
}

/// The message for a prompt file that is not in the configured folder.
pub open spec fn not_found_in_folder(prompt_name: Seq<char>, folder: Seq<char>) -> Seq<char> {
    "Prompt file '"@ + prompt_name + "' not found in configured prompt folder: "@ + folder
}

/// The message for a prompt file looked for with no folder configured.
pub open spec fn not_found_no_folder(prompt_name: Seq<char>) -> Seq<char> {
    "Prompt file '"@ + prompt_name + "' not found and no external prompt folder is configured"@
}

/// Where the prompt file of `prompt_name` is looked for: the configured
/// folder and the file name in it; an error when no folder is configured.
pub fn yaml_location(settings: &PromptSettings, prompt_name: &str) -> (r: Result<(String, String), PromptError>)
    ensures
        settings.prompt_folder matches Some(f) ==> (r matches Ok(loc) && loc.0 == f && loc.1@
            == yaml_file_name(prompt_name@)),
        settings.prompt_folder is None ==> (r matches Err(e) && e.message@ == not_found_no_folder(
            prompt_name@,
        )),
{
    match &settings.prompt_folder {
        Some(folder) => {
            let mut name = String::from_str(prompt_name);
            name.append(".yaml");
            Ok((folder.clone(), name))
        },
        None => {
            let mut m = String::from_str("Prompt file '");
            m.append(prompt_name);
            m.append("' not found and no external prompt folder is configured");
            Err(PromptError { message: m })
        },
    }
}

/// The error for a prompt file missing from the configured folder, shown as
/// `folder_display`.
pub fn prompt_file_missing(prompt_name: &str, folder_display: &str) -> (e: PromptError)
    ensures
        e.message@ == not_found_in_folder(prompt_name@, folder_display@),
{
    let mut m = String::from_str("Prompt file '");
    m.append(prompt_name);
    m.append("' not found in configured prompt folder: ");
    m.append(folder_display);
    PromptError { message: m }
}

} // verus!
