//! Settings kept apart for tests, with a reset.

use vstd::prelude::*;
use crate::settings::PromptSettings;

verus! {

/// Clears both settings.
pub fn setup_test(settings: &mut PromptSettings)
    ensures
        final(settings).app_root is None,
        final(settings).prompt_folder is None,
{
    settings.app_root = None;
    settings.prompt_folder = None;
}

/// The test application root, if set.
pub fn get_test_app_root(settings: &PromptSettings) -> (r: Option<String>)
    ensures
        r == settings.app_root,
{
    match &settings.app_root {
        Some(p) => Some(p.clone()),
        None => None,
    }
}

/// The test prompt folder, if set.
pub fn get_test_prompt_folder(settings: &PromptSettings) -> (r: Option<String>)
    ensures
        r == settings.prompt_folder,
{
    match &settings.prompt_folder {
        Some(p) => Some(p.clone()),
        None => None,
    }
}

/// Sets the test application root; `None` when it is already set.
pub fn set_test_app_root(settings: &mut PromptSettings, path: String) -> (r: Option<()>)
    ensures
        old(settings).app_root is None ==> r is Some && final(settings).app_root == Some(path)
            && final(settings).prompt_folder == old(settings).prompt_folder,
        old(settings).app_root is Some ==> r is None && *final(settings) == *old(settings),
{
    if settings.app_root.is_none() {
        settings.app_root = Some(path);
        Some(())
    } else {
        None
    }
}

/// Sets the test prompt folder; `None` when it is already set.
pub fn set_test_prompt_folder(settings: &mut PromptSettings, path: String) -> (r: Option<()>)
    ensures
        old(settings).prompt_folder is None ==> r is Some && final(settings).prompt_folder == Some(path)
            && final(settings).app_root == old(settings).app_root,
        old(settings).prompt_folder is Some ==> r is None && *final(settings) == *old(settings),
{
    if settings.prompt_folder.is_none() {
        settings.prompt_folder = Some(path);
        Some(())
    } else {
        None
    }
}

} // verus!
