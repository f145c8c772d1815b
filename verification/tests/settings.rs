use cliclack_yaml::settings::{
    prompt_file_missing, prompt_folder_base, yaml_location, FolderBase,
};
use cliclack_yaml::test_utils::{
    get_test_app_root, get_test_prompt_folder, set_test_app_root, set_test_prompt_folder,
    setup_test,
};
use cliclack_yaml::{get_app_root, get_prompt_folder, set_app_root, set_prompt_folder, PromptSettings};

#[test]
fn test_get_paths() {
    let settings = PromptSettings::new();
    assert_eq!(get_app_root(&settings), None, "App root should be None initially");
    assert_eq!(
        get_prompt_folder(&settings),
        None,
        "Prompt folder should be None initially"
    );
}

#[test]
fn test_set_prompt_folder() {
    let mut settings = PromptSettings::new();
    set_app_root(&mut settings, "/work".to_string()).unwrap();

    let test_path = "test_prompts";
    let full = match prompt_folder_base(&settings, test_path, false) {
        FolderBase::AppRoot(root) => format!("{}/{}", root, test_path),
        _ => panic!("relative folder should lie under the app root"),
    };
    assert!(
        set_prompt_folder(&mut settings, full.clone()).is_ok(),
        "Should be able to set prompt folder"
    );
    assert!(
        set_prompt_folder(&mut settings, full).is_err(),
        "Should not be able to set prompt folder twice"
    );
}

#[test]
fn test_cliclack_yaml_initialization() {
    let mut settings = PromptSettings::new();
    let current_dir = "/home/user/project".to_string();
    set_app_root(&mut settings, current_dir.clone()).unwrap();
    let prompt_folder = "tests/steps";
    let full = match prompt_folder_base(&settings, prompt_folder, false) {
        FolderBase::AppRoot(root) => format!("{}/{}", root, prompt_folder),
        _ => panic!("relative folder should lie under the app root"),
    };
    set_prompt_folder(&mut settings, full).unwrap();
    assert_eq!(get_app_root(&settings), Some(current_dir.clone()), "APP_ROOT was not set to current directory");
    assert_eq!(
        get_prompt_folder(&settings),
        Some(format!("{}/{}", current_dir, prompt_folder)),
        "PROMPT_FOLDER was not set correctly"
    );
}

#[test]
fn app_root_set_twice_is_refused() {
    let mut settings = PromptSettings::new();
    assert!(set_app_root(&mut settings, "/a".to_string()).is_ok());
    let err = set_app_root(&mut settings, "/b".to_string()).unwrap_err();
    assert_eq!(err.message, "App root already set");
    assert_eq!(get_app_root(&settings), Some("/a".to_string()));
}

#[test]
fn prompt_folder_set_twice_is_refused() {
    let mut settings = PromptSettings::new();
    assert!(set_prompt_folder(&mut settings, "/p".to_string()).is_ok());
    let err = set_prompt_folder(&mut settings, "/q".to_string()).unwrap_err();
    assert_eq!(err.message, "Prompt folder already set");
    assert_eq!(get_prompt_folder(&settings), Some("/p".to_string()));
}

#[test]
fn folder_bases() {
    let mut settings = PromptSettings::new();
    assert!(matches!(prompt_folder_base(&settings, "/abs/path", true), FolderBase::AsGiven));
    assert!(matches!(prompt_folder_base(&settings, "C:prompts", false), FolderBase::AsGiven));
    assert!(matches!(prompt_folder_base(&settings, "prompts", false), FolderBase::CurrentDir));
    set_app_root(&mut settings, "/root".to_string()).unwrap();
    match prompt_folder_base(&settings, "prompts", false) {
        FolderBase::AppRoot(r) => assert_eq!(r, "/root"),
        _ => panic!("expected the app root"),
    }
}

#[test]
fn yaml_locations_and_messages() {
    let mut settings = PromptSettings::new();
    let err = yaml_location(&settings, "auth/login").unwrap_err();
    assert_eq!(
        err.message,
        "Prompt file 'auth/login' not found and no external prompt folder is configured"
    );
    set_prompt_folder(&mut settings, "/prompts".to_string()).unwrap();
    let (folder, file) = yaml_location(&settings, "auth/login").unwrap();
    assert_eq!(folder, "/prompts");
    assert_eq!(file, "auth/login.yaml");
    let missing = prompt_file_missing("greeting", "/prompts");
    assert_eq!(
        missing.message,
        "Prompt file 'greeting' not found in configured prompt folder: /prompts"
    );
}

#[test]
fn test_settings_reset_and_set_once() {
    let mut settings = PromptSettings::new();
    assert_eq!(set_test_app_root(&mut settings, "/t".to_string()), Some(()));
    assert_eq!(set_test_app_root(&mut settings, "/u".to_string()), None);
    assert_eq!(set_test_prompt_folder(&mut settings, "/f".to_string()), Some(()));
    assert_eq!(set_test_prompt_folder(&mut settings, "/g".to_string()), None);
    assert_eq!(get_test_app_root(&settings), Some("/t".to_string()));
    assert_eq!(get_test_prompt_folder(&settings), Some("/f".to_string()));
    setup_test(&mut settings);
    assert_eq!(get_test_app_root(&settings), None);
    assert_eq!(get_test_prompt_folder(&settings), None);
}
