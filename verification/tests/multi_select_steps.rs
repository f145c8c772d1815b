use cliclack_yaml::{MultiSelectItem, MultiSelectItems, PromptStep, PromptStepType};

#[test]
fn test_multi_select_step_creation() {
    let items = vec![
        MultiSelectItem {
            value: "eslint".to_string(),
            label: "ESLint".to_string(),
            hint: Some("JavaScript linter".to_string()),
            is_selected: None,
        },
        MultiSelectItem {
            value: "prettier".to_string(),
            label: "Prettier".to_string(),
            hint: Some("Code formatter".to_string()),
            is_selected: None,
        },
        MultiSelectItem {
            value: "jest".to_string(),
            label: "Jest".to_string(),
            hint: None,
            is_selected: None,
        },
    ];

    let step = PromptStep {
        step_type: PromptStepType::MultiSelect {
            prompt: "Select tools:".to_string(),
            items: MultiSelectItems::Static(items.clone()),
            output: Some("selected_tools".to_string()),
            required: Some(true),
        },
        output: None,
        step_name: None,
        condition: None,
    };

    match &step.step_type {
        PromptStepType::MultiSelect { prompt, items, output, required } => {
            assert_eq!(prompt, "Select tools:");
            match items {
                MultiSelectItems::Static(static_items) => {
                    assert_eq!(static_items.len(), 3);
                    assert_eq!(static_items[0].value, "eslint");
                    assert_eq!(static_items[0].label, "ESLint");
                    assert_eq!(static_items[0].hint, Some("JavaScript linter".to_string()));
                }
                _ => panic!("Expected Static items"),
            }
            assert_eq!(output, &Some("selected_tools".to_string()));
            assert_eq!(required, &Some(true));
        }
        _ => panic!("Expected MultiSelect step type"),
    }
}

#[test]
fn test_multi_select_context_storage() {
    // The storing of a multiple choice is checked in `run_flows.rs`.
}
