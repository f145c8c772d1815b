use cliclack_yaml::{PromptStep, PromptStepType, SelectItem, SelectItems};

#[test]
fn test_select_step_creation() {
    let items = vec![
        SelectItem {
            value: "react".to_string(),
            label: "React".to_string(),
            hint: Some("JavaScript library".to_string()),
            execute_yaml: None,
        },
        SelectItem {
            value: "vue".to_string(),
            label: "Vue.js".to_string(),
            hint: Some("Progressive framework".to_string()),
            execute_yaml: None,
        },
        SelectItem {
            value: "angular".to_string(),
            label: "Angular".to_string(),
            hint: None,
            execute_yaml: None,
        },
    ];

    let step = PromptStep {
        step_type: PromptStepType::Select {
            prompt: "Choose a framework:".to_string(),
            items: SelectItems::Static(items.clone()),
            output: Some("selected_framework".to_string()),
            initial: Some("react".to_string()),
        },
        output: None,
        step_name: None,
        condition: None,
    };

    match &step.step_type {
        PromptStepType::Select { prompt, items, output, initial } => {
            assert_eq!(prompt, "Choose a framework:");
            match items {
                SelectItems::Static(static_items) => {
                    assert_eq!(static_items.len(), 3);
                    assert_eq!(static_items[0].value, "react");
                    assert_eq!(static_items[0].label, "React");
                    assert_eq!(static_items[0].hint, Some("JavaScript library".to_string()));
                }
                _ => panic!("Expected Static items"),
            }
            assert_eq!(output, &Some("selected_framework".to_string()));
            assert_eq!(initial, &Some("react".to_string()));
        }
        _ => panic!("Expected Select step type"),
    }
}
