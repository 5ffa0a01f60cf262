use git_message::schema::{has_distinct_keys, resolve_steps, BranchTable, StepDefinition, StepKind};
use git_message::selection::OptionEntry;

#[test]
fn step_definition_holds_its_parts() {
    let s = StepDefinition::new("type", "Kind of change:", StepKind::Select);
    assert_eq!(s.key, "type");
    assert_eq!(s.prompt, "Kind of change:");
    assert_eq!(s.kind, StepKind::Select);
}

#[test]
fn distinct_keys_are_accepted() {
    let steps = vec![
        StepDefinition::new("id", "p", StepKind::FreeText),
        StepDefinition::new("type", "p", StepKind::Select),
        StepDefinition::new("scope", "p", StepKind::FreeText),
    ];
    assert!(has_distinct_keys(&steps));
    assert!(has_distinct_keys(&vec![]));
}

#[test]
fn repeated_key_is_found() {
    let steps = vec![
        StepDefinition::new("id", "a", StepKind::FreeText),
        StepDefinition::new("type", "b", StepKind::Select),
        StepDefinition::new("id", "c", StepKind::Select),
    ];
    assert!(!has_distinct_keys(&steps));
}

#[test]
fn empty_table_has_no_key() {
    let t = BranchTable::new();
    assert!(t.get(&"type".to_string()).is_none());
}

#[test]
fn get_returns_what_was_inserted() {
    let mut t = BranchTable::new();
    t.insert("type".to_string(), vec![OptionEntry::new("F", "feat"), OptionEntry::new("X", "fix")]);
    t.insert("scope".to_string(), vec![]);
    let found = t.get(&"type".to_string()).unwrap();
    assert_eq!(found.len(), 2);
    assert_eq!(found[0].value, "feat");
    assert_eq!(found[1].label, "X");
    assert_eq!(t.get(&"scope".to_string()).unwrap().len(), 0);
    assert!(t.get(&"other".to_string()).is_none());
}

#[test]
fn insert_replaces_an_earlier_branch() {
    let mut t = BranchTable::new();
    t.insert("type".to_string(), vec![OptionEntry::new("F", "feat")]);
    t.insert("type".to_string(), vec![OptionEntry::new("D", "docs"), OptionEntry::new("X", "fix")]);
    let found = t.get(&"type".to_string()).unwrap();
    assert_eq!(found.len(), 2);
    assert_eq!(found[0].value, "docs");
}

#[test]
fn resolve_steps_declares_selection_where_a_branch_exists() {
    let mut t = BranchTable::new();
    t.insert("type".to_string(), vec![OptionEntry::new("F", "feat")]);
    t.insert("scope".to_string(), vec![]);
    let questions = vec![
        ("Task id:".to_string(), "id".to_string()),
        ("Kind:".to_string(), "type".to_string()),
        ("Scope:".to_string(), "scope".to_string()),
    ];
    let steps = resolve_steps(&questions, &t);
    assert_eq!(steps.len(), 3);
    assert_eq!(steps[0].key, "id");
    assert_eq!(steps[0].prompt, "Task id:");
    assert_eq!(steps[0].kind, StepKind::FreeText);
    assert_eq!(steps[1].key, "type");
    assert_eq!(steps[1].prompt, "Kind:");
    assert_eq!(steps[1].kind, StepKind::Select);
    assert_eq!(steps[2].key, "scope");
    assert_eq!(steps[2].kind, StepKind::Select);
}
