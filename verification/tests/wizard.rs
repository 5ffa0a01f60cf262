use git_message::schema::{BranchTable, StepDefinition, StepKind};
use git_message::selection::OptionEntry;
use git_message::wizard::{assemble, Answer, Event, Mode, Outcome, State, Wizard, WizardError};

fn four_steps() -> Vec<StepDefinition> {
    vec![
        StepDefinition::new("id", "Task id:", StepKind::FreeText),
        StepDefinition::new("type", "Kind of change:", StepKind::Select),
        StepDefinition::new("scope", "Scope:", StepKind::FreeText),
        StepDefinition::new("subject", "Summary:", StepKind::FreeText),
    ]
}

fn type_branch() -> BranchTable {
    let mut table = BranchTable::new();
    table.insert(
        "type".to_string(),
        vec![OptionEntry::new("feat: A new feature", "feat"), OptionEntry::new("fix: A bug fix", "fix")],
    );
    table
}

fn type_text(w: &mut Wizard, text: &str) {
    for c in text.chars() {
        assert_eq!(w.handle_event(Event::Char(c)), Ok(Outcome::Continue));
    }
}

fn pairs(w: &Wizard) -> Vec<(String, String)> {
    w.answers().iter().map(|a| (a.key.clone(), a.value.clone())).collect()
}

#[test]
fn empty_schema_is_refused() {
    let made = Wizard::new(vec![], BranchTable::new());
    assert_eq!(made.err(), Some(WizardError::EmptySchema));
}

#[test]
fn duplicate_key_is_refused() {
    let steps = vec![
        StepDefinition::new("id", "a", StepKind::FreeText),
        StepDefinition::new("id", "b", StepKind::FreeText),
    ];
    let made = Wizard::new(steps, BranchTable::new());
    assert_eq!(made.err(), Some(WizardError::DuplicateKey));
}

#[test]
fn starts_in_text_mode_without_branch() {
    let w = Wizard::new(four_steps(), type_branch()).unwrap();
    assert_eq!(w.state(), State::Active(Mode::Text));
    assert_eq!(w.cursor_step(), 0);
    assert_eq!(w.total_steps(), 4);
    assert_eq!(w.prompt().map(|p| p.as_str()), Some("Task id:"));
    assert!(w.answers().is_empty());
    assert_eq!(w.text().as_str(), "");
    assert_eq!(w.selection().len(), 0);
    assert_eq!(w.selection().selected(), None);
    assert_eq!(w.message(), None);
}

#[test]
fn starts_in_select_mode_when_first_step_has_a_branch() {
    let steps = vec![
        StepDefinition::new("type", "Kind of change:", StepKind::Select),
        StepDefinition::new("id", "Task id:", StepKind::FreeText),
    ];
    let w = Wizard::new(steps, type_branch()).unwrap();
    assert_eq!(w.state(), State::Active(Mode::Select));
    assert_eq!(w.selection().len(), 2);
    assert_eq!(w.selection().selected(), None);
}

#[test]
fn one_submit_per_step_completes_and_one_more_is_refused() {
    let mut table = type_branch();
    table.insert("scope".to_string(), vec![]);
    let mut w = Wizard::new(four_steps(), table).unwrap();
    let values = ["T-1", "feat", "", "add x"];
    for (i, v) in values.iter().enumerate() {
        assert!(matches!(w.state(), State::Active(_)));
        assert_eq!(w.cursor_step(), i);
        assert_eq!(w.submit(v.to_string()), Ok(()));
        assert_eq!(w.answers().len(), i + 1);
    }
    assert_eq!(w.state(), State::Completed);
    assert_eq!(w.cursor_step(), 4);
    assert_eq!(w.submit("again".to_string()), Err(WizardError::InvalidTransition));
    assert_eq!(w.state(), State::Completed);
    assert_eq!(w.answers().len(), 4);
    assert_eq!(w.prompt(), None);
}

#[test]
fn single_step_schema_completes_after_one_submit() {
    let steps = vec![StepDefinition::new("subject", "Summary:", StepKind::FreeText)];
    let mut w = Wizard::new(steps, BranchTable::new()).unwrap();
    assert_eq!(w.submit("x".to_string()), Ok(()));
    assert_eq!(w.state(), State::Completed);
    assert_eq!(w.message(), Some("x".to_string()));
    assert_eq!(w.submit("y".to_string()), Err(WizardError::InvalidTransition));
    assert_eq!(w.message(), Some("x".to_string()));
}

#[test]
fn cancel_aborts_and_keeps_the_answers() {
    let mut w = Wizard::new(four_steps(), type_branch()).unwrap();
    assert_eq!(w.submit("T-1".to_string()), Ok(()));
    assert_eq!(w.handle_event(Event::Down), Ok(Outcome::Continue));
    let before = pairs(&w);
    assert_eq!(w.cancel(), Ok(()));
    assert_eq!(w.state(), State::Aborted);
    assert_eq!(pairs(&w), before);
    assert_eq!(pairs(&w), vec![("id".to_string(), "T-1".to_string())]);
    assert_eq!(w.selection().len(), 0);
    assert_eq!(w.selection().selected(), None);
    assert_eq!(w.message(), None);
}

#[test]
fn cancel_discards_the_typed_text() {
    let mut w = Wizard::new(four_steps(), type_branch()).unwrap();
    type_text(&mut w, "half");
    assert_eq!(w.handle_event(Event::Cancel), Ok(Outcome::Aborted));
    assert_eq!(w.state(), State::Aborted);
    assert!(w.answers().is_empty());
    assert_eq!(w.text().as_str(), "");
}

#[test]
fn nothing_is_accepted_after_cancel() {
    let mut w = Wizard::new(four_steps(), type_branch()).unwrap();
    assert_eq!(w.cancel(), Ok(()));
    assert_eq!(w.cancel(), Err(WizardError::InvalidTransition));
    assert_eq!(w.submit("x".to_string()), Err(WizardError::InvalidTransition));
    assert_eq!(w.handle_event(Event::Char('x')), Err(WizardError::InvalidTransition));
    assert_eq!(w.handle_event(Event::Submit), Err(WizardError::InvalidTransition));
    assert_eq!(w.handle_event(Event::Cancel), Err(WizardError::InvalidTransition));
    assert_eq!(w.state(), State::Aborted);
    assert!(w.answers().is_empty());
}

#[test]
fn cancel_after_completion_is_refused() {
    let steps = vec![StepDefinition::new("subject", "Summary:", StepKind::FreeText)];
    let mut w = Wizard::new(steps, BranchTable::new()).unwrap();
    assert_eq!(w.submit("x".to_string()), Ok(()));
    assert_eq!(w.cancel(), Err(WizardError::InvalidTransition));
    assert_eq!(w.handle_event(Event::Down), Err(WizardError::InvalidTransition));
    assert_eq!(w.state(), State::Completed);
    assert_eq!(w.message(), Some("x".to_string()));
}

#[test]
fn assembled_message_keeps_empty_answers_in_place() {
    let mut w = Wizard::new(four_steps(), BranchTable::new()).unwrap();
    for v in ["T-1", "feat", "", "add x"] {
        assert_eq!(w.submit(v.to_string()), Ok(()));
    }
    assert_eq!(
        pairs(&w),
        vec![
            ("id".to_string(), "T-1".to_string()),
            ("type".to_string(), "feat".to_string()),
            ("scope".to_string(), "".to_string()),
            ("subject".to_string(), "add x".to_string()),
        ]
    );
    assert_eq!(w.message(), Some("T-1 feat  add x".to_string()));
}

#[test]
fn assemble_joins_values_not_keys() {
    let answers = vec![
        Answer { key: "id".to_string(), value: "T-1".to_string() },
        Answer { key: "type".to_string(), value: "feat".to_string() },
        Answer { key: "scope".to_string(), value: "".to_string() },
        Answer { key: "subject".to_string(), value: "add x".to_string() },
    ];
    assert_eq!(assemble(&answers), "T-1 feat  add x");
    assert_eq!(assemble(&vec![]), "");
    let twice = vec![
        Answer { key: "a".to_string(), value: "same".to_string() },
        Answer { key: "b".to_string(), value: "same".to_string() },
    ];
    assert_eq!(assemble(&twice), "same same");
}

#[test]
fn branch_sets_select_mode_with_its_options_in_order() {
    let mut w = Wizard::new(four_steps(), type_branch()).unwrap();
    assert_eq!(w.submit("T-1".to_string()), Ok(()));
    assert_eq!(w.state(), State::Active(Mode::Select));
    assert_eq!(w.prompt().map(|p| p.as_str()), Some("Kind of change:"));
    let items = w.selection().items();
    assert_eq!(items.len(), 2);
    assert_eq!(items[0].label, "feat: A new feature");
    assert_eq!(items[0].value, "feat");
    assert_eq!(items[1].label, "fix: A bug fix");
    assert_eq!(items[1].value, "fix");
    assert_eq!(w.selection().selected(), None);
    assert_eq!(w.handle_event(Event::Down), Ok(Outcome::Continue));
    assert_eq!(w.handle_event(Event::Down), Ok(Outcome::Continue));
    assert_eq!(w.selection().selected(), Some(1));
    assert_eq!(w.handle_event(Event::Submit), Ok(Outcome::Continue));
    assert_eq!(
        pairs(&w),
        vec![("id".to_string(), "T-1".to_string()), ("type".to_string(), "fix".to_string())]
    );
    assert_eq!(w.state(), State::Active(Mode::Text));
    assert_eq!(w.selection().len(), 0);
}

#[test]
fn empty_branch_degrades_to_text() {
    let mut table = BranchTable::new();
    table.insert("type".to_string(), vec![]);
    let mut w = Wizard::new(four_steps(), table).unwrap();
    assert_eq!(w.submit("T-1".to_string()), Ok(()));
    assert_eq!(w.state(), State::Active(Mode::Text));
    assert_eq!(w.selection().len(), 0);
    type_text(&mut w, "fix");
    assert_eq!(w.handle_event(Event::Submit), Ok(Outcome::Continue));
    assert_eq!(w.cursor_step(), 2);
    assert_eq!(w.answers()[1].value, "fix");
}

#[test]
fn empty_branch_on_first_step_starts_in_text_mode() {
    let mut table = BranchTable::new();
    table.insert("id".to_string(), vec![]);
    let w = Wizard::new(four_steps(), table).unwrap();
    assert_eq!(w.state(), State::Active(Mode::Text));
}

#[test]
fn answers_come_back_in_submission_order() {
    let mut w = Wizard::new(four_steps(), type_branch()).unwrap();
    assert_eq!(w.submit("b".to_string()), Ok(()));
    assert_eq!(pairs(&w), vec![("id".to_string(), "b".to_string())]);
    assert_eq!(w.submit("a".to_string()), Ok(()));
    assert_eq!(w.submit("b".to_string()), Ok(()));
    assert_eq!(
        pairs(&w),
        vec![
            ("id".to_string(), "b".to_string()),
            ("type".to_string(), "a".to_string()),
            ("scope".to_string(), "b".to_string()),
        ]
    );
    assert_eq!(w.state(), State::Active(Mode::Text));
    assert_eq!(w.message(), None);
}

#[test]
fn submit_without_selection_asks_again() {
    let mut w = Wizard::new(four_steps(), type_branch()).unwrap();
    assert_eq!(w.submit("T-1".to_string()), Ok(()));
    assert_eq!(w.handle_event(Event::Submit), Ok(Outcome::NoSelection));
    assert_eq!(w.cursor_step(), 1);
    assert_eq!(w.state(), State::Active(Mode::Select));
    assert_eq!(w.answers().len(), 1);
    assert_eq!(w.handle_event(Event::Down), Ok(Outcome::Continue));
    assert_eq!(w.handle_event(Event::Left), Ok(Outcome::Continue));
    assert_eq!(w.selection().selected(), None);
    assert_eq!(w.handle_event(Event::Submit), Ok(Outcome::NoSelection));
    assert_eq!(w.answers().len(), 1);
}

#[test]
fn select_mode_moves_the_cursor_cyclically() {
    let mut w = Wizard::new(four_steps(), type_branch()).unwrap();
    assert_eq!(w.submit("T-1".to_string()), Ok(()));
    assert_eq!(w.handle_event(Event::Up), Ok(Outcome::Continue));
    assert_eq!(w.selection().selected(), Some(0));
    assert_eq!(w.handle_event(Event::Up), Ok(Outcome::Continue));
    assert_eq!(w.selection().selected(), Some(1));
    assert_eq!(w.handle_event(Event::Down), Ok(Outcome::Continue));
    assert_eq!(w.selection().selected(), Some(0));
    assert_eq!(w.handle_event(Event::Submit), Ok(Outcome::Continue));
    assert_eq!(w.answers()[1].value, "feat");
}

#[test]
fn select_mode_ignores_typing() {
    let mut w = Wizard::new(four_steps(), type_branch()).unwrap();
    assert_eq!(w.submit("T-1".to_string()), Ok(()));
    assert_eq!(w.handle_event(Event::Char('x')), Ok(Outcome::Continue));
    assert_eq!(w.handle_event(Event::Backspace), Ok(Outcome::Continue));
    assert_eq!(w.text().as_str(), "");
    assert_eq!(w.selection().selected(), None);
    assert_eq!(w.state(), State::Active(Mode::Select));
}

#[test]
fn text_mode_ignores_cursor_keys() {
    let mut w = Wizard::new(four_steps(), type_branch()).unwrap();
    type_text(&mut w, "ab");
    assert_eq!(w.handle_event(Event::Up), Ok(Outcome::Continue));
    assert_eq!(w.handle_event(Event::Down), Ok(Outcome::Continue));
    assert_eq!(w.handle_event(Event::Left), Ok(Outcome::Continue));
    assert_eq!(w.text().as_str(), "ab");
    assert_eq!(w.selection().selected(), None);
    assert_eq!(w.cursor_step(), 0);
}

#[test]
fn text_mode_edits_and_submits_the_line_untrimmed() {
    let mut w = Wizard::new(four_steps(), BranchTable::new()).unwrap();
    type_text(&mut w, " T-12");
    assert_eq!(w.handle_event(Event::Backspace), Ok(Outcome::Continue));
    assert_eq!(w.text().as_str(), " T-1");
    assert_eq!(w.handle_event(Event::Submit), Ok(Outcome::Continue));
    assert_eq!(w.text().as_str(), "");
    assert_eq!(pairs(&w), vec![("id".to_string(), " T-1".to_string())]);
    assert_eq!(w.prompt().map(|p| p.as_str()), Some("Kind of change:"));
}

#[test]
fn events_drive_the_whole_flow() {
    let mut w = Wizard::new(four_steps(), type_branch()).unwrap();
    type_text(&mut w, "T-1");
    assert_eq!(w.handle_event(Event::Submit), Ok(Outcome::Continue));
    assert_eq!(w.handle_event(Event::Down), Ok(Outcome::Continue));
    assert_eq!(w.handle_event(Event::Submit), Ok(Outcome::Continue));
    assert_eq!(w.handle_event(Event::Submit), Ok(Outcome::Continue));
    type_text(&mut w, "add x");
    assert_eq!(w.handle_event(Event::Submit), Ok(Outcome::Completed));
    assert_eq!(w.state(), State::Completed);
    assert_eq!(w.message(), Some("T-1 feat  add x".to_string()));
    assert_eq!(w.handle_event(Event::Submit), Err(WizardError::InvalidTransition));
}

#[test]
fn last_step_as_selection_completes_on_confirm() {
    let steps = vec![
        StepDefinition::new("id", "Task id:", StepKind::FreeText),
        StepDefinition::new("type", "Kind of change:", StepKind::Select),
    ];
    let mut w = Wizard::new(steps, type_branch()).unwrap();
    assert_eq!(w.submit("T-9".to_string()), Ok(()));
    assert_eq!(w.handle_event(Event::Submit), Ok(Outcome::NoSelection));
    assert_eq!(w.handle_event(Event::Up), Ok(Outcome::Continue));
    assert_eq!(w.handle_event(Event::Up), Ok(Outcome::Continue));
    assert_eq!(w.handle_event(Event::Submit), Ok(Outcome::Completed));
    assert_eq!(w.message(), Some("T-9 fix".to_string()));
}
