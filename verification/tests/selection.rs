use git_message::selection::{clone_entries, OptionEntry, SelectionList};

fn three() -> Vec<OptionEntry> {
    vec![OptionEntry::new("A", "a"), OptionEntry::new("B", "b"), OptionEntry::new("C", "c")]
}

#[test]
fn option_entry_holds_label_and_value() {
    let e = OptionEntry::new("feat: A new feature", "feat");
    assert_eq!(e.label, "feat: A new feature");
    assert_eq!(e.value, "feat");
    let c = e.clone();
    assert_eq!(c.label, "feat: A new feature");
    assert_eq!(c.value, "feat");
}

#[test]
fn clone_entries_keeps_order_and_contents() {
    let copy = clone_entries(&three());
    assert_eq!(copy.len(), 3);
    assert_eq!(copy[0].label, "A");
    assert_eq!(copy[0].value, "a");
    assert_eq!(copy[1].label, "B");
    assert_eq!(copy[2].value, "c");
}

#[test]
fn with_items_starts_unselected() {
    let list = SelectionList::with_items(three());
    assert_eq!(list.selected(), None);
    assert_eq!(list.len(), 3);
    assert_eq!(list.items()[1].label, "B");
    assert!(list.confirm().is_none());
}

#[test]
fn next_from_unselected_selects_the_first() {
    let mut list = SelectionList::with_items(three());
    list.next();
    assert_eq!(list.selected(), Some(0));
}

#[test]
fn previous_from_unselected_selects_the_first() {
    let mut list = SelectionList::with_items(three());
    list.previous();
    assert_eq!(list.selected(), Some(0));
}

#[test]
fn next_wraps_after_the_last() {
    let mut list = SelectionList::with_items(three());
    list.next();
    list.next();
    assert_eq!(list.selected(), Some(1));
    list.next();
    assert_eq!(list.selected(), Some(2));
    list.next();
    assert_eq!(list.selected(), Some(0));
}

#[test]
fn a_full_round_of_next_returns_to_the_start() {
    let mut list = SelectionList::with_items(three());
    list.next();
    assert_eq!(list.selected(), Some(0));
    for _ in 0..3 {
        list.next();
    }
    assert_eq!(list.selected(), Some(0));
    list.next();
    for _ in 0..3 {
        list.next();
    }
    assert_eq!(list.selected(), Some(1));
}

#[test]
fn next_on_a_single_choice_stays_on_it() {
    let mut list = SelectionList::with_items(vec![OptionEntry::new("A", "a")]);
    list.next();
    assert_eq!(list.selected(), Some(0));
    list.next();
    assert_eq!(list.selected(), Some(0));
    list.previous();
    assert_eq!(list.selected(), Some(0));
}

#[test]
fn previous_from_the_first_wraps_to_the_last() {
    let mut list = SelectionList::with_items(three());
    list.next();
    list.previous();
    assert_eq!(list.selected(), Some(2));
    list.previous();
    assert_eq!(list.selected(), Some(1));
}

#[test]
fn empty_list_never_moves() {
    let mut list = SelectionList::with_items(vec![]);
    list.next();
    assert_eq!(list.selected(), None);
    list.previous();
    assert_eq!(list.selected(), None);
    list.unselect();
    assert_eq!(list.selected(), None);
    assert!(list.confirm().is_none());
    assert_eq!(list.len(), 0);
    let mut other = SelectionList::empty();
    other.next();
    other.previous();
    assert_eq!(other.selected(), None);
}

#[test]
fn unselect_clears_the_cursor() {
    let mut list = SelectionList::with_items(three());
    list.next();
    list.next();
    list.unselect();
    assert_eq!(list.selected(), None);
    assert!(list.confirm().is_none());
    list.next();
    assert_eq!(list.selected(), Some(0));
}

#[test]
fn confirm_returns_the_entry_under_the_cursor() {
    let mut list = SelectionList::with_items(three());
    list.next();
    list.next();
    let chosen = list.confirm().unwrap();
    assert_eq!(chosen.label, "B");
    assert_eq!(chosen.value, "b");
    assert_eq!(list.selected(), Some(1));
}
