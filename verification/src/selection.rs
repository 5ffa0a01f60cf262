//! A cursor over a fixed list of choices, with cyclic movement and an
//! explicit "nothing selected" state.

use vstd::arithmetic::div_mod::{
    lemma_add_mod_noop_right, lemma_mod_add_multiples_vanish, lemma_small_mod,
};
use vstd::prelude::*;

verus! {

/// One selectable choice: the text shown in the list, and the string that
/// is recorded as the answer when the choice is confirmed.
#[derive(Debug)]
pub struct OptionEntry {
    pub label: String,
    pub value: String,
}

/// What a choice holds, as character sequences.
pub struct EntryView {
    pub label: Seq<char>,
    pub value: Seq<char>,
}

impl View for OptionEntry {
    type V = EntryView;

    open spec fn view(&self) -> EntryView {
        EntryView { label: self.label@, value: self.value@ }
    }
}

impl Clone for OptionEntry {
    /// A copy with the same label and value.
    fn clone(&self) -> (copy: OptionEntry)
        ensures
            copy@ == self@,
    {
        OptionEntry { label: self.label.clone(), value: self.value.clone() }
    }
}

impl OptionEntry {
    /// A choice with the given label and value.
    pub fn new(label: &str, value: &str) -> (entry: OptionEntry)
        ensures
            entry@ == (EntryView { label: label@, value: value@ }),
    {
        OptionEntry { label: label.to_owned(), value: value.to_owned() }
    }
}

/// The choices of a list, in order, as character sequences.
pub open spec fn entries_view(entries: Seq<OptionEntry>) -> Seq<EntryView> {
    Seq::new(entries.len(), |i: int| entries[i]@)
}

/// Copies a list of choices, keeping order and contents.
pub fn clone_entries(entries: &Vec<OptionEntry>) -> (copy: Vec<OptionEntry>)
    ensures
        entries_view(copy@) == entries_view(entries@),
{
    let mut copy: Vec<OptionEntry> = Vec::new();
    let mut i: usize = 0;
    while i < entries.len()
        invariant
            i <= entries.len(),
            copy@.len() == i,
            entries_view(copy@) == entries_view(entries@).take(i as int),
        decreases entries.len() - i,
    {
        let ghost before = copy@;
        let entry = entries[i].clone();
        copy.push(entry);
        proof {
            assert forall|j: int| 0 <= j < i + 1 implies entries_view(copy@)[j] == entries_view(
                entries@,
            )[j] by {
                if j < i {
                    assert(entries_view(before)[j] == entries_view(entries@).take(i as int)[j]);
                }
            }
            assert(entries_view(copy@) =~= entries_view(entries@).take(i + 1));
        }
        i += 1;
    }
    proof {
        assert(entries_view(entries@).take(entries.len() as int) =~= entries_view(entries@));
    }
    copy
}

/// Where the cursor stands after one step down a list of `len` choices:
/// from nothing selected to the first choice, otherwise one further with
/// wraparound. On an empty list nothing moves.
pub open spec fn cursor_after_next(cursor: Option<nat>, len: nat) -> Option<nat> {
    if len == 0 {
        cursor
    } else {
        match cursor {
            None => Some(0),
            Some(i) => Some((i + 1) % len),
        }
    }
}

/// Where the cursor stands after one step up a list of `len` choices:
/// from nothing selected to the first choice, otherwise one back with
/// wraparound. On an empty list nothing moves.
pub open spec fn cursor_after_previous(cursor: Option<nat>, len: nat) -> Option<nat> {
    if len == 0 {
        cursor
    } else {
        match cursor {
            None => Some(0),
            Some(i) => Some(((i + len - 1) % (len as int)) as nat),
        }
    }
}

/// The cursor after `count` steps down.
pub open spec fn cursor_after_nexts(cursor: Option<nat>, len: nat, count: nat) -> Option<nat>
    decreases count,
{
    if count == 0 {
        cursor
    } else {
        cursor_after_next(cursor_after_nexts(cursor, len, (count - 1) as nat), len)
    }
}

/// The cursor after `count` steps up.
pub open spec fn cursor_after_previouses(cursor: Option<nat>, len: nat, count: nat) -> Option<
    nat,
>
    decreases count,
{
    if count == 0 {
        cursor
    } else {
        cursor_after_previous(cursor_after_previouses(cursor, len, (count - 1) as nat), len)
    }
}

/// A cursor position as a mathematical value.
pub open spec fn cursor_view(cursor: Option<usize>) -> Option<nat> {
    match cursor {
        Some(i) => Some(i as nat),
        None => None,
    }
}

/// What a selection list holds: its choices and where the cursor stands.
pub struct SelectionView {
    pub items: Seq<EntryView>,
    pub cursor: Option<nat>,
}

/// A list of choices with an optional cursor.
#[derive(Debug)]
pub struct SelectionList {
    items: Vec<OptionEntry>,
    cursor: Option<usize>,
}

impl View for SelectionList {
    type V = SelectionView;

    closed spec fn view(&self) -> SelectionView {
        SelectionView { items: entries_view(self.items@), cursor: cursor_view(self.cursor) }
    }
}

impl SelectionList {
    /// The cursor, when present, points at one of the choices; so an empty
    /// list never has one.
    pub open spec fn wf(&self) -> bool {
        match self@.cursor {
            Some(i) => i < self@.items.len(),
            None => true,
        }
    }

    /// A list over the given choices with nothing selected.
    pub fn with_items(items: Vec<OptionEntry>) -> (list: SelectionList)
        ensures
            list.wf(),
            list@.items == entries_view(items@),
            list@.cursor is None,
    {
        SelectionList { items, cursor: None }
    }

    /// A list without choices.
    pub fn empty() -> (list: SelectionList)
        ensures
            list.wf(),
            list@.items == Seq::<EntryView>::empty(),
            list@.cursor is None,
    {
        let list = SelectionList { items: Vec::new(), cursor: None };
        proof {
            assert(list@.items =~= Seq::<EntryView>::empty());
        }
        list
    }

    /// Moves the cursor one choice down, wrapping to the first after the
    /// last. Does nothing on an empty list.
    pub fn next(&mut self)
        requires
            old(self).wf(),
        ensures
            final(self).wf(),
            final(self)@.items == old(self)@.items,
            final(self)@.cursor == cursor_after_next(old(self)@.cursor, old(self)@.items.len()),
    {
        let len = self.items.len();
        if len == 0 {
            return ;
        }
        let i: usize = match self.cursor {
            Some(i) => (i + 1) % len,
            None => 0,
        };
        self.cursor = Some(i);
    }

    /// Moves the cursor one choice up, wrapping to the last before the
    /// first. Does nothing on an empty list.
    pub fn previous(&mut self)
        requires
            old(self).wf(),
        ensures
            final(self).wf(),
            final(self)@.items == old(self)@.items,
            final(self)@.cursor == cursor_after_previous(
                old(self)@.cursor,
                old(self)@.items.len(),
            ),
    {
        let len = self.items.len();
        if len == 0 {
            return ;
        }
        let i: usize = match self.cursor {
            Some(i) => {
                proof {
                    if i == 0 {
                        lemma_mod_add_multiples_vanish(-1, len as int);
                        lemma_small_mod((len - 1) as nat, len as nat);
                        assert((i + len - 1) % (len as int) == len - 1);
                    } else {
                        lemma_mod_add_multiples_vanish(i - 1, len as int);
                        lemma_small_mod((i - 1) as nat, len as nat);
                        assert((i + len - 1) % (len as int) == i - 1);
                    }
                }
                if i == 0 {
                    len - 1
                } else {
                    i - 1
                }
            },
            None => 0,
        };
        self.cursor = Some(i);
    }

    /// Clears the cursor, whatever it was.
    pub fn unselect(&mut self)
        ensures
            final(self).wf(),
            final(self)@.items == old(self)@.items,
            final(self)@.cursor is None,
    {
        self.cursor = None;
    }

    /// The choice under the cursor; `None` when nothing is selected, which
    /// is never to be taken for a default choice.
    pub fn confirm(&self) -> (chosen: Option<&OptionEntry>)
        requires
            self.wf(),
        ensures
            match self@.cursor {
                Some(i) => chosen is Some && chosen->0@ == self@.items[i as int],
                None => chosen is None,
            },
    {
        match self.cursor {
            Some(i) => Some(&self.items[i]),
            None => None,
        }
    }

    /// The index under the cursor, if any.
    pub fn selected(&self) -> (cursor: Option<usize>)
        ensures
            cursor_view(cursor) == self@.cursor,
    {
        self.cursor
    }

    /// The choices, in order.
    pub fn items(&self) -> (items: &Vec<OptionEntry>)
        ensures
            entries_view(items@) == self@.items,
    {
        &self.items
    }

    /// The number of choices.
    pub fn len(&self) -> (n: usize)
        ensures
            n == self@.items.len(),
    {
        self.items.len()
    }
}

/// Stepping down from a selected choice `count` times lands `count`
/// places further, counted cyclically.
pub proof fn next_steps_from_selected(start: nat, len: nat, count: nat)
    requires
        start < len,
    ensures
        cursor_after_nexts(Some(start), len, count) == Some((start + count) % len),
    decreases count,
{
    if count == 0 {
        lemma_small_mod(start, len);
    } else {
        next_steps_from_selected(start, len, (count - 1) as nat);
        lemma_add_mod_noop_right(1, start + count - 1, len as int);
    }
}

/// Stepping down from "nothing selected" first selects the first choice
/// and then walks on: after `count >= 1` steps the cursor stands at
/// `(count - 1) mod len`.
pub proof fn next_steps_from_unselected(len: nat, count: nat)
    requires
        len >= 1,
        count >= 1,
    ensures
        cursor_after_nexts(None, len, count) == Some(((count - 1) % (len as int)) as nat),
    decreases count,
{
    if count == 1 {
        assert(cursor_after_nexts(None, len, 0) == None::<nat>);
        lemma_small_mod(0, len);
    } else {
        next_steps_from_unselected(len, (count - 1) as nat);
        lemma_add_mod_noop_right(1, count - 2, len as int);
    }
}

/// A full round: as many steps down as the list has choices bring the
/// cursor back to the choice it started from. Starting from "nothing
/// selected", one step selects the first choice and a full round after
/// that returns to it.
pub proof fn next_full_round(start: nat, len: nat)
    requires
        start < len,
    ensures
        cursor_after_nexts(Some(start), len, len) == Some(start),
        cursor_after_next(None, len) == Some(0nat),
        cursor_after_nexts(cursor_after_next(None, len), len, len) == Some(0nat),
{
    next_steps_from_selected(start, len, len);
    lemma_mod_add_multiples_vanish(start as int, len as int);
    lemma_small_mod(start, len);
    next_steps_from_selected(0, len, len);
    lemma_mod_add_multiples_vanish(0, len as int);
    lemma_small_mod(0, len);
}

/// As many steps down from "nothing selected" as the list has choices
/// end on the last choice, since the first step only selects the first
/// choice: they end on the first choice exactly when the list has a
/// single choice, and one step more always does.
pub proof fn next_round_from_unselected(len: nat)
    requires
        len >= 1,
    ensures
        cursor_after_nexts(None, len, len) == Some((len - 1) as nat),
        cursor_after_nexts(None, len, len) == Some(0nat) <==> len == 1,
        cursor_after_nexts(None, len, len + 1) == Some(0nat),
{
    next_steps_from_unselected(len, len);
    lemma_small_mod((len - 1) as nat, len);
    next_steps_from_unselected(len, len + 1);
    lemma_mod_add_multiples_vanish(0, len as int);
    lemma_small_mod(0, len);
}

/// One step up from the first choice selects the last.
pub proof fn previous_from_first_wraps(len: nat)
    requires
        len >= 1,
    ensures
        cursor_after_previous(Some(0nat), len) == Some((len - 1) as nat),
{
    lemma_mod_add_multiples_vanish(-1, len as int);
    lemma_small_mod((len - 1) as nat, len);
}

/// Stepping up and then down, or down and then up, from a selected choice
/// returns to it.
pub proof fn previous_undoes_next(start: nat, len: nat)
    requires
        start < len,
    ensures
        cursor_after_previous(cursor_after_next(Some(start), len), len) == Some(start),
        cursor_after_next(cursor_after_previous(Some(start), len), len) == Some(start),
{
    let m = len as int;
    lemma_add_mod_noop_right(-1 + m, (start + 1) as int, m);
    lemma_mod_add_multiples_vanish(start as int, m);
    lemma_small_mod(start, len);
    lemma_add_mod_noop_right(1, start - 1 + m, m);
}

/// On an empty list no number of steps, up or down, changes the cursor.
pub proof fn empty_list_never_moves(cursor: Option<nat>, count: nat)
    ensures
        cursor_after_nexts(cursor, 0, count) == cursor,
        cursor_after_previouses(cursor, 0, count) == cursor,
    decreases count,
{
    if count > 0 {
        empty_list_never_moves(cursor, (count - 1) as nat);
    }
}

} // verus!
