//! The wizard engine: drives the question sequence step by step, switches
//! between text entry and selection, records the answers and knows when
//! the sequence is complete.

use crate::config::{config_of, read_config, ConfigError, ConfigValue};
use crate::message::{join_with_space, joined, strings_view};
use crate::schema::{
    has_distinct_keys, keys_distinct, resolve_steps, steps_of, steps_view, BranchTable,
    StepDefinition, StepView,
};
use crate::selection::{
    clone_entries, cursor_after_next, cursor_after_previous, EntryView, OptionEntry,
    SelectionList,
};
use crate::text::TextBuffer;
use vstd::prelude::*;

verus! {

/// How the current step takes its input.
#[derive(Debug, Clone, Copy, PartialEq, Eq, Structural)]
pub enum Mode {
    Text,
    Select,
}

/// Where the wizard stands.
#[derive(Debug, Clone, Copy, PartialEq, Eq, Structural)]
pub enum State {
    /// A step awaits its answer, in the given mode.
    Active(Mode),
    /// Every step has its answer.
    Completed,
    /// The user cancelled before the last step was answered.
    Aborted,
}

/// Why the wizard refused.
#[derive(Debug, Clone, Copy, PartialEq, Eq, Structural)]
pub enum WizardError {
    /// The schema holds no step.
    EmptySchema,
    /// Two steps of the schema share a key.
    DuplicateKey,
    /// The wizard is no longer active.
    InvalidTransition,
}

/// Why no wizard could be started on a configuration document.
#[derive(Debug, Clone, Copy, PartialEq, Eq, Structural)]
pub enum StartError {
    /// The document cannot be read as a schema.
    Config(ConfigError),
    /// The schema read from the document is refused.
    Schema(WizardError),
}

/// One input event.
#[derive(Debug, Clone, Copy)]
pub enum Event {
    Char(char),
    Backspace,
    Up,
    Down,
    Left,
    Submit,
    Cancel,
}

/// What an accepted event led to.
#[derive(Debug, Clone, Copy, PartialEq, Eq, Structural)]
pub enum Outcome {
    /// The wizard is still active; show it again.
    Continue,
    /// A selection step was submitted with nothing selected: the step
    /// stays, and the user is asked again.
    NoSelection,
    /// The last step was answered.
    Completed,
    /// The wizard was cancelled.
    Aborted,
}

/// The answer recorded for one step.
#[derive(Debug)]
pub struct Answer {
    pub key: String,
    pub value: String,
}

/// What an answer holds, as character sequences.
pub struct AnswerView {
    pub key: Seq<char>,
    pub value: Seq<char>,
}

impl View for Answer {
    type V = AnswerView;

    open spec fn view(&self) -> AnswerView {
        AnswerView { key: self.key@, value: self.value@ }
    }
}

/// The answers of a log, in order, as character sequences.
pub open spec fn answers_view(answers: Seq<Answer>) -> Seq<AnswerView> {
    Seq::new(answers.len(), |i: int| answers[i]@)
}

/// The values of the answers, in order, without their keys.
pub open spec fn answer_values(answers: Seq<AnswerView>) -> Seq<Seq<char>> {
    Seq::new(answers.len(), |i: int| answers[i].value)
}

/// The mode of the step at `index`: selection where the table has a
/// non-empty list of choices under the step's key, text otherwise.
pub open spec fn mode_for(
    steps: Seq<StepView>,
    branches: Map<Seq<char>, Seq<EntryView>>,
    index: int,
) -> Mode {
    let key = steps[index].key;
    if branches.contains_key(key) && branches[key].len() > 0 {
        Mode::Select
    } else {
        Mode::Text
    }
}

/// The choices shown at the step at `index`; none in text mode.
pub open spec fn items_for(
    steps: Seq<StepView>,
    branches: Map<Seq<char>, Seq<EntryView>>,
    index: int,
) -> Seq<EntryView> {
    if mode_for(steps, branches, index) == Mode::Select {
        branches[steps[index].key]
    } else {
        Seq::empty()
    }
}

/// The wizard as a mathematical value.
pub struct WizardView {
    pub steps: Seq<StepView>,
    pub branches: Map<Seq<char>, Seq<EntryView>>,
    pub answers: Seq<AnswerView>,
    pub state: State,
    pub text: Seq<char>,
    pub items: Seq<EntryView>,
    pub cursor: Option<nat>,
}

/// The wizard on arriving at the step that follows the given answers:
/// active in that step's mode, with an empty line and nothing selected.
pub open spec fn entered(
    steps: Seq<StepView>,
    branches: Map<Seq<char>, Seq<EntryView>>,
    answers: Seq<AnswerView>,
) -> WizardView {
    WizardView {
        steps,
        branches,
        answers,
        state: State::Active(mode_for(steps, branches, answers.len() as int)),
        text: Seq::empty(),
        items: items_for(steps, branches, answers.len() as int),
        cursor: None,
    }
}

/// The wizard at its start: at the first step, with no answers.
pub open spec fn initial(
    steps: Seq<StepView>,
    branches: Map<Seq<char>, Seq<EntryView>>,
) -> WizardView {
    entered(steps, branches, Seq::empty())
}

impl WizardView {
    /// The index of the step that awaits input: one answer is recorded per
    /// step done, so it is the number of answers.
    pub open spec fn cursor_step(self) -> nat {
        self.answers.len()
    }

    /// Whether a step awaits its answer.
    pub open spec fn is_active(self) -> bool {
        self.state is Active
    }

    /// What always holds of a wizard: a non-empty schema with distinct
    /// keys; one answer per step done, under that step's key; and, by
    /// state, exactly the input that matches the mode in use.
    pub open spec fn wf(self) -> bool {
        &&& self.steps.len() > 0
        &&& keys_distinct(self.steps)
        &&& self.answers.len() <= self.steps.len()
        &&& forall|i: int|
            0 <= i < self.answers.len() ==> (#[trigger] self.answers[i]).key == self.steps[i].key
        &&& match self.cursor {
            Some(i) => i < self.items.len(),
            None => true,
        }
        &&& match self.state {
            State::Active(mode) => {
                &&& self.answers.len() < self.steps.len()
                &&& mode == mode_for(self.steps, self.branches, self.answers.len() as int)
                &&& self.items == items_for(self.steps, self.branches, self.answers.len() as int)
                &&& mode == Mode::Select ==> self.text.len() == 0
            },
            State::Completed => {
                &&& self.answers.len() == self.steps.len()
                &&& self.text.len() == 0
                &&& self.items.len() == 0
            },
            State::Aborted => {
                &&& self.answers.len() < self.steps.len()
                &&& self.text.len() == 0
                &&& self.items.len() == 0
            },
        }
    }

    /// The wizard after the current step is answered with `value`: the
    /// answer is appended under the step's key; then the wizard is
    /// completed if that was the last step, and otherwise arrives at the
    /// next one.
    pub open spec fn submit(self, value: Seq<char>) -> WizardView {
        let answers = self.answers.push(
            AnswerView { key: self.steps[self.answers.len() as int].key, value },
        );
        if answers.len() == self.steps.len() {
            WizardView {
                steps: self.steps,
                branches: self.branches,
                answers,
                state: State::Completed,
                text: Seq::empty(),
                items: Seq::empty(),
                cursor: None,
            }
        } else {
            entered(self.steps, self.branches, answers)
        }
    }

    /// The wizard after cancellation: aborted, the answers untouched, and
    /// whatever was typed or selected for the step in progress discarded.
    pub open spec fn cancel(self) -> WizardView {
        WizardView {
            steps: self.steps,
            branches: self.branches,
            answers: self.answers,
            state: State::Aborted,
            text: Seq::empty(),
            items: Seq::empty(),
            cursor: None,
        }
    }

    /// Whether a transition is accepted: only an active wizard takes one.
    pub open spec fn transition_result(self) -> Result<(), WizardError> {
        if self.is_active() {
            Ok(())
        } else {
            Err(WizardError::InvalidTransition)
        }
    }

    /// The wizard after a transition was asked for with `value`: moved on
    /// if it was active, unchanged if not.
    pub open spec fn try_submit(self, value: Seq<char>) -> WizardView {
        if self.is_active() {
            self.submit(value)
        } else {
            self
        }
    }

    /// The wizard after one input event.
    pub open spec fn after(self, event: Event) -> WizardView {
        match self.state {
            State::Active(Mode::Text) => match event {
                Event::Char(c) => WizardView { text: self.text.push(c), ..self },
                Event::Backspace => if self.text.len() > 0 {
                    WizardView { text: self.text.drop_last(), ..self }
                } else {
                    self
                },
                Event::Submit => self.submit(self.text),
                Event::Cancel => self.cancel(),
                _ => self,
            },
            State::Active(Mode::Select) => match event {
                Event::Up => WizardView {
                    cursor: cursor_after_previous(self.cursor, self.items.len()),
                    ..self
                },
                Event::Down => WizardView {
                    cursor: cursor_after_next(self.cursor, self.items.len()),
                    ..self
                },
                Event::Left => WizardView { cursor: None, ..self },
                Event::Submit => match self.cursor {
                    Some(i) => self.submit(self.items[i as int].value),
                    None => self,
                },
                Event::Cancel => self.cancel(),
                _ => self,
            },
            _ => self,
        }
    }

    /// What is reported for one input event.
    pub open spec fn outcome(self, event: Event) -> Result<Outcome, WizardError> {
        match self.state {
            State::Active(mode) => Ok(
                match event {
                    Event::Cancel => Outcome::Aborted,
                    Event::Submit => if mode == Mode::Select && self.cursor is None {
                        Outcome::NoSelection
                    } else if self.answers.len() + 1 == self.steps.len() {
                        Outcome::Completed
                    } else {
                        Outcome::Continue
                    },
                    _ => Outcome::Continue,
                },
            ),
            _ => Err(WizardError::InvalidTransition),
        }
    }
}

/// The wizard that starts on a configuration document, or why none does:
/// the document must describe a schema, and the schema must have at least
/// one step and no key twice.
pub open spec fn started(document: ConfigValue) -> Result<WizardView, StartError> {
    match config_of(document) {
        Ok(config) => {
            let steps = steps_of(config.questions, config.branches);
            if steps.len() == 0 {
                Err(StartError::Schema(WizardError::EmptySchema))
            } else if !keys_distinct(steps) {
                Err(StartError::Schema(WizardError::DuplicateKey))
            } else {
                Ok(initial(steps, config.branches))
            }
        },
        Err(error) => Err(StartError::Config(error)),
    }
}

/// The wizard after the values are submitted one after the other.
pub open spec fn after_submits(start: WizardView, values: Seq<Seq<char>>) -> WizardView
    decreases values.len(),
{
    if values.len() == 0 {
        start
    } else {
        after_submits(start, values.drop_last()).try_submit(values.last())
    }
}

proof fn lemma_answers_push(before: Seq<Answer>, answer: Answer)
    ensures
        answers_view(before.push(answer)) == answers_view(before).push(answer@),
{
    assert(answers_view(before.push(answer)) =~= answers_view(before).push(answer@));
}

/// The answers that the steps from `first` on receive when `values` are
/// submitted in order: each under the key of its step.
pub open spec fn answers_for(steps: Seq<StepView>, first: nat, values: Seq<Seq<char>>) -> Seq<
    AnswerView,
> {
    Seq::new(values.len(), |i: int| AnswerView { key: steps[first + i].key, value: values[i] })
}

/// A wizard at its start is well formed and active, whatever the branch
/// table holds.
pub proof fn initial_is_active(steps: Seq<StepView>, branches: Map<Seq<char>, Seq<EntryView>>)
    requires
        steps.len() > 0,
        keys_distinct(steps),
    ensures
        initial(steps, branches).wf(),
        initial(steps, branches).is_active(),
        initial(steps, branches).answers.len() == 0,
{
}

/// Answering the current step keeps the wizard well formed, appends
/// exactly one answer and leaves the earlier ones alone.
pub proof fn submit_appends_one(start: WizardView, value: Seq<char>)
    requires
        start.wf(),
        start.is_active(),
    ensures
        start.submit(value).wf(),
        start.submit(value).steps == start.steps,
        start.submit(value).branches == start.branches,
        start.submit(value).answers == start.answers.push(
            AnswerView { key: start.steps[start.cursor_step() as int].key, value },
        ),
        start.submit(value).state == State::Completed <==> start.answers.len() + 1
            == start.steps.len(),
        start.submit(value).state != State::Completed ==> start.submit(value).is_active(),
{
}

/// Submitting no more values than steps remain: each value is recorded
/// under the key of its step, in the order submitted, after the answers
/// that were there; the wizard stays active as long as a step remains
/// and is completed exactly when none does.
pub proof fn submits_fill_the_log(start: WizardView, values: Seq<Seq<char>>)
    requires
        start.wf(),
        start.is_active(),
        start.answers.len() + values.len() <= start.steps.len(),
    ensures
        after_submits(start, values).wf(),
        after_submits(start, values).steps == start.steps,
        after_submits(start, values).branches == start.branches,
        after_submits(start, values).answers == start.answers + answers_for(
            start.steps,
            start.answers.len(),
            values,
        ),
        start.answers.len() + values.len() < start.steps.len() ==> after_submits(
            start,
            values,
        ).is_active(),
        start.answers.len() + values.len() == start.steps.len() ==> after_submits(
            start,
            values,
        ).state == State::Completed,
    decreases values.len(),
{
    if values.len() == 0 {
        assert(start.answers + answers_for(start.steps, start.answers.len(), values)
            =~= start.answers);
    } else {
        let head = values.drop_last();
        submits_fill_the_log(start, head);
        let middle = after_submits(start, head);
        submit_appends_one(middle, values.last());
        assert(middle.answers.len() == start.answers.len() + head.len());
        assert(start.answers + answers_for(start.steps, start.answers.len(), values) =~= (
            start.answers + answers_for(start.steps, start.answers.len(), head)).push(
            AnswerView {
                key: start.steps[middle.cursor_step() as int].key,
                value: values.last(),
            },
        ));
    }
}

/// On a schema of N steps, N submits lead from the start to completion:
/// before each of them the wizard is active and accepts it, after the
/// last it is completed, and one submit more is refused as an invalid
/// transition and changes nothing. This holds whatever the branch table
/// holds, so also where a step has an empty list of choices.
pub proof fn one_submit_per_step_completes(
    steps: Seq<StepView>,
    branches: Map<Seq<char>, Seq<EntryView>>,
    values: Seq<Seq<char>>,
    extra: Seq<char>,
)
    requires
        steps.len() > 0,
        keys_distinct(steps),
        values.len() == steps.len(),
    ensures
        forall|k: int|
            0 <= k < values.len() ==> (#[trigger] after_submits(
                initial(steps, branches),
                values.take(k),
            )).transition_result() == Ok::<(), WizardError>(()),
        after_submits(initial(steps, branches), values).state == State::Completed,
        after_submits(initial(steps, branches), values).transition_result() == Err::<
            (),
            WizardError,
        >(WizardError::InvalidTransition),
        after_submits(initial(steps, branches), values.push(extra)) == after_submits(
            initial(steps, branches),
            values,
        ),
{
    let start = initial(steps, branches);
    initial_is_active(steps, branches);
    assert forall|k: int| 0 <= k < values.len() implies (#[trigger] after_submits(
        start,
        values.take(k),
    )).transition_result() == Ok::<(), WizardError>(()) by {
        submits_fill_the_log(start, values.take(k));
    }
    submits_fill_the_log(start, values);
    assert(values.push(extra).drop_last() =~= values);
}

/// The log gives back what was submitted: after the values are submitted
/// from the start, the values of the answers are those values in the
/// order submitted, and a later submit never changes an earlier answer.
pub proof fn answers_round_trip(
    steps: Seq<StepView>,
    branches: Map<Seq<char>, Seq<EntryView>>,
    values: Seq<Seq<char>>,
)
    requires
        steps.len() > 0,
        keys_distinct(steps),
        values.len() <= steps.len(),
    ensures
        answer_values(after_submits(initial(steps, branches), values).answers) == values,
        after_submits(initial(steps, branches), values).answers == answers_for(steps, 0, values),
        forall|k: int|
            0 <= k <= values.len() ==> (#[trigger] after_submits(
                initial(steps, branches),
                values.take(k),
            )).answers == after_submits(initial(steps, branches), values).answers.take(k),
{
    let start = initial(steps, branches);
    initial_is_active(steps, branches);
    submits_fill_the_log(start, values);
    assert(start.answers + answers_for(steps, 0, values) =~= answers_for(steps, 0, values));
    assert(answer_values(answers_for(steps, 0, values)) =~= values);
    assert forall|k: int| 0 <= k <= values.len() implies (#[trigger] after_submits(
        start,
        values.take(k),
    )).answers == after_submits(start, values).answers.take(k) by {
        submits_fill_the_log(start, values.take(k));
        assert(start.answers + answers_for(steps, 0, values.take(k)) =~= answers_for(
            steps,
            0,
            values,
        ).take(k));
    }
}

/// Whatever the event, the wizard stays well formed, its schema stays as
/// it is, and the log is only ever appended to: the answers that were
/// there stay in place unchanged, and at most one is added.
pub proof fn events_only_append(start: WizardView, event: Event)
    requires
        start.wf(),
    ensures
        start.after(event).wf(),
        start.after(event).steps == start.steps,
        start.after(event).branches == start.branches,
        start.answers.len() <= start.after(event).answers.len() <= start.answers.len() + 1,
        start.after(event).answers.take(start.answers.len() as int) == start.answers,
{
    let end = start.after(event);
    if start.is_active() {
        submit_appends_one(start, start.text);
        if let Some(i) = start.cursor {
            submit_appends_one(start, start.items[i as int].value);
        }
    }
    assert(end.answers.take(start.answers.len() as int) =~= start.answers);
}

/// Cancelling an active wizard aborts it and leaves the answers exactly
/// as they were.
pub proof fn cancel_keeps_answers(start: WizardView)
    requires
        start.wf(),
        start.is_active(),
    ensures
        start.cancel().wf(),
        start.cancel().state == State::Aborted,
        start.cancel().answers == start.answers,
{
}

/// A step whose key has a non-empty list of choices in the table is
/// entered in selection mode, with those choices in their order and
/// nothing selected.
pub proof fn branch_selects(
    steps: Seq<StepView>,
    branches: Map<Seq<char>, Seq<EntryView>>,
    answers: Seq<AnswerView>,
)
    requires
        answers.len() < steps.len(),
        branches.contains_key(steps[answers.len() as int].key),
        branches[steps[answers.len() as int].key].len() > 0,
    ensures
        entered(steps, branches, answers).state == State::Active(Mode::Select),
        entered(steps, branches, answers).items == branches[steps[answers.len() as int].key],
        entered(steps, branches, answers).cursor is None,
{
}

/// A step whose key has an empty list of choices in the table, or none at
/// all, is entered in text mode.
pub proof fn empty_branch_degrades_to_text(
    steps: Seq<StepView>,
    branches: Map<Seq<char>, Seq<EntryView>>,
    answers: Seq<AnswerView>,
)
    requires
        answers.len() < steps.len(),
        !branches.contains_key(steps[answers.len() as int].key)
            || branches[steps[answers.len() as int].key].len() == 0,
    ensures
        entered(steps, branches, answers).state == State::Active(Mode::Text),
        entered(steps, branches, answers).items.len() == 0,
{
}

/// Joins the values of the answers, in order, with single spaces.
pub fn assemble(answers: &Vec<Answer>) -> (message: String)
    ensures
        message@ == joined(answer_values(answers_view(answers@))),
{
    let mut values: Vec<String> = Vec::new();
    let mut i: usize = 0;
    while i < answers.len()
        invariant
            i <= answers.len(),
            values@.len() == i,
            forall|j: int| 0 <= j < i ==> (#[trigger] values@[j])@ == answers@[j].value@,
        decreases answers.len() - i,
    {
        values.push(answers[i].value.clone());
        i += 1;
    }
    proof {
        assert(strings_view(values@) =~= answer_values(answers_view(answers@)));
    }
    join_with_space(&values)
}

/// The wizard engine.
pub struct Wizard {
    steps: Vec<StepDefinition>,
    branches: BranchTable,
    answers: Vec<Answer>,
    state: State,
    text: TextBuffer,
    selection: SelectionList,
}

impl View for Wizard {
    type V = WizardView;

    closed spec fn view(&self) -> WizardView {
        WizardView {
            steps: steps_view(self.steps@),
            branches: self.branches@,
            answers: answers_view(self.answers@),
            state: self.state,
            text: self.text@,
            items: self.selection@.items,
            cursor: self.selection@.cursor,
        }
    }
}

impl Wizard {
    /// What every wizard made by this module satisfies, before and after
    /// each call.
    pub open spec fn wf(&self) -> bool {
        self@.wf()
    }

    /// Starts a wizard on a schema. A schema without steps, or with two
    /// steps under one key, is refused before any state exists.
    pub fn new(steps: Vec<StepDefinition>, branches: BranchTable) -> (made: Result<
        Wizard,
        WizardError,
    >)
        ensures
            steps@.len() == 0 ==> made == Err::<Wizard, WizardError>(WizardError::EmptySchema),
            steps@.len() > 0 && !keys_distinct(steps_view(steps@)) ==> made == Err::<
                Wizard,
                WizardError,
            >(WizardError::DuplicateKey),
            steps@.len() > 0 && keys_distinct(steps_view(steps@)) ==> made is Ok
                && made->Ok_0.wf() && made->Ok_0@ == initial(steps_view(steps@), branches@),
    {
        if steps.len() == 0 {
            return Err(WizardError::EmptySchema);
        }
        if !has_distinct_keys(&steps) {
            return Err(WizardError::DuplicateKey);
        }
        let mut wizard = Wizard {
            steps,
            branches,
            answers: Vec::new(),
            state: State::Active(Mode::Text),
            text: TextBuffer::new(),
            selection: SelectionList::empty(),
        };
        wizard.enter();
        proof {
            assert(answers_view(wizard.answers@) =~= Seq::<AnswerView>::empty());
        }
        Ok(wizard)
    }

    /// Starts a wizard on a configuration document. Whatever is wrong with
    /// the document or its schema is reported before any wizard exists.
    pub fn from_config(document: &ConfigValue) -> (made: Result<Wizard, StartError>)
        ensures
            match made {
                Ok(wizard) => wizard.wf() && started(*document) == Ok::<WizardView, StartError>(
                    wizard@,
                ),
                Err(error) => started(*document) == Err::<WizardView, StartError>(error),
            },
    {
        match read_config(document) {
            Ok((questions, branches)) => {
                let steps = resolve_steps(&questions, &branches);
                match Wizard::new(steps, branches) {
                    Ok(wizard) => Ok(wizard),
                    Err(error) => Err(StartError::Schema(error)),
                }
            },
            Err(error) => Err(StartError::Config(error)),
        }
    }

    /// Arrives at the step that follows the answers recorded so far.
    fn enter(&mut self)
        requires
            old(self).answers@.len() < old(self).steps@.len(),
        ensures
            final(self)@ == entered(old(self)@.steps, old(self)@.branches, old(self)@.answers),
            final(self).selection.wf(),
    {
        let index = self.answers.len();
        self.text.clear();
        let options: Vec<OptionEntry> = match self.branches.get(&self.steps[index].key) {
            Some(found) => clone_entries(found),
            None => Vec::new(),
        };
        if options.len() > 0 {
            self.state = State::Active(Mode::Select);
            self.selection = SelectionList::with_items(options);
        } else {
            self.state = State::Active(Mode::Text);
            self.selection = SelectionList::empty();
        }
    }

    /// Records `value` as the answer of the current step and moves on: to
    /// completion after the last step, else to the next step in its mode.
    /// A wizard that is no longer active refuses and stays as it is.
    pub fn submit(&mut self, value: String) -> (done: Result<(), WizardError>)
        requires
            old(self).wf(),
        ensures
            final(self).wf(),
            done == old(self)@.transition_result(),
            final(self)@ == old(self)@.try_submit(value@),
    {
        match self.state {
            State::Active(_) => {},
            _ => {
                return Err(WizardError::InvalidTransition);
            },
        }
        let index = self.answers.len();
        let key = self.steps[index].key.clone();
        proof {
            lemma_answers_push(self.answers@, Answer { key, value });
        }
        self.answers.push(Answer { key, value });
        if self.answers.len() == self.steps.len() {
            self.state = State::Completed;
            self.text.clear();
            self.selection = SelectionList::empty();
        } else {
            self.enter();
        }
        Ok(())
    }

    /// Aborts an active wizard. No answer is recorded for the step in
    /// progress, and what was typed or selected for it is discarded. A
    /// wizard that is no longer active refuses and stays as it is.
    pub fn cancel(&mut self) -> (done: Result<(), WizardError>)
        requires
            old(self).wf(),
        ensures
            final(self).wf(),
            done == old(self)@.transition_result(),
            old(self)@.is_active() ==> final(self)@ == old(self)@.cancel(),
            !old(self)@.is_active() ==> final(self)@ == old(self)@,
            final(self)@.answers == old(self)@.answers,
            old(self)@.is_active() ==> final(self)@.state == State::Aborted,
    {
        match self.state {
            State::Active(_) => {},
            _ => {
                return Err(WizardError::InvalidTransition);
            },
        }
        self.state = State::Aborted;
        self.text.clear();
        self.selection = SelectionList::empty();
        Ok(())
    }

    /// Takes one input event and resolves it fully. In text mode
    /// characters and backspace edit the line and submit answers with the
    /// line as typed; in selection mode up, down and left move or clear
    /// the cursor and submit answers with the value of the choice under
    /// the cursor, or reports that nothing is selected and stays. Cancel
    /// aborts in either mode. Events that mean nothing in the mode in use
    /// change nothing. A wizard that is no longer active refuses.
    pub fn handle_event(&mut self, event: Event) -> (told: Result<Outcome, WizardError>)
        requires
            old(self).wf(),
        ensures
            final(self).wf(),
            told == old(self)@.outcome(event),
            final(self)@ == old(self)@.after(event),
    {
        match self.state {
            State::Active(Mode::Text) => match event {
                Event::Char(c) => {
                    self.text.append(c);
                    Ok(Outcome::Continue)
                },
                Event::Backspace => {
                    self.text.backspace();
                    Ok(Outcome::Continue)
                },
                Event::Submit => {
                    let value = self.text.submit();
                    let _ = self.submit(value);
                    Ok(self.progress())
                },
                Event::Cancel => {
                    let _ = self.cancel();
                    Ok(Outcome::Aborted)
                },
                _ => Ok(Outcome::Continue),
            },
            State::Active(Mode::Select) => match event {
                Event::Up => {
                    self.selection.previous();
                    Ok(Outcome::Continue)
                },
                Event::Down => {
                    self.selection.next();
                    Ok(Outcome::Continue)
                },
                Event::Left => {
                    self.selection.unselect();
                    Ok(Outcome::Continue)
                },
                Event::Submit => {
                    let chosen: Option<String> = match self.selection.confirm() {
                        Some(entry) => Some(entry.value.clone()),
                        None => None,
                    };
                    match chosen {
                        Some(value) => {
                            let _ = self.submit(value);
                            Ok(self.progress())
                        },
                        None => Ok(Outcome::NoSelection),
                    }
                },
                Event::Cancel => {
                    let _ = self.cancel();
                    Ok(Outcome::Aborted)
                },
                _ => Ok(Outcome::Continue),
            },
            _ => Err(WizardError::InvalidTransition),
        }
    }

    /// What to report after an answer was recorded.
    fn progress(&self) -> (told: Outcome)
        ensures
            told == if self.state == State::Completed {
                Outcome::Completed
            } else {
                Outcome::Continue
            },
    {
        match self.state {
            State::Completed => Outcome::Completed,
            _ => Outcome::Continue,
        }
    }

    /// The state the wizard is in.
    pub fn state(&self) -> (state: State)
        ensures
            state == self@.state,
    {
        self.state
    }

    /// The index of the step that awaits input.
    pub fn cursor_step(&self) -> (index: usize)
        ensures
            index == self@.cursor_step(),
    {
        self.answers.len()
    }

    /// The number of steps of the schema.
    pub fn total_steps(&self) -> (count: usize)
        ensures
            count == self@.steps.len(),
    {
        self.steps.len()
    }

    /// The prompt of the step that awaits input, while there is one.
    pub fn prompt(&self) -> (prompt: Option<&String>)
        requires
            self.wf(),
        ensures
            match prompt {
                Some(text) => self@.is_active() && text@ == self@.steps[self@.cursor_step() as int].prompt,
                None => !self@.is_active(),
            },
    {
        match self.state {
            State::Active(_) => Some(&self.steps[self.answers.len()].prompt),
            _ => None,
        }
    }

    /// The answers recorded so far, in the order they were submitted.
    pub fn answers(&self) -> (answers: &Vec<Answer>)
        ensures
            answers_view(answers@) == self@.answers,
    {
        &self.answers
    }

    /// The line under edit.
    pub fn text(&self) -> (text: &TextBuffer)
        ensures
            text@ == self@.text,
    {
        &self.text
    }

    /// The choices of the current step and the cursor over them.
    pub fn selection(&self) -> (selection: &SelectionList)
        ensures
            selection@.items == self@.items,
            selection@.cursor == self@.cursor,
    {
        &self.selection
    }

    /// The assembled message, once every step is answered: the values of
    /// the answers in step order, separated by single spaces.
    pub fn message(&self) -> (message: Option<String>)
        ensures
            match message {
                Some(text) => self@.state == State::Completed && text@ == joined(
                    answer_values(self@.answers),
                ),
                None => self@.state != State::Completed,
            },
    {
        match self.state {
            State::Completed => Some(assemble(&self.answers)),
            _ => None,
        }
    }
}

} // verus!
