//! The question sequence and its branches, as the wizard reads them.

use crate::selection::{entries_view, EntryView, OptionEntry};
use vstd::hash_map::StringHashMap;
use vstd::prelude::*;

verus! {

/// How a step expects its answer.
#[derive(Debug, Clone, Copy, PartialEq, Eq, Structural)]
pub enum StepKind {
    FreeText,
    Select,
}

/// One question of the sequence.
#[derive(Debug)]
pub struct StepDefinition {
    /// Identifies the step; labels its answer and finds its branch.
    pub key: String,
    /// The text shown to the user for this step.
    pub prompt: String,
    /// How the schema declares the step.
    pub kind: StepKind,
}

/// What a step holds, as character sequences.
pub struct StepView {
    pub key: Seq<char>,
    pub prompt: Seq<char>,
    pub kind: StepKind,
}

impl View for StepDefinition {
    type V = StepView;

    open spec fn view(&self) -> StepView {
        StepView { key: self.key@, prompt: self.prompt@, kind: self.kind }
    }
}

impl StepDefinition {
    /// A step with the given key, prompt and kind.
    pub fn new(key: &str, prompt: &str, kind: StepKind) -> (step: StepDefinition)
        ensures
            step@ == (StepView { key: key@, prompt: prompt@, kind }),
    {
        StepDefinition { key: key.to_owned(), prompt: prompt.to_owned(), kind }
    }
}

/// The steps of a sequence, in order, as character sequences.
pub open spec fn steps_view(steps: Seq<StepDefinition>) -> Seq<StepView> {
    Seq::new(steps.len(), |i: int| steps[i]@)
}

/// No two steps share a key.
pub open spec fn keys_distinct(steps: Seq<StepView>) -> bool {
    forall|i: int, j: int| 0 <= i < j < steps.len() ==> steps[i].key != steps[j].key
}

/// Tells whether every step of the sequence has a key of its own.
pub fn has_distinct_keys(steps: &Vec<StepDefinition>) -> (distinct: bool)
    ensures
        distinct == keys_distinct(steps_view(steps@)),
{
    let ghost all = steps_view(steps@);
    let mut j: usize = 0;
    while j < steps.len()
        invariant
            j <= steps.len(),
            all == steps_view(steps@),
            forall|a: int, b: int| 0 <= a < b < j ==> all[a].key != all[b].key,
        decreases steps.len() - j,
    {
        let mut i: usize = 0;
        while i < j
            invariant
                i <= j < steps.len(),
                all == steps_view(steps@),
                forall|a: int| 0 <= a < i ==> all[a].key != all[j as int].key,
            decreases j - i,
        {
            if steps[i].key == steps[j].key {
                proof {
                    assert(all[i as int].key == all[j as int].key);
                }
                return false;
            }
            i += 1;
        }
        j += 1;
    }
    true
}

/// Maps a step's key to the ordered choices offered at that step. A key
/// that is absent stands for a free-text step.
pub struct BranchTable {
    branches: StringHashMap<Vec<OptionEntry>>,
}

impl View for BranchTable {
    type V = Map<Seq<char>, Seq<EntryView>>;

    closed spec fn view(&self) -> Map<Seq<char>, Seq<EntryView>> {
        self.branches@.map_values(|options: Vec<OptionEntry>| entries_view(options@))
    }
}

impl BranchTable {
    /// A table without branches.
    pub fn new() -> (table: BranchTable)
        ensures
            table@ == Map::<Seq<char>, Seq<EntryView>>::empty(),
    {
        let table = BranchTable { branches: StringHashMap::new() };
        proof {
            assert(table@ =~= Map::<Seq<char>, Seq<EntryView>>::empty());
        }
        table
    }

    /// Sets the choices for a key, replacing those it had.
    pub fn insert(&mut self, key: String, options: Vec<OptionEntry>)
        ensures
            final(self)@ == old(self)@.insert(key@, entries_view(options@)),
    {
        let ghost added = entries_view(options@);
        let ghost name = key@;
        self.branches.insert(key, options);
        proof {
            assert(self@ =~= old(self)@.insert(name, added));
        }
    }

    /// The choices for a key, if the table has the key.
    pub fn get(&self, key: &String) -> (found: Option<&Vec<OptionEntry>>)
        ensures
            match found {
                Some(options) => self@.contains_key(key@) && self@[key@] == entries_view(
                    options@,
                ),
                None => !self@.contains_key(key@),
            },
    {
        self.branches.get(key.as_str())
    }
}

/// The kind a step is declared with: a selection where the table has a
/// branch under the step's key, free text where it has none.
pub open spec fn kind_for(branches: Map<Seq<char>, Seq<EntryView>>, key: Seq<char>) -> StepKind {
    if branches.contains_key(key) {
        StepKind::Select
    } else {
        StepKind::FreeText
    }
}

/// Pairs of strings as pairs of character sequences.
pub open spec fn pairs_view(pairs: Seq<(String, String)>) -> Seq<(Seq<char>, Seq<char>)> {
    Seq::new(pairs.len(), |i: int| (pairs[i].0@, pairs[i].1@))
}

/// The steps for questions given as pairs of prompt and key: order,
/// prompts and keys are kept, and each step is declared a selection
/// exactly where the table has a branch under its key.
pub open spec fn steps_of(
    questions: Seq<(Seq<char>, Seq<char>)>,
    branches: Map<Seq<char>, Seq<EntryView>>,
) -> Seq<StepView> {
    Seq::new(
        questions.len(),
        |i: int|
            StepView {
                key: questions[i].1,
                prompt: questions[i].0,
                kind: kind_for(branches, questions[i].1),
            },
    )
}

/// Turns questions, given as pairs of prompt and key in step order, into
/// step definitions.
pub fn resolve_steps(questions: &Vec<(String, String)>, branches: &BranchTable) -> (steps: Vec<
    StepDefinition,
>)
    ensures
        steps_view(steps@) == steps_of(pairs_view(questions@), branches@),
{
    let mut steps: Vec<StepDefinition> = Vec::new();
    let mut i: usize = 0;
    while i < questions.len()
        invariant
            i <= questions.len(),
            steps@.len() == i,
            forall|j: int|
                0 <= j < i ==> (#[trigger] steps@[j])@ == (StepView {
                    key: questions@[j].1@,
                    prompt: questions@[j].0@,
                    kind: kind_for(branches@, questions@[j].1@),
                }),
        decreases questions.len() - i,
    {
        let kind = match branches.get(&questions[i].1) {
            Some(_) => StepKind::Select,
            None => StepKind::FreeText,
        };
        steps.push(
            StepDefinition { key: questions[i].1.clone(), prompt: questions[i].0.clone(), kind },
        );
        i += 1;
    }
    proof {
        assert(steps_view(steps@) =~= steps_of(pairs_view(questions@), branches@));
    }
    steps
}

} // verus!
