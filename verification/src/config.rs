//! Reading the question sequence and its branches out of a parsed
//! configuration document.
//!
//! The document is an object. Its member `messages` is an array with one
//! object per question; the first two text members of such an object are
//! the prompt and the key of the question. Where the document has a
//! member named like a question's key, that member is an array with one
//! object per choice: the member `name` of a choice is its label, any
//! other member its value.

use crate::message::strings_view;
use crate::schema::{pairs_view, BranchTable};
use crate::selection::{entries_view, EntryView, OptionEntry};
use vstd::prelude::*;
use vstd::string::StringExecFns;

verus! {

/// A parsed configuration value. Numbers are kept without their value,
/// which nothing here reads.
#[derive(Debug)]
pub enum ConfigValue {
    Null,
    Bool(bool),
    Number,
    Text(String),
    Array(Vec<ConfigValue>),
    Object(Vec<Member>),
}

/// One named member of an object.
#[derive(Debug)]
pub struct Member {
    pub name: String,
    pub value: ConfigValue,
}

/// Why a document cannot be read as a schema.
#[derive(Debug, Clone, Copy, PartialEq, Eq, Structural)]
pub enum ConfigError {
    /// The document is no object, or has no array under `messages`.
    NoMessages,
    /// A question is no object with at least two text members.
    BadMessage,
    /// A branch is no array, or one of its choices is no object of text
    /// members.
    BadSection,
}

/// What a schema read from a document holds: the questions as pairs of
/// prompt and key, in order, and the branch table.
pub struct ConfigView {
    pub questions: Seq<(Seq<char>, Seq<char>)>,
    pub branches: Map<Seq<char>, Seq<EntryView>>,
}

/// The value of the member with the given name; the last one, where
/// several members share the name.
pub open spec fn member_value(members: Seq<Member>, name: Seq<char>) -> Option<ConfigValue>
    decreases members.len(),
{
    if members.len() == 0 {
        None
    } else if members.last().name@ == name {
        Some(members.last().value)
    } else {
        member_value(members.drop_last(), name)
    }
}

/// The texts among the members' values, in member order.
pub open spec fn text_values(members: Seq<Member>) -> Seq<Seq<char>>
    decreases members.len(),
{
    if members.len() == 0 {
        Seq::empty()
    } else {
        match members.last().value {
            ConfigValue::Text(text) => text_values(members.drop_last()).push(text@),
            _ => text_values(members.drop_last()),
        }
    }
}

/// The question that a value describes: prompt and key are the first two
/// texts of an object.
pub open spec fn question_of(value: ConfigValue) -> Option<(Seq<char>, Seq<char>)> {
    match value {
        ConfigValue::Object(members) => if text_values(members@).len() >= 2 {
            Some((text_values(members@)[0], text_values(members@)[1]))
        } else {
            None
        },
        _ => None,
    }
}

/// The questions that the values describe, if each describes one.
pub open spec fn questions_of(values: Seq<ConfigValue>) -> Option<Seq<(Seq<char>, Seq<char>)>> {
    if forall|i: int| 0 <= i < values.len() ==> (#[trigger] question_of(values[i])) is Some {
        Some(Seq::new(values.len(), |i: int| question_of(values[i])->0))
    } else {
        None
    }
}

/// The text of the last member that is, or is not, named `name`, as
/// `named` asks; empty where there is no such member.
pub open spec fn last_text(members: Seq<Member>, named: bool) -> Seq<char>
    decreases members.len(),
{
    if members.len() == 0 {
        Seq::empty()
    } else {
        match members.last().value {
            ConfigValue::Text(text) => if (members.last().name@ == "name"@) == named {
                text@
            } else {
                last_text(members.drop_last(), named)
            },
            _ => last_text(members.drop_last(), named),
        }
    }
}

/// The choice that a value describes: an object whose members are all
/// texts, the label being the member `name` and the value any other.
pub open spec fn entry_of(value: ConfigValue) -> Option<EntryView> {
    match value {
        ConfigValue::Object(members) => if forall|i: int|
            0 <= i < members@.len() ==> (#[trigger] members@[i]).value is Text {
            Some(
                EntryView { label: last_text(members@, true), value: last_text(members@, false) },
            )
        } else {
            None
        },
        _ => None,
    }
}

/// The choices that the values describe, if each describes one.
pub open spec fn entries_of(values: Seq<ConfigValue>) -> Option<Seq<EntryView>> {
    if forall|i: int| 0 <= i < values.len() ==> (#[trigger] entry_of(values[i])) is Some {
        Some(Seq::new(values.len(), |i: int| entry_of(values[i])->0))
    } else {
        None
    }
}

/// The branch table for the questions: for each question in order whose
/// key names a member of the document other than null, the choices of
/// that member.
pub open spec fn branches_of(members: Seq<Member>, questions: Seq<(Seq<char>, Seq<char>)>) -> Option<
    Map<Seq<char>, Seq<EntryView>>,
>
    decreases questions.len(),
{
    if questions.len() == 0 {
        Some(Map::empty())
    } else {
        match branches_of(members, questions.drop_last()) {
            Some(table) => match member_value(members, questions.last().1) {
                None => Some(table),
                Some(ConfigValue::Null) => Some(table),
                Some(ConfigValue::Array(values)) => match entries_of(values@) {
                    Some(entries) => Some(table.insert(questions.last().1, entries)),
                    None => None,
                },
                Some(_) => None,
            },
            None => None,
        }
    }
}

/// The schema that a document describes, or why it describes none.
pub open spec fn config_of(document: ConfigValue) -> Result<ConfigView, ConfigError> {
    match document {
        ConfigValue::Object(members) => match member_value(members@, "messages"@) {
            Some(ConfigValue::Array(values)) => match questions_of(values@) {
                Some(questions) => match branches_of(members@, questions) {
                    Some(branches) => Ok(ConfigView { questions, branches }),
                    None => Err(ConfigError::BadSection),
                },
                None => Err(ConfigError::BadMessage),
            },
            _ => Err(ConfigError::NoMessages),
        },
        _ => Err(ConfigError::NoMessages),
    }
}

/// Finds the value of the member with the given name.
pub fn find_member<'a>(members: &'a Vec<Member>, name: &String) -> (found: Option<&'a ConfigValue>)
    ensures
        match found {
            Some(value) => member_value(members@, name@) == Some(*value),
            None => member_value(members@, name@) is None,
        },
{
    let mut at: Option<usize> = None;
    let mut i: usize = 0;
    while i < members.len()
        invariant
            i <= members.len(),
            match at {
                Some(j) => j < i && member_value(members@.take(i as int), name@) == Some(
                    members@[j as int].value,
                ),
                None => member_value(members@.take(i as int), name@) is None,
            },
        decreases members.len() - i,
    {
        proof {
            assert(members@.take(i + 1).drop_last() =~= members@.take(i as int));
        }
        if members[i].name == *name {
            at = Some(i);
        }
        i += 1;
    }
    proof {
        assert(members@.take(members.len() as int) =~= members@);
    }
    match at {
        Some(j) => Some(&members[j].value),
        None => None,
    }
}

/// Reads one question: the first two texts of an object.
pub fn read_question(value: &ConfigValue) -> (question: Option<(String, String)>)
    ensures
        match question {
            Some(pair) => question_of(*value) == Some((pair.0@, pair.1@)),
            None => question_of(*value) is None,
        },
{
    match value {
        ConfigValue::Object(members) => {
            let mut texts: Vec<String> = Vec::new();
            let mut i: usize = 0;
            while i < members.len()
                invariant
                    i <= members.len(),
                    strings_view(texts@) == text_values(members@.take(i as int)),
                decreases members.len() - i,
            {
                proof {
                    assert(members@.take(i + 1).drop_last() =~= members@.take(i as int));
                }
                let ghost before = texts@;
                match &members[i].value {
                    ConfigValue::Text(text) => {
                        texts.push(text.clone());
                        proof {
                            assert(strings_view(texts@) =~= strings_view(before).push(text@));
                        }
                    },
                    _ => {},
                }
                i += 1;
            }
            proof {
                assert(members@.take(members.len() as int) =~= members@);
                assert(strings_view(texts@).len() == texts@.len());
            }
            if texts.len() >= 2 {
                proof {
                    assert(strings_view(texts@)[0] == texts@[0]@);
                    assert(strings_view(texts@)[1] == texts@[1]@);
                }
                Some((texts[0].clone(), texts[1].clone()))
            } else {
                None
            }
        },
        _ => None,
    }
}

/// Reads the questions of the `messages` array.
pub fn read_questions(values: &Vec<ConfigValue>) -> (questions: Option<Vec<(String, String)>>)
    ensures
        match questions {
            Some(pairs) => questions_of(values@) == Some(pairs_view(pairs@)),
            None => questions_of(values@) is None,
        },
{
    let mut pairs: Vec<(String, String)> = Vec::new();
    let mut i: usize = 0;
    while i < values.len()
        invariant
            i <= values.len(),
            pairs@.len() == i,
            forall|j: int|
                0 <= j < i ==> (#[trigger] question_of(values@[j])) == Some(
                    (pairs@[j].0@, pairs@[j].1@),
                ),
        decreases values.len() - i,
    {
        match read_question(&values[i]) {
            Some(pair) => {
                pairs.push(pair);
            },
            None => {
                proof {
                    assert(question_of(values@[i as int]) is None);
                }
                return None;
            },
        }
        i += 1;
    }
    proof {
        assert(questions_of(values@)->0 =~= pairs_view(pairs@));
    }
    Some(pairs)
}

/// Reads one choice: label and value out of an object of text members.
pub fn read_entry(value: &ConfigValue) -> (entry: Option<OptionEntry>)
    ensures
        match entry {
            Some(read) => entry_of(*value) == Some(read@),
            None => entry_of(*value) is None,
        },
{
    match value {
        ConfigValue::Object(members) => {
            let name = String::from_str("name");
            let mut label = String::new();
            let mut chosen = String::new();
            let mut i: usize = 0;
            while i < members.len()
                invariant
                    i <= members.len(),
                    *value == ConfigValue::Object(*members),
                    name@ == "name"@,
                    forall|j: int| 0 <= j < i ==> (#[trigger] members@[j]).value is Text,
                    label@ == last_text(members@.take(i as int), true),
                    chosen@ == last_text(members@.take(i as int), false),
                decreases members.len() - i,
            {
                proof {
                    assert(members@.take(i + 1).drop_last() =~= members@.take(i as int));
                }
                match &members[i].value {
                    ConfigValue::Text(text) => {
                        if members[i].name == name {
                            label = text.clone();
                        } else {
                            chosen = text.clone();
                        }
                    },
                    _ => {
                        proof {
                            assert(!(members@[i as int].value is Text));
                        }
                        return None;
                    },
                }
                i += 1;
            }
            proof {
                assert(members@.take(members.len() as int) =~= members@);
            }
            Some(OptionEntry { label, value: chosen })
        },
        _ => None,
    }
}

/// Reads the choices of one branch.
pub fn read_entries(values: &Vec<ConfigValue>) -> (entries: Option<Vec<OptionEntry>>)
    ensures
        match entries {
            Some(read) => entries_of(values@) == Some(entries_view(read@)),
            None => entries_of(values@) is None,
        },
{
    let mut read: Vec<OptionEntry> = Vec::new();
    let mut i: usize = 0;
    while i < values.len()
        invariant
            i <= values.len(),
            read@.len() == i,
            forall|j: int| 0 <= j < i ==> (#[trigger] entry_of(values@[j])) == Some(read@[j]@),
        decreases values.len() - i,
    {
        match read_entry(&values[i]) {
            Some(entry) => {
                read.push(entry);
            },
            None => {
                proof {
                    assert(entry_of(values@[i as int]) is None);
                }
                return None;
            },
        }
        i += 1;
    }
    proof {
        assert(entries_of(values@)->0 =~= entries_view(read@));
    }
    Some(read)
}

/// Reads the branch table for the given questions out of the document's
/// members.
pub fn read_branches(members: &Vec<Member>, questions: &Vec<(String, String)>) -> (branches: Option<
    BranchTable,
>)
    ensures
        match branches {
            Some(table) => branches_of(members@, pairs_view(questions@)) == Some(table@),
            None => branches_of(members@, pairs_view(questions@)) is None,
        },
{
    let ghost all = pairs_view(questions@);
    let mut table = BranchTable::new();
    let mut i: usize = 0;
    while i < questions.len()
        invariant
            i <= questions.len(),
            all == pairs_view(questions@),
            branches_of(members@, all.take(i as int)) == Some(table@),
        decreases questions.len() - i,
    {
        proof {
            assert(all.take(i + 1).drop_last() =~= all.take(i as int));
            assert(all.take(i + 1).last().1 == questions@[i as int].1@);
        }
        match find_member(members, &questions[i].1) {
            None => {},
            Some(ConfigValue::Null) => {},
            Some(ConfigValue::Array(values)) => {
                match read_entries(values) {
                    Some(entries) => {
                        table.insert(questions[i].1.clone(), entries);
                    },
                    None => {
                        proof {
                            lemma_branches_stay_unread(members@, all, i + 1);
                        }
                        return None;
                    },
                }
            },
            Some(_) => {
                proof {
                    lemma_branches_stay_unread(members@, all, i + 1);
                }
                return None;
            },
        }
        i += 1;
    }
    proof {
        assert(all.take(questions.len() as int) =~= all);
    }
    Some(table)
}

/// Once the branches of the first questions cannot be read, those of all
/// the questions cannot.
proof fn lemma_branches_stay_unread(
    members: Seq<Member>,
    questions: Seq<(Seq<char>, Seq<char>)>,
    upto: int,
)
    requires
        0 <= upto <= questions.len(),
        branches_of(members, questions.take(upto)) is None,
    ensures
        branches_of(members, questions) is None,
    decreases questions.len() - upto,
{
    if upto == questions.len() {
        assert(questions.take(upto) =~= questions);
    } else {
        assert(questions.take(upto + 1).drop_last() =~= questions.take(upto));
        lemma_branches_stay_unread(members, questions, upto + 1);
    }
}

/// Reads the questions and the branch table out of a document.
pub fn read_config(document: &ConfigValue) -> (read: Result<
    (Vec<(String, String)>, BranchTable),
    ConfigError,
>)
    ensures
        match read {
            Ok(schema) => config_of(*document) == Ok::<ConfigView, ConfigError>(
                ConfigView { questions: pairs_view(schema.0@), branches: schema.1@ },
            ),
            Err(error) => config_of(*document) == Err::<ConfigView, ConfigError>(error),
        },
{
    match document {
        ConfigValue::Object(members) => {
            let key = String::from_str("messages");
            match find_member(members, &key) {
                Some(ConfigValue::Array(values)) => match read_questions(values) {
                    Some(questions) => match read_branches(members, &questions) {
                        Some(branches) => Ok((questions, branches)),
                        None => Err(ConfigError::BadSection),
                    },
                    None => Err(ConfigError::BadMessage),
                },
                _ => Err(ConfigError::NoMessages),
            }
        },
        _ => Err(ConfigError::NoMessages),
    }
}

} // verus!
