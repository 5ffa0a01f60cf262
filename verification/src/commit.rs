//! The fixed four-question commit message flow.

use vstd::prelude::*;
use vstd::string::StringExecFns;
use crate::message::{join_with_space, joined, strings_view};
use crate::wizard::WizardError;

verus! {

/// Prompt shown while the task identifier is awaited.
pub const MISSIONID: &'static str = "请输入任务ID:";

/// Prompt shown while the kind of change is awaited.
pub const CHANGETYPE: &'static str = "请选择变更类型:";

/// Prompt shown while the scope of the change is awaited.
pub const SCOPE: &'static str = "请输入变更范围:";

/// Prompt shown while the summary of the change is awaited.
pub const SUBJECT: &'static str = "请入变更概述:";

/// The number of questions of the flow, and so of answers it takes.
pub const QUESTIONS: usize = 4;

/// The question that is currently asked, together with its prompt.
#[derive(Debug)]
pub enum MessageType {
    Missionid(&'static str),
    ChangeType(&'static str),
    Scope(&'static str),
    Subject(&'static str),
}

impl MessageType {
    /// The prompt carried by the question.
    pub open spec fn prompt(self) -> &'static str {
        match self {
            MessageType::Missionid(p) => p,
            MessageType::ChangeType(p) => p,
            MessageType::Scope(p) => p,
            MessageType::Subject(p) => p,
        }
    }

    /// The question that follows this one; the last question follows itself.
    pub open spec fn successor(self) -> MessageType {
        match self {
            MessageType::Missionid(_) => MessageType::ChangeType(CHANGETYPE),
            MessageType::ChangeType(_) => MessageType::Scope(SCOPE),
            MessageType::Scope(_) => MessageType::Subject(SUBJECT),
            MessageType::Subject(p) => MessageType::Subject(p),
        }
    }

    /// The prompt of the question.
    pub fn content(&self) -> (text: &'static str)
        ensures
            text == self.prompt(),
    {
        match self {
            MessageType::Missionid(content) => content,
            MessageType::ChangeType(content) => content,
            MessageType::Scope(content) => content,
            MessageType::Subject(content) => content,
        }
    }
}

/// The answers given so far, and the question that is asked next.
#[derive(Debug)]
pub struct CommitMessage {
    pub status: MessageType,
    pub content: Vec<String>,
}

impl CommitMessage {
    /// Starts at the first question with no answers.
    pub fn new() -> (m: CommitMessage)
        ensures
            m.status == MessageType::Missionid(MISSIONID),
            m.content@.len() == 0,
    {
        CommitMessage { status: MessageType::Missionid(MISSIONID), content: Vec::new() }
    }

    /// The question that is asked next.
    pub fn status(&self) -> (s: &MessageType)
        ensures
            *s == self.status,
    {
        &self.status
    }

    /// Moves on to the following question; the last question stays.
    pub fn next(&mut self)
        ensures
            final(self).status == old(self).status.successor(),
            final(self).content == old(self).content,
    {
        self.status = match self.status {
            MessageType::Missionid(_) => MessageType::ChangeType(CHANGETYPE),
            MessageType::ChangeType(_) => MessageType::Scope(SCOPE),
            MessageType::Scope(_) => MessageType::Subject(SUBJECT),
            MessageType::Subject(s) => MessageType::Subject(s),
        };
    }

    /// Records the answer to the question that is asked. The flow has
    /// four questions: once each has its answer, a further one is refused
    /// and the answers stay as they are.
    pub fn add_msg(&mut self, s: &str) -> (done: Result<(), WizardError>)
        ensures
            old(self).content@.len() >= QUESTIONS ==> done == Err::<(), WizardError>(
                WizardError::InvalidTransition,
            ) && *final(self) == *old(self),
            old(self).content@.len() < QUESTIONS ==> done == Ok::<(), WizardError>(())
                && final(self).status == old(self).status && strings_view(final(self).content@)
                == strings_view(old(self).content@).push(s@),
    {
        if self.content.len() >= QUESTIONS {
            return Err(WizardError::InvalidTransition);
        }
        let owned = String::from_str(s);
        self.content.push(owned);
        proof {
            assert(strings_view(self.content@) =~= strings_view(old(self).content@).push(s@));
        }
        Ok(())
    }

    /// The answers in the order given, separated by single spaces.
    pub fn content(&self) -> (out: String)
        ensures
            out@ == joined(strings_view(self.content@)),
    {
        join_with_space(&self.content)
    }
}

} // verus!
