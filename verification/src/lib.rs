//! Commit-message wizard: a step-by-step question flow whose answers are
//! assembled into a single commit message.
//!
//! The engine in [`wizard`] drives a sequence of steps described by
//! [`schema`], taking each answer either from the line editor in [`text`]
//! or from the list of choices in [`selection`]; [`message`] joins the
//! answers into the final line. [`config`] reads a schema out of a parsed
//! configuration document, and [`commit`] holds the fixed four-question
//! flow.

pub mod commit;
pub mod config;
pub mod message;
pub mod schema;
pub mod selection;
pub mod text;
pub mod wizard;

pub use commit::{CommitMessage, MessageType};
