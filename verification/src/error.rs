//! Reasons for which a trigger record is rejected.

use vstd::prelude::*;

verus! {

/// Why a configured trigger record cannot become a [`crate::trigger::Trigger`].
#[derive(Clone, Copy, Debug, PartialEq, Eq, Structural)]
pub enum TriggerError {
    /// The entry of the trigger list is not a record at all.
    NotARecord,
    /// The record has no `command` field.
    NoCommand,
    /// The `command` field is not text.
    InvalidCommand,
    /// The record has no `edge` field.
    NoEdge,
    /// The `edge` field is not text, or names no edge.
    InvalidEdge,
    /// The `from` or `to` field is missing or is not a number.
    InvalidRange,
}

impl TriggerError {
    /// The text of [`TriggerError::message`].
    pub open spec fn message_text(self) -> Seq<char> {
        match self {
            TriggerError::NotARecord => "triggers defined wrongly"@,
            TriggerError::NoCommand => "no command specified"@,
            TriggerError::InvalidCommand => "invalid command"@,
            TriggerError::NoEdge => "no edge specified"@,
            TriggerError::InvalidEdge => "invalid edge"@,
            TriggerError::InvalidRange => "invalid from or to"@,
        }
    }

    /// A short description for the user.
    pub fn message(&self) -> (text: &'static str)
        ensures
            text@ == self.message_text(),
    {
        match self {
            TriggerError::NotARecord => "triggers defined wrongly",
            TriggerError::NoCommand => "no command specified",
            TriggerError::InvalidCommand => "invalid command",
            TriggerError::NoEdge => "no edge specified",
            TriggerError::InvalidEdge => "invalid edge",
            TriggerError::InvalidRange => "invalid from or to",
        }
    }
}

} // verus!
