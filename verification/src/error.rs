//! The error that a run can report.

use vstd::prelude::*;
use vstd::string::StringExecFns;

verus! {

/// The kinds of failure that dispatch itself knows.
#[derive(PartialEq, Eq, Clone, Copy, Debug, Structural)]
pub enum ActionErrorKind {
    /// The command that was named has no action.
    NotFound,
}

impl ActionErrorKind {
    /// The kind's name as text.
    pub open spec fn text(self) -> Seq<char> {
        match self {
            ActionErrorKind::NotFound => "NotFound"@,
        }
    }

    /// The kind's name, for messages.
    pub fn to_string(&self) -> (text: String)
        ensures
            text@ == self.text(),
    {
        match self {
            ActionErrorKind::NotFound => String::from_str("NotFound"),
        }
    }
}

/// A run that ended without invoking anything it should have.
#[derive(Debug, Clone, PartialEq, Eq)]
pub struct ActionError {
    /// What went wrong.
    pub kind: ActionErrorKind,
    /// The help text of the command concerned, to be shown with the error.
    pub help: String,
}

impl ActionError {
    /// The error as a message: the name of its kind.
    pub fn to_string(&self) -> (text: String)
        ensures
            text@ == self.kind.text(),
    {
        self.kind.to_string()
    }
}

/// A command was not registered because its name is taken.
#[derive(Debug, Clone, PartialEq, Eq)]
pub struct DuplicateCommand {
    /// The name that two commands would share.
    pub name: String,
}

impl DuplicateCommand {
    /// The message for a name.
    pub open spec fn text(name: Seq<char>) -> Seq<char> {
        "Command name \""@ + name + "\" is already registered."@
    }

    /// The error as a message.
    pub fn to_string(&self) -> (text: String)
        ensures
            text@ == Self::text(self.name@),
    {
        let mut text = String::from_str("Command name \"");
        text.append(self.name.as_str());
        text.append("\" is already registered.");
        text
    }
}

} // verus!
