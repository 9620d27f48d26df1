//! The errors of a reconciliation run.

use crate::names::clone_names;
use crate::text::{join, joined};
use vstd::prelude::*;

verus! {

/// The kinds of error that end a run.
#[derive(Clone, Copy, Debug, PartialEq, Eq, Structural)]
pub enum ErrorKind {
    /// The configuration has an unknown key or a value of the wrong type.
    ConfigSchema,
    /// A declared package is blacklisted too.
    BlacklistConflict,
    /// The members of a package group could not be had.
    GroupQuery,
    /// A query of the system state failed.
    QueryCommand,
    /// A command that changes the system failed.
    CommandFailure,
    /// A command template is not a text or a list of texts.
    TemplateRender,
}

/// An error of the library.
#[derive(Clone, Debug, PartialEq, Eq)]
pub enum SyncError {
    /// The configuration text is no TOML document; the parser's message.
    Parse(String),
    /// The document holds no table with a `type` key.
    MissingConfiguration,
    /// The package table holds a key that it may not hold.
    UnknownKey(String),
    /// The global table holds a key that it may not hold.
    UnknownGlobalKey(String),
    /// `dry_mode` is not a boolean.
    NotABool,
    /// The value under the given key has the wrong type.
    WrongType(String),
    /// A command template is a list, but not of texts only.
    NonStringElements,
    /// A command template is neither a text nor a list.
    NotStringOrArray,
    /// The given packages are declared and blacklisted at once.
    BlacklistConflict(Vec<String>),
    /// The query for the members of the groups failed or listed nothing.
    GroupQuery,
    /// A query of the system state failed.
    QueryCommand,
    /// A command that changes the system failed.
    CommandFailure,
}

/// What an error says, with texts as sequences of characters: the model of
/// `SyncError` that the contracts speak of.
pub enum Fault {
    Parse(Seq<char>),
    MissingConfiguration,
    UnknownKey(Seq<char>),
    UnknownGlobalKey(Seq<char>),
    NotABool,
    WrongType(Seq<char>),
    NonStringElements,
    NotStringOrArray,
    BlacklistConflict(Seq<Seq<char>>),
    GroupQuery,
    QueryCommand,
    CommandFailure,
}

impl Fault {
    /// The kind of the error.
    pub open spec fn kind(self) -> ErrorKind {
        match self {
            Fault::Parse(_) => ErrorKind::ConfigSchema,
            Fault::MissingConfiguration => ErrorKind::ConfigSchema,
            Fault::UnknownKey(_) => ErrorKind::ConfigSchema,
            Fault::UnknownGlobalKey(_) => ErrorKind::ConfigSchema,
            Fault::NotABool => ErrorKind::ConfigSchema,
            Fault::WrongType(_) => ErrorKind::ConfigSchema,
            Fault::NonStringElements => ErrorKind::TemplateRender,
            Fault::NotStringOrArray => ErrorKind::TemplateRender,
            Fault::BlacklistConflict(_) => ErrorKind::BlacklistConflict,
            Fault::GroupQuery => ErrorKind::GroupQuery,
            Fault::QueryCommand => ErrorKind::QueryCommand,
            Fault::CommandFailure => ErrorKind::CommandFailure,
        }
    }

    /// The message of the error.
    pub open spec fn message(self) -> Seq<char> {
        match self {
            Fault::Parse(m) => m,
            Fault::MissingConfiguration => "Could not find valid pacman configuration."@,
            Fault::UnknownKey(k) => "Unknown key: "@ + k,
            Fault::UnknownGlobalKey(k) => "Unknown key in global configuration: "@ + k,
            Fault::NotABool => "Value is not a Bool!"@,
            Fault::WrongType(k) => "Value has the wrong type: "@ + k,
            Fault::NonStringElements => "Array contains non-String Elements."@,
            Fault::NotStringOrArray => "Value is not String or Array!"@,
            Fault::BlacklistConflict(names) => "Packages and Blacklist have an overlap: "@ + joined(
                names,
                ", "@,
            ),
            Fault::GroupQuery => "Command did not succeed"@,
            Fault::QueryCommand => "Command did not succeed"@,
            Fault::CommandFailure => "Command did not succeed"@,
        }
    }
}

impl View for SyncError {
    type V = Fault;

    open spec fn view(&self) -> Fault {
        match *self {
            SyncError::Parse(m) => Fault::Parse(m@),
            SyncError::MissingConfiguration => Fault::MissingConfiguration,
            SyncError::UnknownKey(k) => Fault::UnknownKey(k@),
            SyncError::UnknownGlobalKey(k) => Fault::UnknownGlobalKey(k@),
            SyncError::NotABool => Fault::NotABool,
            SyncError::WrongType(k) => Fault::WrongType(k@),
            SyncError::NonStringElements => Fault::NonStringElements,
            SyncError::NotStringOrArray => Fault::NotStringOrArray,
            SyncError::BlacklistConflict(names) => Fault::BlacklistConflict(names.deep_view()),
            SyncError::GroupQuery => Fault::GroupQuery,
            SyncError::QueryCommand => Fault::QueryCommand,
            SyncError::CommandFailure => Fault::CommandFailure,
        }
    }
}

impl SyncError {
    /// The kind of the error.
    pub fn kind(&self) -> (r: ErrorKind)
        ensures
            r == self@.kind(),
    {
        match self {
            SyncError::Parse(_) => ErrorKind::ConfigSchema,
            SyncError::MissingConfiguration => ErrorKind::ConfigSchema,
            SyncError::UnknownKey(_) => ErrorKind::ConfigSchema,
            SyncError::UnknownGlobalKey(_) => ErrorKind::ConfigSchema,
            SyncError::NotABool => ErrorKind::ConfigSchema,
            SyncError::WrongType(_) => ErrorKind::ConfigSchema,
            SyncError::NonStringElements => ErrorKind::TemplateRender,
            SyncError::NotStringOrArray => ErrorKind::TemplateRender,
            SyncError::BlacklistConflict(_) => ErrorKind::BlacklistConflict,
            SyncError::GroupQuery => ErrorKind::GroupQuery,
            SyncError::QueryCommand => ErrorKind::QueryCommand,
            SyncError::CommandFailure => ErrorKind::CommandFailure,
        }
    }

    /// A copy of the error.
    pub fn duplicate(&self) -> (r: SyncError)
        ensures
            r@ == self@,
    {
        match self {
            SyncError::Parse(m) => SyncError::Parse(m.clone()),
            SyncError::MissingConfiguration => SyncError::MissingConfiguration,
            SyncError::UnknownKey(k) => SyncError::UnknownKey(k.clone()),
            SyncError::UnknownGlobalKey(k) => SyncError::UnknownGlobalKey(k.clone()),
            SyncError::NotABool => SyncError::NotABool,
            SyncError::WrongType(k) => SyncError::WrongType(k.clone()),
            SyncError::NonStringElements => SyncError::NonStringElements,
            SyncError::NotStringOrArray => SyncError::NotStringOrArray,
            SyncError::BlacklistConflict(names) => SyncError::BlacklistConflict(
                clone_names(names.as_slice()),
            ),
            SyncError::GroupQuery => SyncError::GroupQuery,
            SyncError::QueryCommand => SyncError::QueryCommand,
            SyncError::CommandFailure => SyncError::CommandFailure,
        }
    }

    /// The message of the error, as it is shown to the user.
    pub fn message(&self) -> (r: String)
        ensures
            r@ == self@.message(),
    {
        match self {
            SyncError::Parse(m) => m.clone(),
            SyncError::MissingConfiguration => "Could not find valid pacman configuration.".to_owned(),
            SyncError::UnknownKey(k) => {
                let mut r = "Unknown key: ".to_owned();
                r.append(k.as_str());
                r
            },
            SyncError::UnknownGlobalKey(k) => {
                let mut r = "Unknown key in global configuration: ".to_owned();
                r.append(k.as_str());
                r
            },
            SyncError::NotABool => "Value is not a Bool!".to_owned(),
            SyncError::WrongType(k) => {
                let mut r = "Value has the wrong type: ".to_owned();
                r.append(k.as_str());
                r
            },
            SyncError::NonStringElements => "Array contains non-String Elements.".to_owned(),
            SyncError::NotStringOrArray => "Value is not String or Array!".to_owned(),
            SyncError::BlacklistConflict(names) => {
                let mut r = "Packages and Blacklist have an overlap: ".to_owned();
                let list = join(names.as_slice(), ", ");
                r.append(list.as_str());
                r
            },
            SyncError::GroupQuery => "Command did not succeed".to_owned(),
            SyncError::QueryCommand => "Command did not succeed".to_owned(),
            SyncError::CommandFailure => "Command did not succeed".to_owned(),
        }
    }
}

} // verus!
