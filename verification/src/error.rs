//! What can go wrong.

use vstd::prelude::*;
use vstd::string::*;
use crate::model::Model;

verus! {

/// One of the settings that make up an identity.
#[derive(Debug, PartialEq, Eq, Clone, Copy)]
pub enum Field {
    Name,
    Email,
    SigningKey,
}

/// The git configuration key of a setting.
pub open spec fn key_of(field: Field) -> Seq<char> {
    match field {
        Field::Name => "user.name"@,
        Field::Email => "user.email"@,
        Field::SigningKey => "user.signingkey"@,
    }
}

impl Field {
    /// The git configuration key of this setting.
    pub fn key(&self) -> (r: &'static str)
        ensures
            r@ == key_of(*self),
    {
        match self {
            Field::Name => "user.name",
            Field::Email => "user.email",
            Field::SigningKey => "user.signingkey",
        }
    }
}

/// A failure of one of the library's operations.
#[derive(Debug, PartialEq, Eq)]
pub enum Error {
    /// The directory is in no repository.
    NotARepository,
    /// The marker file could not be read.
    MarkerUnreadable,
    /// The marker file holds nothing but whitespace.
    MarkerEmpty,
    /// The marker file could not be written; with what the host said of it.
    MarkerNotWritten { diagnostic: String },
    /// Git refused to set `field`; with what git said of it.
    ConfigWriteFailed { field: Field, diagnostic: String },
    /// Git has no value for `key`.
    ConfigIncomplete { key: String },
    /// Neither a configuration directory nor a home directory is known.
    HomeNotSet,
    /// The store could not be read; with what the host said of it.
    StoreUnreadable { diagnostic: String },
    /// The store's directory could not be made; with what the host said.
    StoreDirNotCreated { diagnostic: String },
    /// The store could not be written; with what the host said of it.
    StoreNotWritten { diagnostic: String },
}

/// What an [`Error`] stands for.
pub enum ErrorModel {
    NotARepository,
    MarkerUnreadable,
    MarkerEmpty,
    MarkerNotWritten { diagnostic: Seq<char> },
    ConfigWriteFailed { field: Field, diagnostic: Seq<char> },
    ConfigIncomplete { key: Seq<char> },
    HomeNotSet,
    StoreUnreadable { diagnostic: Seq<char> },
    StoreDirNotCreated { diagnostic: Seq<char> },
    StoreNotWritten { diagnostic: Seq<char> },
}

impl Model for Error {
    type M = ErrorModel;

    open spec fn model(&self) -> ErrorModel {
        match self {
            Error::NotARepository => ErrorModel::NotARepository,
            Error::MarkerUnreadable => ErrorModel::MarkerUnreadable,
            Error::MarkerEmpty => ErrorModel::MarkerEmpty,
            Error::MarkerNotWritten { diagnostic } => ErrorModel::MarkerNotWritten {
                diagnostic: diagnostic@,
            },
            Error::ConfigWriteFailed { field, diagnostic } => ErrorModel::ConfigWriteFailed {
                field: *field,
                diagnostic: diagnostic@,
            },
            Error::ConfigIncomplete { key } => ErrorModel::ConfigIncomplete { key: key@ },
            Error::HomeNotSet => ErrorModel::HomeNotSet,
            Error::StoreUnreadable { diagnostic } => ErrorModel::StoreUnreadable {
                diagnostic: diagnostic@,
            },
            Error::StoreDirNotCreated { diagnostic } => ErrorModel::StoreDirNotCreated {
                diagnostic: diagnostic@,
            },
            Error::StoreNotWritten { diagnostic } => ErrorModel::StoreNotWritten {
                diagnostic: diagnostic@,
            },
        }
    }
}

/// The sentence that reports a failure.
pub open spec fn message_of(e: ErrorModel) -> Seq<char> {
    match e {
        ErrorModel::NotARepository => "Not in a git repository"@,
        ErrorModel::MarkerUnreadable => "Failed to read .gswitch file"@,
        ErrorModel::MarkerEmpty => ".gswitch file is empty"@,
        ErrorModel::MarkerNotWritten { diagnostic } => "Failed to create .gswitch file: "@
            + diagnostic,
        ErrorModel::ConfigWriteFailed { field, diagnostic } => "Failed to set git "@ + key_of(
            field,
        ) + ": "@ + diagnostic,
        ErrorModel::ConfigIncomplete { key } => "Git config "@ + key + " not found"@,
        ErrorModel::HomeNotSet => "HOME environment variable not set"@,
        ErrorModel::StoreUnreadable { diagnostic } => "Failed to read config file: "@ + diagnostic,
        ErrorModel::StoreDirNotCreated { diagnostic } => "Failed to create config directory: "@
            + diagnostic,
        ErrorModel::StoreNotWritten { diagnostic } => "Failed to write config file: "@
            + diagnostic,
    }
}

impl Error {
    /// The sentence that reports this failure.
    pub fn to_string(&self) -> (r: String)
        ensures
            r@ == message_of(self.model()),
    {
        match self {
            Error::NotARepository => String::from_str("Not in a git repository"),
            Error::MarkerUnreadable => String::from_str("Failed to read .gswitch file"),
            Error::MarkerEmpty => String::from_str(".gswitch file is empty"),
            Error::MarkerNotWritten { diagnostic } => String::from_str(
                "Failed to create .gswitch file: ",
            ).concat(diagnostic.as_str()),
            Error::ConfigWriteFailed { field, diagnostic } => String::from_str(
                "Failed to set git ",
            ).concat(field.key()).concat(": ").concat(diagnostic.as_str()),
            Error::ConfigIncomplete { key } => String::from_str("Git config ").concat(
                key.as_str(),
            ).concat(" not found"),
            Error::HomeNotSet => String::from_str("HOME environment variable not set"),
            Error::StoreUnreadable { diagnostic } => String::from_str(
                "Failed to read config file: ",
            ).concat(diagnostic.as_str()),
            Error::StoreDirNotCreated { diagnostic } => String::from_str(
                "Failed to create config directory: ",
            ).concat(diagnostic.as_str()),
            Error::StoreNotWritten { diagnostic } => String::from_str(
                "Failed to write config file: ",
            ).concat(diagnostic.as_str()),
        }
    }
}

} // verus!
