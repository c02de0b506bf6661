//! Everything that can go wrong, with the context needed to report it.

use vstd::prelude::*;

verus! {

/// What is wrong with a repository's configuration.
#[derive(Clone, Debug, PartialEq, Eq)]
pub enum ConfigFault {
    /// The configuration has no section of this name.
    MissingSection { section: String },
    /// The section has no such key.
    MissingKey { section: String, key: String },
    /// The key holds `actual` where `expected` is required.
    UnexpectedValue { key: String, expected: String, actual: String },
}

/// The mathematical value of a [`ConfigFault`].
pub enum ConfigFaultModel {
    MissingSection { section: Seq<char> },
    MissingKey { section: Seq<char>, key: Seq<char> },
    UnexpectedValue { key: Seq<char>, expected: Seq<char>, actual: Seq<char> },
}

impl View for ConfigFault {
    type V = ConfigFaultModel;

    open spec fn view(&self) -> ConfigFaultModel {
        match self {
            ConfigFault::MissingSection { section } => ConfigFaultModel::MissingSection {
                section: section@,
            },
            ConfigFault::MissingKey { section, key } => ConfigFaultModel::MissingKey {
                section: section@,
                key: key@,
            },
            ConfigFault::UnexpectedValue { key, expected, actual } => {
                ConfigFaultModel::UnexpectedValue {
                    key: key@,
                    expected: expected@,
                    actual: actual@,
                }
            },
        }
    }
}

/// What is wrong with the bytes of a stored object.
#[derive(Clone, Debug, PartialEq, Eq)]
pub enum ObjectFault {
    /// The text by which an object was asked for is no object id.
    InvalidId { id: String },
    /// The file at `path` is not a zlib stream; `diagnostic` is the codec's
    /// account of it.
    Inflate { path: String, diagnostic: String },
    /// No space byte ends the type tag.
    MissingSpace,
    /// No NUL byte follows the space.
    MissingNul,
    /// The bytes between space and NUL are not a decimal number that fits
    /// the machine; `text` is what stands there.
    InvalidSize { text: String },
    /// The header announces `declared` bytes and `actual` bytes follow it.
    SizeMismatch { declared: usize, actual: usize },
}

/// The mathematical value of an [`ObjectFault`].
pub enum ObjectFaultModel {
    InvalidId { id: Seq<char> },
    Inflate { path: Seq<char>, diagnostic: Seq<char> },
    MissingSpace,
    MissingNul,
    InvalidSize { text: Seq<char> },
    SizeMismatch { declared: nat, actual: nat },
}

impl View for ObjectFault {
    type V = ObjectFaultModel;

    open spec fn view(&self) -> ObjectFaultModel {
        match self {
            ObjectFault::InvalidId { id } => ObjectFaultModel::InvalidId { id: id@ },
            ObjectFault::Inflate { path, diagnostic } => ObjectFaultModel::Inflate {
                path: path@,
                diagnostic: diagnostic@,
            },
            ObjectFault::MissingSpace => ObjectFaultModel::MissingSpace,
            ObjectFault::MissingNul => ObjectFaultModel::MissingNul,
            ObjectFault::InvalidSize { text } => ObjectFaultModel::InvalidSize { text: text@ },
            ObjectFault::SizeMismatch { declared, actual } => ObjectFaultModel::SizeMismatch {
                declared: *declared as nat,
                actual: *actual as nat,
            },
        }
    }
}

/// The one error type of the crate.
#[derive(Clone, Debug, PartialEq, Eq)]
#[allow(inconsistent_fields)]
pub enum Error {
    DirectoryNotFound { path: String },
    FileNotFound { path: String },
    RepositoryAlreadyExists { worktree: String },
    NotADirectory { path: String },
    NotAFile { path: String },
    /// The operating system refused a request; `msg` says what was being
    /// done and `source` is its own account.
    IoError { msg: String, source: String },
    /// The configuration file could not be read or is not well-formed.
    OpenConfigError { config_file: String, source: String },
    ConfigError { fault: ConfigFault },
    GitObjectError { fault: ObjectFault },
    /// The object is well-formed but of a type this store does not handle.
    ObjectUnsupported { object_type: String },
    /// No repository at `path` or above it; `path` is the last directory
    /// that was examined.
    RepositoryNotFound { path: String },
}

/// The mathematical value of an [`Error`].
#[allow(inconsistent_fields)]
pub enum ErrorModel {
    DirectoryNotFound { path: Seq<char> },
    FileNotFound { path: Seq<char> },
    RepositoryAlreadyExists { worktree: Seq<char> },
    NotADirectory { path: Seq<char> },
    NotAFile { path: Seq<char> },
    IoError { msg: Seq<char>, source: Seq<char> },
    OpenConfigError { config_file: Seq<char>, source: Seq<char> },
    ConfigError { fault: ConfigFaultModel },
    GitObjectError { fault: ObjectFaultModel },
    ObjectUnsupported { object_type: Seq<char> },
    RepositoryNotFound { path: Seq<char> },
}

impl View for Error {
    type V = ErrorModel;

    open spec fn view(&self) -> ErrorModel {
        match self {
            Error::DirectoryNotFound { path } => ErrorModel::DirectoryNotFound { path: path@ },
            Error::FileNotFound { path } => ErrorModel::FileNotFound { path: path@ },
            Error::RepositoryAlreadyExists { worktree } => ErrorModel::RepositoryAlreadyExists {
                worktree: worktree@,
            },
            Error::NotADirectory { path } => ErrorModel::NotADirectory { path: path@ },
            Error::NotAFile { path } => ErrorModel::NotAFile { path: path@ },
            Error::IoError { msg, source } => ErrorModel::IoError { msg: msg@, source: source@ },
            Error::OpenConfigError { config_file, source } => ErrorModel::OpenConfigError {
                config_file: config_file@,
                source: source@,
            },
            Error::ConfigError { fault } => ErrorModel::ConfigError { fault: fault@ },
            Error::GitObjectError { fault } => ErrorModel::GitObjectError { fault: fault@ },
            Error::ObjectUnsupported { object_type } => ErrorModel::ObjectUnsupported {
                object_type: object_type@,
            },
            Error::RepositoryNotFound { path } => ErrorModel::RepositoryNotFound { path: path@ },
        }
    }
}

} // verus!
