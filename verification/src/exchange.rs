//! The questions an operation puts to its caller, and the replies it takes.

use vstd::prelude::*;

verus! {

/// What a path names on disk, symbolic links followed.
#[derive(Clone, Copy, Debug, PartialEq, Eq, Structural)]
pub enum EntryKind {
    /// Nothing is there, or it could not be examined.
    Missing,
    Directory,
    File,
    /// Something that is neither a directory nor a regular file.
    Other,
}

/// One thing the caller is asked to do on disk.
#[derive(Clone, Debug, PartialEq, Eq)]
pub enum Query {
    /// Report what `path` names.
    Stat { path: String },
    /// Read the whole file at `path`.
    ReadFile { path: String },
    /// Create the directory `path`; its parent is expected to exist.
    CreateDir { path: String },
    /// Create or replace the file at `path` with `contents`.
    WriteFile { path: String, contents: Vec<u8> },
}

/// The mathematical value of a [`Query`].
pub enum QueryModel {
    Stat { path: Seq<char> },
    ReadFile { path: Seq<char> },
    CreateDir { path: Seq<char> },
    WriteFile { path: Seq<char>, contents: Seq<u8> },
}

impl View for Query {
    type V = QueryModel;

    open spec fn view(&self) -> QueryModel {
        match self {
            Query::Stat { path } => QueryModel::Stat { path: path@ },
            Query::ReadFile { path } => QueryModel::ReadFile { path: path@ },
            Query::CreateDir { path } => QueryModel::CreateDir { path: path@ },
            Query::WriteFile { path, contents } => QueryModel::WriteFile {
                path: path@,
                contents: contents@,
            },
        }
    }
}

impl QueryModel {
    /// Whether carrying out the query can change what is on disk.
    pub open spec fn mutates(self) -> bool {
        self is CreateDir || self is WriteFile
    }
}

/// What the caller found or did in answer to a [`Query`].
#[derive(Clone, Debug, PartialEq, Eq)]
pub enum Reply {
    /// Answers `Stat`.
    Kind(EntryKind),
    /// Answers `ReadFile`: the bytes of the file.
    Contents(Vec<u8>),
    /// Answers `CreateDir` and `WriteFile`: it was done.
    Done,
    /// The operating system refused; the text says why.
    Failed(String),
}

impl Reply {
    /// The kind of entry a reply to `Stat` reports. Any reply that is not a
    /// kind counts as nothing being there.
    pub open spec fn kind(&self) -> EntryKind {
        match self {
            Reply::Kind(kind) => *kind,
            _ => EntryKind::Missing,
        }
    }

    /// Why a request did not succeed, for a reply that is neither `Done` nor
    /// `Contents`: the text of a refusal, and a fixed text for a reply that
    /// does not fit the request.
    pub open spec fn reason(&self) -> Seq<char> {
        match self {
            Reply::Failed(why) => why@,
            _ => "unexpected reply"@,
        }
    }

    /// Computes [`Reply::kind`].
    pub fn entry_kind(&self) -> (kind: EntryKind)
        ensures
            kind == self.kind(),
    {
        match self {
            Reply::Kind(kind) => *kind,
            _ => EntryKind::Missing,
        }
    }

    /// Computes [`Reply::reason`].
    pub fn failure_reason(&self) -> (why: String)
        ensures
            why@ == self.reason(),
    {
        match self {
            Reply::Failed(why) => why.clone(),
            _ => String::from_str("unexpected reply"),
        }
    }
}

/// How far an operation has come: it needs one more thing done, or it has
/// its result.
#[derive(Clone, Debug, PartialEq, Eq)]
pub enum Progress<T> {
    Ask(Query),
    Done(T),
}

/// The mathematical value of a [`Progress`], over the value of its result.
pub enum ProgressModel<T> {
    Ask(QueryModel),
    Done(T),
}

} // verus!
