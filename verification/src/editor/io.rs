//! Files of a project, addressed relative to a root directory.

use vstd::prelude::*;
use vstd::string::StringExecFns;

verus! {

/// Why a file operation of the editor failed.
#[derive(Debug)]
pub enum EditorIoError {
    /// There is no file of this path.
    NotFound(String),
    /// The system refused; the text says why.
    Io(String),
}

/// Why a file operation on a level failed.
#[derive(Debug)]
pub enum MapIoError {
    /// There is no file of this path.
    NotFound(String),
    /// The system refused; the text says why.
    StdIo(String),
}

/// What to do for a directory that must exist, once reading it was tried.
#[derive(Debug)]
pub enum DirectoryStep {
    /// The directory is there.
    Done,
    /// The directory is missing and is to be made.
    Create,
    /// Reading failed for another reason.
    Fail(MapIoError),
}

/// Decides what to do for a directory that must exist from the outcome of
/// reading it: nothing where it could be read, making it where it was not
/// found, and failing with any other error.
pub fn after_read_directory(outcome: Result<(), MapIoError>) -> (step: DirectoryStep)
    ensures
        match outcome {
            Ok(_) => step is Done,
            Err(MapIoError::NotFound(_)) => step is Create,
            Err(MapIoError::StdIo(reason)) => step == DirectoryStep::Fail(
                MapIoError::StdIo(reason),
            ),
        },
{
    match outcome {
        Ok(_) => DirectoryStep::Done,
        Err(MapIoError::NotFound(_)) => DirectoryStep::Create,
        Err(err) => DirectoryStep::Fail(err),
    }
}

/// Files below a root directory.
#[derive(Debug)]
pub struct FileEditorIo {
    root: String,
}

impl FileEditorIo {
    /// The root directory.
    pub closed spec fn root_view(&self) -> Seq<char> {
        self.root@
    }

    /// The files below `root`.
    pub fn new(root: &str) -> (io: Self)
        ensures
            io.root_view() == root@,
    {
        FileEditorIo { root: String::from_str(root) }
    }

    /// The root directory.
    pub fn root(&self) -> (root: &String)
        ensures
            root@ == self.root_view(),
    {
        &self.root
    }
}

} // verus!
