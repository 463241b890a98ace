//! The life of a document of the editor: new, clean, modified or renamed,
//! and what saving and deleting have to do in each state.

use vstd::prelude::*;

verus! {

/// How a document stands to its file.
#[derive(Debug)]
pub enum DocumentState {
    /// The document has never been saved.
    New,
    /// The file holds what the document holds.
    Clean,
    /// The document has changed since it was saved.
    Modified,
    /// The document has been renamed; the file still has the old path.
    Renamed(String),
}

/// What saving a document has to do.
#[derive(Debug)]
pub enum SavePlan {
    /// Nothing: the file is up to date.
    Nothing,
    /// Delete the file of the old path, if there is one, and write the
    /// document to its path.
    Write { delete: Option<String>, path: String },
}

impl DocumentState {
    /// The state after the document was opened for writing: a clean
    /// document counts as modified, every other state stays.
    pub fn after_write(self) -> (next: DocumentState)
        ensures
            next == match self {
                DocumentState::Clean => DocumentState::Modified,
                other => other,
            },
    {
        match self {
            DocumentState::Clean => DocumentState::Modified,
            other => other,
        }
    }

    /// The state after the document was renamed, where `old_path` is the
    /// path it had before. A new document has no file to remember, and a
    /// document that was renamed before keeps the path of its file.
    pub fn after_rename(self, old_path: String) -> (next: DocumentState)
        ensures
            next == match self {
                DocumentState::New => DocumentState::New,
                DocumentState::Renamed(first) => DocumentState::Renamed(first),
                _ => DocumentState::Renamed(old_path),
            },
    {
        match self {
            DocumentState::New => DocumentState::New,
            DocumentState::Renamed(first) => DocumentState::Renamed(first),
            _ => DocumentState::Renamed(old_path),
        }
    }

    /// What saving has to do for a document whose path is `save_path`.
    /// Once that is done the document is clean.
    pub fn save_plan(&self, save_path: String) -> (plan: SavePlan)
        ensures
            plan == match *self {
                DocumentState::Clean => SavePlan::Nothing,
                DocumentState::Renamed(old_path) => SavePlan::Write {
                    delete: Some(old_path),
                    path: save_path,
                },
                _ => SavePlan::Write { delete: None, path: save_path },
            },
    {
        match self {
            DocumentState::Clean => SavePlan::Nothing,
            DocumentState::Renamed(old_path) => SavePlan::Write {
                delete: Some(old_path.clone()),
                path: save_path,
            },
            _ => SavePlan::Write { delete: None, path: save_path },
        }
    }

    /// The file that deleting the document has to delete, where `save_path`
    /// is the path of the document: none for a new document, the old path
    /// for a renamed one. Once that is done the document is new.
    pub fn delete_plan(&self, save_path: String) -> (path: Option<String>)
        ensures
            path == match *self {
                DocumentState::New => None,
                DocumentState::Renamed(old_path) => Some(old_path),
                _ => Some(save_path),
            },
    {
        match self {
            DocumentState::New => None,
            DocumentState::Renamed(old_path) => Some(old_path.clone()),
            _ => Some(save_path),
        }
    }
}

/// The sign that is shown beside a document in this state.
pub open spec fn indicator(state: DocumentState) -> Seq<char> {
    match state {
        DocumentState::New => "\u{2b55}"@,
        DocumentState::Modified => "\u{2b55}"@,
        DocumentState::Clean => "\u{2705}"@,
        DocumentState::Renamed(_) => "R"@,
    }
}

/// The sign that is shown beside a document: a circle where it has
/// something to save, a tick where it has not, and `R` where it was renamed.
pub fn indicator_for(state: &DocumentState) -> (sign: &'static str)
    ensures
        sign@ == indicator(*state),
{
    match state {
        DocumentState::New => "\u{2b55}",
        DocumentState::Modified => "\u{2b55}",
        DocumentState::Clean => "\u{2705}",
        DocumentState::Renamed(_) => "R",
    }
}

} // verus!
