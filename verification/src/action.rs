//! Changes to the file system that have been decided and not carried out.

use vstd::prelude::*;

verus! {

/// What a `FileAction` stands for in contracts.
pub enum FileActionView {
    CreateDirAll { path: Seq<char> },
    WriteFile { path: Seq<char>, contents: Seq<char> },
    RemoveFile { path: Seq<char> },
}

/// One change to the file system. The adapter returns it; carrying it out,
/// and failing where it cannot be carried out, is left to the caller.
#[derive(Clone, Debug, PartialEq, Eq)]
pub enum FileAction {
    /// Make sure that the directory `path` exists, with every directory above
    /// it that is missing.
    CreateDirAll { path: String },
    /// Create the file `path` with `contents`, or replace what it holds.
    WriteFile { path: String, contents: String },
    /// Remove the file `path`; a file that is not there is an error.
    RemoveFile { path: String },
}

impl FileActionView {
    /// The directory or file that the action is about.
    pub open spec fn path(self) -> Seq<char> {
        match self {
            FileActionView::CreateDirAll { path } => path,
            FileActionView::WriteFile { path, contents } => path,
            FileActionView::RemoveFile { path } => path,
        }
    }
}

impl View for FileAction {
    type V = FileActionView;

    open spec fn view(&self) -> FileActionView {
        match self {
            FileAction::CreateDirAll { path } => FileActionView::CreateDirAll { path: path@ },
            FileAction::WriteFile { path, contents } => FileActionView::WriteFile {
                path: path@,
                contents: contents@,
            },
            FileAction::RemoveFile { path } => FileActionView::RemoveFile { path: path@ },
        }
    }
}

} // verus!
