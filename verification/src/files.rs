//! What is to be done to the local file system, as a list of steps that the caller carries out in
//! order, stopping at the first that fails.
use vstd::prelude::*;

use crate::path::LocalPath;

verus! {

/// One thing to do to the file system.
#[derive(Debug, PartialEq, Eq)]
pub enum FileStep {
    /// Make the directory, and those above it that are missing.
    CreateDir(LocalPath),
    /// Make the content of the file be this.
    Write { path: LocalPath, content: Vec<u8> },
    /// Let only the owner of the file read and write it.
    Protect(LocalPath),
    /// Give the file another path, in place of what is there.
    Rename { from: LocalPath, to: LocalPath },
    /// Remove the file if it is there.
    RemoveIfPresent(LocalPath),
    /// Decrypt a downloaded file into another.
    Decrypt { source: LocalPath, destination: LocalPath },
}

/// A step as the bytes of its paths and content.
#[verifier::ext_equal]
pub enum FileStepView {
    CreateDir(Seq<u8>),
    Write { path: Seq<u8>, content: Seq<u8> },
    Protect(Seq<u8>),
    Rename { from: Seq<u8>, to: Seq<u8> },
    RemoveIfPresent(Seq<u8>),
    Decrypt { source: Seq<u8>, destination: Seq<u8> },
}

impl View for FileStep {
    type V = FileStepView;

    open spec fn view(&self) -> FileStepView {
        match *self {
            FileStep::CreateDir(path) => FileStepView::CreateDir(path@),
            FileStep::Write { path, content } => FileStepView::Write {
                path: path@,
                content: content@,
            },
            FileStep::Protect(path) => FileStepView::Protect(path@),
            FileStep::Rename { from, to } => FileStepView::Rename { from: from@, to: to@ },
            FileStep::RemoveIfPresent(path) => FileStepView::RemoveIfPresent(path@),
            FileStep::Decrypt { source, destination } => FileStepView::Decrypt {
                source: source@,
                destination: destination@,
            },
        }
    }
}

/// The views of a list of steps.
pub open spec fn step_views(steps: Seq<FileStep>) -> Seq<FileStepView> {
    steps.map_values(|step: FileStep| step@)
}

} // verus!
