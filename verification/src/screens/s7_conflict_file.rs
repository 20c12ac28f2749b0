//! The screen that asks what to do with conflicting files of a sync folder.
use vstd::prelude::*;

use crate::strings;
use crate::text::{SpanModel, Text};

verus! {

/// A conflicting file and where it comes from.
#[derive(Debug)]
pub struct ConflictFileInfo {
    pub path: String,
    pub pattern: Text,
}

#[verifier::ext_equal]
pub struct FileModel {
    pub path: Seq<char>,
    pub pattern: Seq<SpanModel>,
}

impl View for ConflictFileInfo {
    type V = FileModel;

    open spec fn view(&self) -> FileModel {
        FileModel { path: self.path@, pattern: self.pattern@ }
    }
}

#[derive(Debug)]
pub struct State {
    pub files: Vec<ConflictFileInfo>,
    pub remote_hosts: Vec<String>,
}

#[verifier::ext_equal]
pub struct StateModel {
    pub files: Seq<FileModel>,
    pub remote_hosts: Seq<Seq<char>>,
}

/// The files of a list.
pub open spec fn file_models(files: Seq<ConflictFileInfo>) -> Seq<FileModel> {
    Seq::new(files.len(), |i: int| files[i]@)
}

impl View for State {
    type V = StateModel;

    open spec fn view(&self) -> StateModel {
        StateModel {
            files: file_models(self.files@),
            remote_hosts: strings::texts(self.remote_hosts@),
        }
    }
}

/// The keys of the two buttons, by whether the remote hosts are listed.
#[derive(Debug, Clone, Copy, PartialEq, Eq, Structural)]
pub enum Wording {
    WithHosts,
    Short,
}

impl State {
    pub fn new(files: Vec<ConflictFileInfo>, remote_hosts: Vec<String>) -> (res: Self)
        ensures
            res@ == (StateModel {
                files: file_models(files@),
                remote_hosts: strings::texts(remote_hosts@),
            }),
    {
        State { files, remote_hosts }
    }

    /// The remote hosts are listed where there are any; the buttons have short
    /// names where not.
    pub fn shown(&self) -> (res: Wording)
        ensures
            res == (if self@.remote_hosts.len() == 0 {
                Wording::Short
            } else {
                Wording::WithHosts
            }),
    {
        if self.remote_hosts.len() == 0 {
            Wording::Short
        } else {
            Wording::WithHosts
        }
    }
}

} // verus!
