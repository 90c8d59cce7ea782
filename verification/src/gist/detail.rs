//! The answer to a query for the files of one gist.

use vstd::prelude::*;

verus! {

#[derive(Default, Debug, Clone, PartialEq)]
pub struct Root {
    pub data: Data,
}

#[derive(Default, Debug, Clone, PartialEq)]
pub struct Data {
    pub viewer: Viewer,
}

#[derive(Default, Debug, Clone, PartialEq)]
pub struct Viewer {
    pub gist: Gist,
}

#[derive(Default, Debug, Clone, PartialEq)]
pub struct Gist {
    pub files: Vec<File>,
}

/// One file of a gist.
#[derive(Default, Debug, Clone, PartialEq)]
pub struct File {
    pub encoded_name: String,
    pub is_image: bool,
    pub name: String,
    pub text: String,
}

impl Root {
    /// The files that the answer carries.
    pub fn into_files(self) -> (files: Vec<File>)
        ensures
            files == self.data.viewer.gist.files,
    {
        self.data.viewer.gist.files
    }
}

} // verus!
