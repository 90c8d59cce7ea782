//! The answer to a query for the list of secret gists.

use vstd::prelude::*;

verus! {

#[derive(Default, Debug, Clone, PartialEq)]
pub struct Root {
    pub data: Data,
}

#[derive(Default, Debug, Clone, PartialEq)]
pub struct Data {
    pub viewer: Viewer,
}

#[derive(Default, Debug, Clone, PartialEq)]
pub struct Viewer {
    pub gists: Gists,
}

#[derive(Default, Debug, Clone, PartialEq)]
pub struct Gists {
    pub nodes: Vec<Node>,
    pub page_info: PageInfo,
}

/// One gist in the list.
#[derive(Default, Debug, Clone, PartialEq)]
pub struct Node {
    pub is_public: bool,
    pub description: String,
    pub id: String,
    pub name: String,
    pub url: String,
}

#[derive(Default, Debug, Clone, PartialEq)]
pub struct PageInfo {
    pub has_next_page: bool,
    pub end_cursor: String,
}

impl Root {
    /// The gists that the answer carries.
    pub fn into_nodes(self) -> (nodes: Vec<Node>)
        ensures
            nodes == self.data.viewer.gists.nodes,
    {
        self.data.viewer.gists.nodes
    }
}

} // verus!
