//! Queries to the gist API of the note viewer, and their answers.

use vstd::prelude::*;
use vstd::string::*;

pub mod detail;
pub mod list;

verus! {

/// The query for the first hundred secret gists of the viewer.
pub const FIRST_GIST_QUERY: &'static str =
    "query {viewer {gists(first: 100,privacy:SECRET) {nodes {isPublic,description,id,name,url}pageInfo {hasNextPage,endCursor}}}}";

/// What stands before the gist's name in the query for its files.
pub const FILE_QUERY_HEAD: &'static str = "{viewer{gist(name: \"";

/// What stands behind the gist's name in the query for its files.
pub const FILE_QUERY_TAIL: &'static str = "\") {files {encodedName,isImage,name,text}}}}";

/// The body of a request to the query API: a query or a mutation.
#[derive(Default, Debug, Clone, PartialEq)]
pub struct Request {
    pub query: Option<String>,
    pub mutation: Option<String>,
}

/// The request for the files of the gist called `name`.
pub fn gist_file_request(name: &str) -> (request: Request)
    ensures
        request.query matches Some(query) && query@ == FILE_QUERY_HEAD@ + name@ + FILE_QUERY_TAIL@,
        request.mutation is None,
{
    let mut query = String::from_str(FILE_QUERY_HEAD);
    query.append(name);
    query.append(FILE_QUERY_TAIL);
    Request { query: Some(query), mutation: None }
}

/// The request for the list of secret gists.
pub fn secret_gist_list_request() -> (request: Request)
    ensures
        request.query matches Some(query) && query@ == FIRST_GIST_QUERY@,
        request.mutation is None,
{
    Request { query: Some(String::from_str(FIRST_GIST_QUERY)), mutation: None }
}

} // verus!
