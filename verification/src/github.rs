//! The contents API of the remote document store, as plain values: where a
//! document lies, what a read and a write send, and how the answers are
//! read.

use vstd::prelude::*;
use vstd::string::*;

use crate::codec::{encode_body, encoded};
use crate::document::{StoredDocument, StoredModel};
use crate::publish::{accepts, Event, EventModel, StateModel};

verus! {

/// The commit message of every write.
pub const COMMIT_MESSAGE: &'static str = "journal: update by telegram bot";

/// What the store answers to a read: the document, or that there is none.
#[derive(Debug)]
pub enum FileContent {
    Found { sha: String, content: String },
    NotFound { message: String, documentation_url: String },
}

/// The body of a conditional write.
#[derive(Debug)]
pub struct UpdateGithubFile {
    pub message: String,
    pub content: String,
    pub sha: Option<String>,
}

/// The address of the document at `path` in the repository `repo`.
pub open spec fn contents_uri_text(repo: Seq<u8>, path: Seq<u8>) -> Seq<u8> {
    "https://api.github.com/repos/".spec_bytes() + repo + "/contents/".spec_bytes() + path
}

/// The address of the document at `path` in the repository `repo`.
pub fn contents_uri(repo: &str, path: &[u8]) -> (uri: Vec<u8>)
    ensures
        uri@ == contents_uri_text(repo.spec_bytes(), path@),
{
    let mut uri: Vec<u8> = Vec::new();
    uri.extend_from_slice("https://api.github.com/repos/".as_bytes());
    uri.extend_from_slice(repo.as_bytes());
    uri.extend_from_slice("/contents/".as_bytes());
    uri.extend_from_slice(path);
    assert(uri@ =~= contents_uri_text(repo.spec_bytes(), path@));
    uri
}

/// The value of the header that carries the access token.
pub fn authorization(token: &str) -> (value: String)
    ensures
        value@ == "Bearer "@ + token@,
{
    let mut value = String::from_str("Bearer ");
    value.append(token);
    value
}

/// What a read that got through means to the publish loop, by the status of
/// the answer and the document in it.
pub open spec fn fetch_outcome_of(status: u16, document: Option<StoredModel>) -> EventModel {
    if status == 404 {
        EventModel::Fetched(None)
    } else if 200 <= status < 300 && document is Some {
        EventModel::Fetched(document)
    } else {
        EventModel::FetchFailed
    }
}

/// What a write that got through means to the publish loop, by the status of
/// the answer: success, a version that is no longer the store's, or a
/// failure to try again.
pub open spec fn write_outcome_of(status: u16) -> EventModel {
    if 200 <= status < 300 {
        EventModel::Written
    } else if status == 409 || status == 422 {
        EventModel::Conflict
    } else {
        EventModel::WriteFailed
    }
}

/// The document in an answer, as plain values.
pub open spec fn document_of(answer: Option<FileContent>) -> Option<StoredModel> {
    match answer {
        Some(FileContent::Found { sha, content }) => Some(
            StoredModel { token: sha@, content: vstd::utf8::encode_utf8(content@) },
        ),
        _ => None,
    }
}

/// Whatever the store answers, the publish loop waits for what is made of
/// it: the outcome of a read is taken while fetching, that of a write while
/// writing.
pub proof fn lemma_outcomes_are_awaited(
    state: StateModel,
    status: u16,
    document: Option<StoredModel>,
)
    ensures
        state is Fetching ==> accepts(state, fetch_outcome_of(status, document)),
        state is Writing ==> accepts(state, write_outcome_of(status)),
{
}

impl FileContent {
    /// The document that the answer carries; `None` where it says that there
    /// is none.
    pub fn into_document(self) -> (document: Option<StoredDocument>)
        ensures
            match document {
                Some(stored) => document_of(Some(self)) == Some(stored@),
                None => self is NotFound,
            },
    {
        match self {
            FileContent::Found { sha, content } => {
                let bytes = content.as_str().as_bytes_vec();
                Some(StoredDocument { token: sha, content: bytes })
            },
            FileContent::NotFound { .. } => None,
        }
    }
}

/// Reads the answer to a read. Status 404 says that there is no document
/// yet. A status of success with a document in it hands the document out.
/// Anything else is a failure to try again.
pub fn fetch_outcome(status: u16, answer: Option<FileContent>) -> (event: Event)
    ensures
        event@ == fetch_outcome_of(status, document_of(answer)),
{
    if status == 404 {
        return Event::Fetched(None);
    }
    if 200 <= status && status < 300 {
        if let Some(content) = answer {
            if let Some(stored) = content.into_document() {
                return Event::Fetched(Some(stored));
            }
        }
    }
    Event::FetchFailed
}

/// Reads the answer to a write. A status of success says that the store
/// took the document. Status 409 says that the version is no longer the
/// store's, and 422 that a document has appeared where none was read. Anything
/// else is a failure to try again.
pub fn write_outcome(status: u16) -> (event: Event)
    ensures
        event@ == write_outcome_of(status),
{
    if 200 <= status && status < 300 {
        Event::Written
    } else if status == 409 || status == 422 {
        Event::Conflict
    } else {
        Event::WriteFailed
    }
}

impl UpdateGithubFile {
    /// The body of the write that replaces the version `sha` by `body`, or
    /// creates the document where `sha` is `None`. `None` where the body is
    /// too long to encode.
    pub fn new(sha: Option<String>, body: &[u8]) -> (request: Option<UpdateGithubFile>)
        ensures
            match request {
                Some(made) => encoded(body@) == Some(made.content@) && made.sha == sha
                    && made.message@ == COMMIT_MESSAGE@,
                None => encoded(body@) is None,
            },
    {
        match encode_body(body) {
            Some(content) => Some(
                UpdateGithubFile { message: String::from_str(COMMIT_MESSAGE), content, sha },
            ),
            None => None,
        }
    }
}

} // verus!
