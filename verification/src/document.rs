//! A month's document on its way through the publish loop: as the store hands
//! it out, and as the loop hands it back with an entry merged in.

use vstd::prelude::*;

use crate::codec::CorruptDocumentError;
use crate::merge::{merge, merged_stored, EntryModel, JournalEntry};

verus! {

/// A document as the store hands it out: the token of its version and its
/// body in the transport encoding.
#[derive(Clone, Debug, PartialEq, Eq)]
pub struct StoredDocument {
    pub token: String,
    pub content: Vec<u8>,
}

/// A stored document as plain values.
pub struct StoredModel {
    pub token: Seq<char>,
    pub content: Seq<u8>,
}

impl View for StoredDocument {
    type V = StoredModel;

    open spec fn view(&self) -> StoredModel {
        StoredModel { token: self.token@, content: self.content@ }
    }
}

/// One month's document as the loop holds it between read and write.
#[derive(Clone, Debug, PartialEq, Eq)]
pub struct JournalDocument {
    /// Where the document lies in the store.
    pub path: Vec<u8>,
    /// The version that was read, which a write must still find; `None`
    /// where there was no document, so that the write creates it.
    pub version_token: Option<String>,
    /// The plain text of the document.
    pub body: Vec<u8>,
}

/// A journal document as plain values.
pub struct DocumentModel {
    pub path: Seq<u8>,
    pub version_token: Option<Seq<char>>,
    pub body: Seq<u8>,
}

impl View for JournalDocument {
    type V = DocumentModel;

    open spec fn view(&self) -> DocumentModel {
        DocumentModel {
            path: self.path@,
            version_token: token_view(self.version_token),
            body: self.body@,
        }
    }
}

/// The view of a version token that may be absent.
pub open spec fn token_view(token: Option<String>) -> Option<Seq<char>> {
    match token {
        Some(text) => Some(text@),
        None => None,
    }
}

/// The view of a stored document that may be absent.
pub open spec fn stored_view(fetched: Option<StoredDocument>) -> Option<StoredModel> {
    match fetched {
        Some(stored) => Some(stored@),
        None => None,
    }
}

/// The stored text of a document that may be absent.
pub open spec fn content_of(fetched: Option<StoredModel>) -> Option<Seq<u8>> {
    match fetched {
        Some(stored) => Some(stored.content),
        None => None,
    }
}

/// The version token of a document that may be absent.
pub open spec fn token_of(fetched: Option<StoredModel>) -> Option<Seq<char>> {
    match fetched {
        Some(stored) => Some(stored.token),
        None => None,
    }
}

/// The document to write after `entry` has joined what a read returned: it
/// lies where the entry's month lies, carries the token that the read
/// returned, and holds the merged text. Where what was read cannot be decoded
/// there is no such document.
pub open spec fn document_with(fetched: Option<StoredModel>, entry: EntryModel) -> Result<
    DocumentModel,
    CorruptDocumentError,
> {
    match merged_stored(content_of(fetched), entry) {
        Ok(body) => Ok(
            DocumentModel {
                path: entry.timestamp.document_path_text(),
                version_token: token_of(fetched),
                body,
            },
        ),
        Err(error) => Err(error),
    }
}

impl JournalDocument {
    /// Merges an entry into what a read returned and makes the document to
    /// write. Fails where what was read cannot be decoded, and only there.
    pub fn with_entry(fetched: Option<StoredDocument>, entry: &JournalEntry) -> (document: Result<
        JournalDocument,
        CorruptDocumentError,
    >)
        ensures
            match document {
                Ok(made) => document_with(stored_view(fetched), entry@) == Ok::<
                    DocumentModel,
                    CorruptDocumentError,
                >(made@),
                Err(_) => document_with(stored_view(fetched), entry@) is Err,
            },
    {
        let path = entry.timestamp.document_path();
        match fetched {
            None => match merge(None, entry) {
                Ok(body) => Ok(JournalDocument { path, version_token: None, body }),
                Err(error) => Err(error),
            },
            Some(stored) => match merge(Some(stored.content.as_slice()), entry) {
                Ok(body) => Ok(JournalDocument { path, version_token: Some(stored.token), body }),
                Err(error) => Err(error),
            },
        }
    }
}

} // verus!
