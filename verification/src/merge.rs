//! The merge rule of the journal: how an entry joins the text of its month's
//! document, and what that never changes.

use vstd::prelude::*;
use vstd::string::*;

use crate::calendar::{
    lemma_day_marker_shape, lemma_month_title_shape, lemma_stamp_single_lined, local_time,
    EntryTime, JOURNAL_OFFSET,
};
use crate::codec::{decode_body, decoded, CorruptDocumentError};
use crate::text::{
    contains_line, flatten, flattened, has_line, lemma_flattened_single_lined, lemma_with_line_at,
    lemma_with_line_starts, line_at, line_starts, single_lined, with_line, BAR, LINE_FEED,
};

verus! {

/// One message on its way into the journal.
#[derive(Clone, Debug, PartialEq, Eq)]
pub struct JournalEntry {
    /// When the message was written, not when it is handled.
    pub timestamp: EntryTime,
    /// The message as it came, line feeds and all.
    pub text: Vec<u8>,
}

/// An entry as plain values.
pub struct EntryModel {
    pub timestamp: EntryTime,
    pub text: Seq<u8>,
}

impl View for JournalEntry {
    type V = EntryModel;

    open spec fn view(&self) -> EntryModel {
        EntryModel { timestamp: self.timestamp, text: self.text@ }
    }
}

impl EntryModel {
    /// The line that shows the entry: its time stamp and its text on one
    /// line, between bars.
    pub open spec fn line(&self) -> Seq<u8> {
        seq![BAR] + self.timestamp.stamp_text() + seq![BAR] + flattened(self.text) + seq![BAR]
    }

    /// The line that opens the section of the entry's day.
    pub open spec fn marker(&self) -> Seq<u8> {
        self.timestamp.day_marker_text()
    }
}

/// The document that an entry starts: the month's title, the day's marker and
/// the entry's line.
pub open spec fn fresh_document(entry: EntryModel) -> Seq<u8> {
    with_line(with_line(entry.timestamp.month_title_text(), entry.marker()), entry.line())
}

/// The text of a document after `entry` has joined it. A document that does
/// not exist yet is started. To one that holds the marker of the entry's day
/// as a line, the entry's line is appended; to any other, the marker and then
/// the line.
pub open spec fn merged(existing: Option<Seq<u8>>, entry: EntryModel) -> Seq<u8> {
    match existing {
        None => fresh_document(entry),
        Some(body) => if has_line(body, entry.marker()) {
            with_line(body, entry.line())
        } else {
            with_line(with_line(body, entry.marker()), entry.line())
        },
    }
}

/// What `merged` makes of a document as the store hands it out: the stored
/// text is decoded first, and one that cannot be decoded is corrupt.
pub open spec fn merged_stored(stored: Option<Seq<u8>>, entry: EntryModel) -> Result<
    Seq<u8>,
    CorruptDocumentError,
> {
    match stored {
        None => Ok(merged(None, entry)),
        Some(text) => match decoded(text) {
            Some(body) => Ok(merged(Some(body), entry)),
            None => Err(CorruptDocumentError {  }),
        },
    }
}

/// The line of an entry holds no line feed and begins with a bar.
pub proof fn lemma_line_shape(entry: EntryModel)
    ensures
        single_lined(entry.line()),
        entry.line().len() >= 3,
        entry.line()[0] == BAR,
{
    lemma_stamp_single_lined(entry.timestamp);
    lemma_flattened_single_lined(entry.text);
}

/// Merging only appends: the document that was there stands unchanged at the
/// front of the merged one, and the merged one is longer.
pub proof fn lemma_merge_appends(body: Seq<u8>, entry: EntryModel)
    ensures
        body.is_prefix_of(merged(Some(body), entry)),
        body.len() < merged(Some(body), entry).len(),
{
    let after = merged(Some(body), entry);
    assert(after.subrange(0, body.len() as int) =~= body);
}

/// The same of a document as the store hands it out: where the stored text
/// can be decoded, what it stands for is at the front of the merged document,
/// unchanged.
pub proof fn lemma_stored_merge_appends(stored: Seq<u8>, entry: EntryModel)
    requires
        decoded(stored) is Some,
    ensures
        merged_stored(Some(stored), entry) matches Ok(after) && decoded(stored)->0.is_prefix_of(
            after,
        ) && decoded(stored)->0.len() < after.len(),
{
    lemma_merge_appends(decoded(stored)->0, entry);
}

/// The merged document ends with the entry's line, as a line of its own.
pub proof fn lemma_merge_ends_with_line(existing: Option<Seq<u8>>, entry: EntryModel)
    ensures
        ({
            let after = merged(existing, entry);
            let line = entry.line();
            &&& line_at(after, after.len() - line.len(), line)
            &&& after.len() > line.len()
            &&& after.subrange(0, after.len() - line.len() - 1).push(LINE_FEED) + line == after
        }),
{
    let after = merged(existing, entry);
    let line = entry.line();
    let start = after.len() - line.len();
    assert(after.subrange(start, after.len() as int) =~= line);
    assert(after.subrange(0, start - 1).push(LINE_FEED) + line =~= after);
}

/// Merging adds the entry's line once: it stands as a line of the merged
/// document wherever it stood in the old one, and in one place more, at the
/// end.
pub proof fn lemma_merge_adds_one_line(body: Seq<u8>, entry: EntryModel)
    ensures
        ({
            let after = merged(Some(body), entry);
            let added = after.len() - entry.line().len();
            &&& line_starts(after, entry.line()) == line_starts(body, entry.line()).insert(added)
            &&& !line_starts(body, entry.line()).contains(added)
        }),
{
    let marker = entry.marker();
    let line = entry.line();
    let after = merged(Some(body), entry);
    let added = after.len() - line.len();
    lemma_day_marker_shape(entry.timestamp);
    lemma_line_shape(entry);
    assert(line != marker) by {
        assert(line[0] != marker[0]);
    }
    assert forall|start: int|
        line_starts(after, line).contains(start) <==> (line_starts(body, line).contains(start)
            || start == added) by {
        if has_line(body, marker) {
            lemma_with_line_at(body, line, line, start);
        } else {
            lemma_with_line_at(body, marker, line, start);
            lemma_with_line_at(with_line(body, marker), line, line, start);
        }
    }
    assert(line_starts(after, line) =~= line_starts(body, line).insert(added));
}

/// A document that an entry starts holds the entry's line once, at the end.
pub proof fn lemma_fresh_document_has_one_line(entry: EntryModel)
    ensures
        ({
            let after = merged(None, entry);
            line_starts(after, entry.line()) == set![after.len() - entry.line().len()]
        }),
{
    let title = entry.timestamp.month_title_text();
    let marker = entry.marker();
    let line = entry.line();
    let after = merged(None, entry);
    lemma_day_marker_shape(entry.timestamp);
    lemma_month_title_shape(entry.timestamp);
    lemma_line_shape(entry);
    assert(line != marker) by {
        assert(line[0] != marker[0]);
    }
    assert forall|start: int|
        line_starts(after, line).contains(start) <==> start == after.len() - line.len() by {
        lemma_with_line_at(title, marker, line, start);
        lemma_with_line_at(with_line(title, marker), line, line, start);
        if line_at(title, start, line) {
            if start == 0 {
                assert(title.subrange(0, line.len() as int)[0] == line[0]);
            } else {
                assert(title[start - 1] != LINE_FEED);
            }
        }
    }
    assert(line_starts(after, line) =~= set![after.len() - line.len()]);
}

/// Whatever the document held, the merged one holds the marker of the
/// entry's day as a line.
pub proof fn lemma_merge_has_marker(existing: Option<Seq<u8>>, entry: EntryModel)
    ensures
        has_line(merged(existing, entry), entry.marker()),
{
    let marker = entry.marker();
    let line = entry.line();
    lemma_day_marker_shape(entry.timestamp);
    lemma_line_shape(entry);
    match existing {
        None => {
            let title = entry.timestamp.month_title_text();
            let at = title.len() as int + 1;
            lemma_with_line_at(title, marker, marker, at);
            lemma_with_line_at(with_line(title, marker), line, marker, at);
            assert(line_at(merged(existing, entry), at, marker));
        },
        Some(body) => {
            if has_line(body, marker) {
                let at = choose|start: int| line_at(body, start, marker);
                lemma_with_line_at(body, line, marker, at);
                assert(line_at(merged(existing, entry), at, marker));
            } else {
                let at = body.len() as int + 1;
                lemma_with_line_at(body, marker, marker, at);
                lemma_with_line_at(with_line(body, marker), line, marker, at);
                assert(line_at(merged(existing, entry), at, marker));
            }
        },
    }
}

/// A second entry of the same day, merged into the document that the first
/// one started, adds its own line and nothing else: no marker, and no change
/// to what the first merge wrote.
pub proof fn lemma_second_entry_same_day(first: EntryModel, second: EntryModel)
    requires
        first.timestamp.same_day(second.timestamp),
    ensures
        merged(Some(merged(None, first)), second) == with_line(merged(None, first), second.line()),
        merged(None, first).is_prefix_of(merged(Some(merged(None, first)), second)),
{
    lemma_merge_has_marker(None, first);
    assert(first.marker() == second.marker());
    lemma_merge_appends(merged(None, first), second);
}

/// Where a document holds the marker of the entry's day, merging adds none:
/// the marker stands as a line in the merged document exactly where it stood
/// before.
pub proof fn lemma_same_day_keeps_markers(body: Seq<u8>, entry: EntryModel)
    requires
        has_line(body, entry.marker()),
    ensures
        line_starts(merged(Some(body), entry), entry.marker()) == line_starts(body, entry.marker()),
{
    let marker = entry.marker();
    let line = entry.line();
    lemma_day_marker_shape(entry.timestamp);
    lemma_line_shape(entry);
    lemma_with_line_starts(body, line, marker);
    assert(line != marker) by {
        assert(line[0] != marker[0]);
    }
    assert(line_starts(merged(Some(body), entry), marker) =~= line_starts(body, marker));
}

/// Where a document lacks the marker of the entry's day, merging adds it
/// once: in the merged document the marker stands as a line in one place, on
/// the line after the old text.
pub proof fn lemma_new_day_adds_one_marker(body: Seq<u8>, entry: EntryModel)
    requires
        !has_line(body, entry.marker()),
    ensures
        line_starts(merged(Some(body), entry), entry.marker()) == set![body.len() as int + 1],
{
    let marker = entry.marker();
    let line = entry.line();
    lemma_day_marker_shape(entry.timestamp);
    lemma_line_shape(entry);
    lemma_with_line_starts(body, marker, marker);
    lemma_with_line_starts(with_line(body, marker), line, marker);
    assert(line != marker) by {
        assert(line[0] != marker[0]);
    }
    assert forall|start: int| !line_at(body, start, marker) by {
        if line_at(body, start, marker) {
            assert(has_line(body, marker));
        }
    }
    assert forall|start: int|
        line_starts(merged(Some(body), entry), marker).contains(start) <==> start == body.len()
            + 1 by {
        lemma_with_line_at(body, marker, marker, start);
        lemma_with_line_at(with_line(body, marker), line, marker, start);
    }
    assert(line_starts(merged(Some(body), entry), marker) =~= set![body.len() as int + 1]);
}

/// A document that an entry starts holds the month's title as its first
/// line and the day's marker as its second, once.
pub proof fn lemma_fresh_document_shape(entry: EntryModel)
    ensures
        line_at(fresh_document(entry), 0, entry.timestamp.month_title_text()),
        line_starts(fresh_document(entry), entry.marker()) == set![
            entry.timestamp.month_title_text().len() as int + 1,
        ],
{
    let title = entry.timestamp.month_title_text();
    let marker = entry.marker();
    let line = entry.line();
    lemma_day_marker_shape(entry.timestamp);
    lemma_month_title_shape(entry.timestamp);
    lemma_line_shape(entry);
    lemma_with_line_starts(title, marker, title);
    lemma_with_line_starts(with_line(title, marker), line, title);
    lemma_with_line_starts(title, marker, marker);
    lemma_with_line_starts(with_line(title, marker), line, marker);
    assert(title.subrange(0, title.len() as int) =~= title);
    assert(line_at(title, 0, title));
    assert(line != marker) by {
        assert(line[0] != marker[0]);
    }
    assert forall|start: int| !line_at(title, start, marker) by {
        if line_at(title, start, marker) {
            if start == 0 {
                assert(title.subrange(0, marker.len() as int)[1] == marker[1]);
            } else {
                assert(single_lined(title));
                assert(title[start - 1] != LINE_FEED);
            }
        }
    }
    assert forall|start: int|
        line_starts(fresh_document(entry), marker).contains(start) <==> start == title.len()
            + 1 by {
        lemma_with_line_at(title, marker, marker, start);
        lemma_with_line_at(with_line(title, marker), line, marker, start);
    }
    assert(line_starts(fresh_document(entry), marker) =~= set![title.len() as int + 1]);
}

impl JournalEntry {
    /// Makes an entry of a time and a message.
    pub fn new(timestamp: EntryTime, text: &str) -> (entry: JournalEntry)
        ensures
            entry@ == (EntryModel { timestamp, text: text.spec_bytes() }),
    {
        JournalEntry { timestamp, text: text.as_bytes_vec() }
    }

    /// Makes an entry of a message and the time it was written, in seconds
    /// after the Unix epoch, read on the journal's clock. `None` where the
    /// calendar does not reach that far.
    pub fn from_message(secs: i64, text: &str) -> (entry: Option<JournalEntry>)
        ensures
            match entry {
                Some(made) => local_time(secs as int, JOURNAL_OFFSET as int) == Some(
                    made.timestamp,
                ) && made.text@ == text.spec_bytes() && made.timestamp.well_formed(),
                None => local_time(secs as int, JOURNAL_OFFSET as int) is None,
            },
    {
        match EntryTime::from_timestamp(secs) {
            Some(timestamp) => Some(JournalEntry { timestamp, text: text.as_bytes_vec() }),
            None => None,
        }
    }

    /// The line that shows the entry.
    pub fn line(&self) -> (line: Vec<u8>)
        ensures
            line@ == self@.line(),
    {
        let mut line: Vec<u8> = Vec::new();
        line.push(BAR);
        let stamp = self.timestamp.stamp();
        line.extend_from_slice(stamp.as_slice());
        line.push(BAR);
        let flat = flatten(self.text.as_slice());
        line.extend_from_slice(flat.as_slice());
        line.push(BAR);
        assert(line@ =~= self@.line());
        line
    }
}

/// The view of a text that may be absent.
pub open spec fn text_of(text: Option<&[u8]>) -> Option<Seq<u8>> {
    match text {
        Some(bytes) => Some(bytes@),
        None => None,
    }
}

/// Merges an entry into the plain text of its month's document, or starts the
/// document where there is none.
pub fn merge_text(existing: Option<&[u8]>, entry: &JournalEntry) -> (body: Vec<u8>)
    ensures
        body@ == merged(text_of(existing), entry@),
        existing matches Some(old_body) ==> old_body@.is_prefix_of(body@),
{
    let marker = entry.timestamp.day_marker();
    let line = entry.line();
    let mut body: Vec<u8> = Vec::new();
    match existing {
        None => {
            let title = entry.timestamp.month_title();
            body.extend_from_slice(title.as_slice());
            body.push(LINE_FEED);
            body.extend_from_slice(marker.as_slice());
        },
        Some(old_body) => {
            body.extend_from_slice(old_body);
            if !contains_line(old_body, marker.as_slice()) {
                body.push(LINE_FEED);
                body.extend_from_slice(marker.as_slice());
            }
            proof {
                lemma_merge_appends(old_body@, entry@);
            }
        },
    }
    body.push(LINE_FEED);
    body.extend_from_slice(line.as_slice());
    assert(body@ =~= merged(text_of(existing), entry@));
    body
}

/// Merges an entry into its month's document as the store hands it out, and
/// returns the plain text of the new document. Fails where the stored text
/// cannot be decoded, and only there.
pub fn merge(stored: Option<&[u8]>, entry: &JournalEntry) -> (body: Result<
    Vec<u8>,
    CorruptDocumentError,
>)
    ensures
        match body {
            Ok(bytes) => merged_stored(text_of(stored), entry@) == Ok::<
                Seq<u8>,
                CorruptDocumentError,
            >(bytes@),
            Err(_) => merged_stored(text_of(stored), entry@) is Err,
        },
{
    match stored {
        None => Ok(merge_text(None, entry)),
        Some(text) => match decode_body(text) {
            Ok(old_body) => Ok(merge_text(Some(old_body.as_slice()), entry)),
            Err(error) => Err(error),
        },
    }
}

} // verus!
