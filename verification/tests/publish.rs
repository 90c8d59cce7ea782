use journal_relay::codec::{decode_body, encode_body};
use journal_relay::document::{JournalDocument, StoredDocument};
use journal_relay::merge::JournalEntry;
use journal_relay::publish::{
    retry_delay, Action, Event, PendingMessage, PublishState, SourceHandle, BASE_DELAY_MS,
    MAX_DELAY_MS,
};

// 2024-03-15T10:00:00Z
const MORNING: i64 = 1710496800;

fn pending(message: i32, text: &str) -> PendingMessage {
    PendingMessage {
        handle: SourceHandle { chat: 42, message },
        entry: JournalEntry::from_message(MORNING, text).unwrap(),
    }
}

fn stored(token: &str, body: &[u8]) -> StoredDocument {
    StoredDocument { token: token.to_string(), content: encode_body(body).unwrap().into_bytes() }
}

fn count(haystack: &[u8], needle: &[u8]) -> usize {
    haystack.windows(needle.len()).filter(|window| *window == needle).count()
}

fn fetching(message: i32, text: &str) -> PublishState {
    let (state, action) = PublishState::new().step(Event::Received(pending(message, text))).unwrap();
    assert_eq!(action, Action::Read { delay: 0 });
    state
}

#[test]
fn the_loop_starts_idle() {
    assert!(matches!(PublishState::new(), PublishState::Idle));
}

#[test]
fn a_received_message_is_fetched_for() {
    let state = fetching(7, "hello");
    match state {
        PublishState::Fetching { message, failures } => {
            assert_eq!(message, pending(7, "hello"));
            assert_eq!(failures, 0);
        }
        other => panic!("unexpected state {:?}", other),
    }
}

#[test]
fn a_missing_document_is_created() {
    let (state, action) = fetching(7, "hello").step(Event::Fetched(None)).unwrap();
    assert_eq!(action, Action::Write { delay: 0 });
    match state {
        PublishState::Writing { message, document, failures } => {
            assert_eq!(message, pending(7, "hello"));
            assert_eq!(
                document,
                JournalDocument {
                    path: b"2024/03.md".to_vec(),
                    version_token: None,
                    body: b"# 2024-03\n## 2024-03-15\n|2024-03-15 18:00:00 Friday|hello|".to_vec(),
                }
            );
            assert_eq!(failures, 0);
        }
        other => panic!("unexpected state {:?}", other),
    }
}

#[test]
fn a_fetched_document_is_merged_and_written_under_its_token() {
    let existing = b"# 2024-03\n## 2024-03-15\n|2024-03-15 09:00:00 Friday|early|";
    let (state, action) =
        fetching(7, "hello").step(Event::Fetched(Some(stored("v1", existing)))).unwrap();
    assert_eq!(action, Action::Write { delay: 0 });
    match state {
        PublishState::Writing { document, .. } => {
            assert_eq!(document.path, b"2024/03.md".to_vec());
            assert_eq!(document.version_token, Some("v1".to_string()));
            assert_eq!(
                document.body,
                b"# 2024-03\n## 2024-03-15\n|2024-03-15 09:00:00 Friday|early|\n|2024-03-15 18:00:00 Friday|hello|"
                    .to_vec()
            );
        }
        other => panic!("unexpected state {:?}", other),
    }
}

#[test]
fn fatal_skip() {
    let corrupt = StoredDocument { token: "v1".to_string(), content: b"%%% no base64 %%%".to_vec() };
    let (state, action) = fetching(7, "hello").step(Event::Fetched(Some(corrupt))).unwrap();
    assert_eq!(action, Action::Skip { handle: SourceHandle { chat: 42, message: 7 } });
    assert!(matches!(state, PublishState::Idle));
    // the loop goes on with the next message
    let (state, action) = state.step(Event::Received(pending(8, "next"))).unwrap();
    assert_eq!(action, Action::Read { delay: 0 });
    assert!(matches!(state, PublishState::Fetching { .. }));
}

#[test]
fn a_failed_read_is_repeated_after_a_growing_wait() {
    let mut state = fetching(7, "hello");
    let mut waits = Vec::new();
    for _ in 0..10 {
        let (next, action) = state.step(Event::FetchFailed).unwrap();
        match action {
            Action::Read { delay } => waits.push(delay),
            other => panic!("unexpected action {:?}", other),
        }
        state = next;
    }
    assert_eq!(waits, vec![500, 1000, 2000, 4000, 8000, 16000, 32000, 60000, 60000, 60000]);
    match state {
        PublishState::Fetching { message, failures } => {
            assert_eq!(message, pending(7, "hello"));
            assert_eq!(failures, 10);
        }
        other => panic!("unexpected state {:?}", other),
    }
}

#[test]
fn a_read_that_succeeds_forgets_the_failures() {
    let (state, _) = fetching(7, "hello").step(Event::FetchFailed).unwrap();
    let (state, _) = state.step(Event::FetchFailed).unwrap();
    let (state, action) = state.step(Event::Fetched(None)).unwrap();
    assert_eq!(action, Action::Write { delay: 0 });
    assert!(matches!(state, PublishState::Writing { failures: 0, .. }));
}

#[test]
fn a_failed_write_is_repeated_as_it_was() {
    let (state, _) = fetching(7, "hello").step(Event::Fetched(Some(stored("v1", b"# 2024-03")))).unwrap();
    let (state, action) = state.step(Event::WriteFailed).unwrap();
    assert_eq!(action, Action::Write { delay: 500 });
    let (state, action) = state.step(Event::WriteFailed).unwrap();
    assert_eq!(action, Action::Write { delay: 1000 });
    match state {
        PublishState::Writing { message, document, failures } => {
            assert_eq!(message, pending(7, "hello"));
            assert_eq!(document.version_token, Some("v1".to_string()));
            assert_eq!(
                document.body,
                b"# 2024-03\n## 2024-03-15\n|2024-03-15 18:00:00 Friday|hello|".to_vec()
            );
            assert_eq!(failures, 2);
        }
        other => panic!("unexpected state {:?}", other),
    }
}

#[test]
fn a_written_document_is_acknowledged() {
    let (state, _) = fetching(7, "hello").step(Event::Fetched(None)).unwrap();
    let (state, action) = state.step(Event::Written).unwrap();
    let handle = SourceHandle { chat: 42, message: 7 };
    assert_eq!(action, Action::Acknowledge { handle, delay: 0 });
    assert!(matches!(state, PublishState::Done { failures: 0, .. }));
    let (state, action) = state.step(Event::AcknowledgeFailed).unwrap();
    assert_eq!(action, Action::Acknowledge { handle, delay: 500 });
    let (state, action) = state.step(Event::AcknowledgeFailed).unwrap();
    assert_eq!(action, Action::Acknowledge { handle, delay: 1000 });
    let (state, action) = state.step(Event::Acknowledged).unwrap();
    assert_eq!(action, Action::Receive);
    assert!(matches!(state, PublishState::Idle));
}

#[test]
fn an_event_that_is_not_waited_for_changes_nothing() {
    let (state, event) = PublishState::new().step(Event::Written).unwrap_err();
    assert!(matches!(state, PublishState::Idle));
    assert!(matches!(event, Event::Written));

    let (state, event) = fetching(7, "hello").step(Event::Received(pending(8, "second"))).unwrap_err();
    match (state, event) {
        (PublishState::Fetching { message, failures: 0 }, Event::Received(back)) => {
            assert_eq!(message, pending(7, "hello"));
            assert_eq!(back, pending(8, "second"));
        }
        other => panic!("unexpected {:?}", other),
    }

    let (state, _) = fetching(7, "hello").step(Event::Fetched(None)).unwrap();
    let (state, event) = state.step(Event::Acknowledged).unwrap_err();
    assert!(matches!(state, PublishState::Writing { .. }));
    assert!(matches!(event, Event::Acknowledged));

    let (state, _) = state.step(Event::Written).unwrap();
    let (state, event) = state.step(Event::Conflict).unwrap_err();
    assert!(matches!(state, PublishState::Done { .. }));
    assert!(matches!(event, Event::Conflict));
}

#[test]
fn the_wait_doubles_up_to_the_longest() {
    assert_eq!(BASE_DELAY_MS, 500);
    assert_eq!(MAX_DELAY_MS, 60000);
    assert_eq!(retry_delay(0), 500);
    assert_eq!(retry_delay(1), 1000);
    assert_eq!(retry_delay(6), 32000);
    assert_eq!(retry_delay(7), 60000);
    assert_eq!(retry_delay(8), 60000);
    assert_eq!(retry_delay(u32::MAX), 60000);
}

#[test]
fn the_failure_count_stops_at_its_limit() {
    let state = PublishState::Done { handle: SourceHandle { chat: 1, message: 2 }, failures: u32::MAX };
    let (state, action) = state.step(Event::AcknowledgeFailed).unwrap();
    assert_eq!(
        action,
        Action::Acknowledge { handle: SourceHandle { chat: 1, message: 2 }, delay: 60000 }
    );
    assert!(matches!(state, PublishState::Done { failures: u32::MAX, .. }));
}

/// A store of one document whose writes are refused as conflicts a given
/// number of times, each time after another writer has added a line.
struct Store {
    document: Option<(u32, Vec<u8>)>,
    conflicts_left: u32,
    reads: u32,
    writes: u32,
}

impl Store {
    fn read(&mut self) -> Event {
        self.reads += 1;
        Event::Fetched(self.document.as_ref().map(|(version, body)| stored(&version.to_string(), body)))
    }

    fn write(&mut self, token: &Option<String>, body: &[u8]) -> Event {
        self.writes += 1;
        if self.conflicts_left > 0 {
            self.conflicts_left -= 1;
            let (version, mut theirs) = self.document.clone().unwrap_or((0, b"# 2024-03".to_vec()));
            theirs.extend_from_slice(b"\n|written by another|");
            self.document = Some((version + 1, theirs));
            return Event::Conflict;
        }
        let held = self.document.as_ref().map(|(version, _)| version.to_string());
        if held != *token {
            return Event::Conflict;
        }
        let version = self.document.as_ref().map(|(version, _)| *version).unwrap_or(0);
        self.document = Some((version + 1, body.to_vec()));
        Event::Written
    }
}

/// Runs the loop for one message against the store and returns the actions
/// in the order in which they were asked for.
fn publish(store: &mut Store, message: PendingMessage) -> Vec<Action> {
    let mut actions = Vec::new();
    let (mut state, mut action) = PublishState::new().step(Event::Received(message)).unwrap();
    loop {
        actions.push(action);
        let event = match (&state, action) {
            (PublishState::Fetching { .. }, Action::Read { .. }) => store.read(),
            (PublishState::Writing { document, .. }, Action::Write { .. }) => {
                store.write(&document.version_token, &document.body)
            }
            (PublishState::Done { .. }, Action::Acknowledge { .. }) => Event::Acknowledged,
            (PublishState::Idle, Action::Receive) | (PublishState::Idle, Action::Skip { .. }) => {
                return actions
            }
            other => panic!("the action does not serve the state: {:?}", other),
        };
        let (next, asked) = state.step(event).unwrap();
        state = next;
        action = asked;
    }
}

#[test]
fn conflict_retry_convergence() {
    let mut store = Store {
        document: Some((1, b"# 2024-03\n## 2024-03-15\n|2024-03-15 09:00:00 Friday|early|".to_vec())),
        conflicts_left: 2,
        reads: 0,
        writes: 0,
    };
    let actions = publish(&mut store, pending(7, "hello"));
    let handle = SourceHandle { chat: 42, message: 7 };
    assert_eq!(
        actions,
        vec![
            Action::Read { delay: 0 },
            Action::Write { delay: 0 },
            Action::Read { delay: 500 },
            Action::Write { delay: 0 },
            Action::Read { delay: 500 },
            Action::Write { delay: 0 },
            Action::Acknowledge { handle, delay: 0 },
            Action::Receive,
        ]
    );
    assert_eq!(store.reads, 3);
    assert_eq!(store.writes, 3);
    let (_, body) = store.document.unwrap();
    assert_eq!(count(&body, b"|2024-03-15 18:00:00 Friday|hello|"), 1);
    assert_eq!(count(&body, b"|written by another|"), 2);
    assert_eq!(
        String::from_utf8(body).unwrap(),
        "# 2024-03\n## 2024-03-15\n|2024-03-15 09:00:00 Friday|early|\n|written by another|\n|written by another|\n|2024-03-15 18:00:00 Friday|hello|"
    );
}

#[test]
fn a_conflict_on_creation_merges_into_what_appeared() {
    let mut store = Store { document: None, conflicts_left: 1, reads: 0, writes: 0 };
    publish(&mut store, pending(7, "hello"));
    let (_, body) = store.document.unwrap();
    assert_eq!(
        String::from_utf8(body).unwrap(),
        "# 2024-03\n|written by another|\n## 2024-03-15\n|2024-03-15 18:00:00 Friday|hello|"
    );
}

#[test]
fn acknowledgment_after_durability_ordering() {
    // every way in which read and write fail before the write succeeds
    let scripts: Vec<Vec<Event>> = vec![
        vec![Event::Fetched(None), Event::Written],
        vec![Event::FetchFailed, Event::Fetched(None), Event::WriteFailed, Event::Written],
        vec![
            Event::Fetched(None),
            Event::Conflict,
            Event::FetchFailed,
            Event::Fetched(Some(stored("v2", b"# 2024-03"))),
            Event::WriteFailed,
            Event::WriteFailed,
            Event::Conflict,
            Event::Fetched(Some(stored("v3", b"# 2024-03\nmore"))),
            Event::Written,
        ],
    ];
    for script in scripts {
        let (mut state, mut action) = PublishState::new().step(Event::Received(pending(7, "hello"))).unwrap();
        let mut written = false;
        for event in script {
            assert!(!matches!(action, Action::Acknowledge { .. }));
            assert!(!written);
            written = matches!(event, Event::Written);
            let (next, asked) = state.step(event).unwrap();
            state = next;
            action = asked;
        }
        assert!(written);
        assert_eq!(
            action,
            Action::Acknowledge { handle: SourceHandle { chat: 42, message: 7 }, delay: 0 }
        );
        assert!(matches!(state, PublishState::Done { .. }));
    }
}

#[test]
fn a_skipped_message_is_never_acknowledged() {
    let corrupt = StoredDocument { token: "v1".to_string(), content: b"****".to_vec() };
    let mut store_hit = false;
    let (state, _) = fetching(7, "hello").step(Event::FetchFailed).unwrap();
    let (state, action) = state.step(Event::Fetched(Some(corrupt))).unwrap();
    if let Action::Write { .. } | Action::Acknowledge { .. } = action {
        store_hit = true;
    }
    assert!(!store_hit);
    assert!(state.step(Event::Acknowledged).is_err());
}

#[test]
fn the_written_body_decodes_to_the_merge() {
    let (state, _) = fetching(7, "hello").step(Event::Fetched(Some(stored("v1", b"# 2024-03")))).unwrap();
    match state {
        PublishState::Writing { document, .. } => {
            let sent = encode_body(&document.body).unwrap();
            assert_eq!(
                decode_body(sent.as_bytes()),
                Ok(b"# 2024-03\n## 2024-03-15\n|2024-03-15 18:00:00 Friday|hello|".to_vec())
            );
        }
        other => panic!("unexpected state {:?}", other),
    }
}

#[test]
fn a_document_is_made_of_what_was_read() {
    let entry = JournalEntry::from_message(MORNING, "hello").unwrap();
    assert_eq!(
        JournalDocument::with_entry(None, &entry),
        Ok(JournalDocument {
            path: b"2024/03.md".to_vec(),
            version_token: None,
            body: b"# 2024-03\n## 2024-03-15\n|2024-03-15 18:00:00 Friday|hello|".to_vec(),
        })
    );
    assert_eq!(
        JournalDocument::with_entry(Some(stored("v9", b"# 2024-03\n## 2024-03-15")), &entry),
        Ok(JournalDocument {
            path: b"2024/03.md".to_vec(),
            version_token: Some("v9".to_string()),
            body: b"# 2024-03\n## 2024-03-15\n|2024-03-15 18:00:00 Friday|hello|".to_vec(),
        })
    );
    let corrupt = StoredDocument { token: "v9".to_string(), content: b"?".to_vec() };
    assert!(JournalDocument::with_entry(Some(corrupt), &entry).is_err());
}
