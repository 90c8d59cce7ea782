//! The publish loop as a state machine: what the loop does next, given where
//! it stands and what the store, the queue or the chat just answered. The
//! caller performs the action and hands back the answer.

use vstd::prelude::*;

use crate::document::{
    document_with, stored_view, DocumentModel, JournalDocument, StoredDocument, StoredModel,
};
use crate::merge::{EntryModel, JournalEntry};

verus! {

/// The shortest wait before work is repeated, in milliseconds.
pub const BASE_DELAY_MS: u64 = 500;

/// The longest wait before work is repeated, in milliseconds.
pub const MAX_DELAY_MS: u64 = 60000;

/// What the chat needs to find a message again.
#[derive(Clone, Copy, Debug, PartialEq, Eq)]
pub struct SourceHandle {
    pub chat: i64,
    pub message: i32,
}

/// An entry together with the message it came from.
#[derive(Clone, Debug, PartialEq, Eq)]
pub struct PendingMessage {
    pub handle: SourceHandle,
    pub entry: JournalEntry,
}

/// A pending message as plain values.
pub struct PendingModel {
    pub handle: SourceHandle,
    pub entry: EntryModel,
}

impl View for PendingMessage {
    type V = PendingModel;

    open spec fn view(&self) -> PendingModel {
        PendingModel { handle: self.handle, entry: self.entry@ }
    }
}

/// Where the loop stands. Merging is no state of its own: it needs no answer
/// from outside, so it happens within the step that takes the store's answer
/// to a read.
#[derive(Debug)]
pub enum PublishState {
    /// Waiting for the next message of the queue.
    Idle,
    /// Waiting for the store to hand out the month's document.
    Fetching { message: PendingMessage, failures: u32 },
    /// Waiting for the store to take the merged document.
    Writing { message: PendingMessage, document: JournalDocument, failures: u32 },
    /// The document is written; waiting for the chat to acknowledge the
    /// message.
    Done { handle: SourceHandle, failures: u32 },
}

/// A state as plain values.
pub enum StateModel {
    Idle,
    Fetching { message: PendingModel, failures: u32 },
    Writing { message: PendingModel, document: DocumentModel, failures: u32 },
    Done { handle: SourceHandle, failures: u32 },
}

impl View for PublishState {
    type V = StateModel;

    open spec fn view(&self) -> StateModel {
        match *self {
            PublishState::Idle => StateModel::Idle,
            PublishState::Fetching { message, failures } => StateModel::Fetching {
                message: message@,
                failures,
            },
            PublishState::Writing { message, document, failures } => StateModel::Writing {
                message: message@,
                document: document@,
                failures,
            },
            PublishState::Done { handle, failures } => StateModel::Done { handle, failures },
        }
    }
}

/// What came back from outside.
#[derive(Debug)]
pub enum Event {
    /// The queue handed out a message.
    Received(PendingMessage),
    /// The store answered a read: the document, or `None` where there is
    /// none.
    Fetched(Option<StoredDocument>),
    /// A read failed for a passing reason.
    FetchFailed,
    /// The store took the document.
    Written,
    /// The store refused the document: its version is no longer the one that
    /// was read.
    Conflict,
    /// A write failed for a passing reason.
    WriteFailed,
    /// The chat acknowledged the message.
    Acknowledged,
    /// The acknowledgment failed for a passing reason.
    AcknowledgeFailed,
}

/// An event as plain values.
pub enum EventModel {
    Received(PendingModel),
    Fetched(Option<StoredModel>),
    FetchFailed,
    Written,
    Conflict,
    WriteFailed,
    Acknowledged,
    AcknowledgeFailed,
}

impl View for Event {
    type V = EventModel;

    open spec fn view(&self) -> EventModel {
        match *self {
            Event::Received(message) => EventModel::Received(message@),
            Event::Fetched(fetched) => EventModel::Fetched(stored_view(fetched)),
            Event::FetchFailed => EventModel::FetchFailed,
            Event::Written => EventModel::Written,
            Event::Conflict => EventModel::Conflict,
            Event::WriteFailed => EventModel::WriteFailed,
            Event::Acknowledged => EventModel::Acknowledged,
            Event::AcknowledgeFailed => EventModel::AcknowledgeFailed,
        }
    }
}

/// What the caller is to do next. Each action but `Skip` serves the state
/// that comes with it, which holds what the action needs; `delay` is the wait
/// before it, in milliseconds.
#[derive(Clone, Copy, Debug, PartialEq, Eq)]
pub enum Action {
    /// Take the next message from the queue.
    Receive,
    /// Read the document of the message's month.
    Read { delay: u64 },
    /// Write the merged document under the token that was read.
    Write { delay: u64 },
    /// Have the chat acknowledge the message.
    Acknowledge { handle: SourceHandle, delay: u64 },
    /// The document of this message is corrupt: report it, leave the message
    /// unacknowledged, and take the next one from the queue.
    Skip { handle: SourceHandle },
}

/// The wait before work that has failed `failures` times in a row is tried
/// again: it doubles with each failure, from the shortest wait up to the
/// longest.
pub open spec fn backoff(failures: nat) -> nat
    decreases failures,
{
    if failures == 0 {
        BASE_DELAY_MS as nat
    } else if 2 * backoff((failures - 1) as nat) >= MAX_DELAY_MS {
        MAX_DELAY_MS as nat
    } else {
        2 * backoff((failures - 1) as nat)
    }
}

/// One failure more, as far as the counter reaches.
pub open spec fn one_more(failures: u32) -> u32 {
    if failures < u32::MAX {
        (failures + 1) as u32
    } else {
        failures
    }
}

/// The wait lies between the shortest and the longest, and never shrinks as
/// failures go on.
pub proof fn lemma_backoff_bounds(failures: nat)
    ensures
        BASE_DELAY_MS <= backoff(failures) <= MAX_DELAY_MS,
        failures > 0 ==> backoff((failures - 1) as nat) <= backoff(failures),
    decreases failures,
{
    if failures > 0 {
        lemma_backoff_bounds((failures - 1) as nat);
    }
}

/// Once the wait has reached the longest, it stays there.
pub proof fn lemma_backoff_capped(reached: nat, later: nat)
    requires
        backoff(reached) == MAX_DELAY_MS,
        reached <= later,
    ensures
        backoff(later) == MAX_DELAY_MS,
    decreases later,
{
    if reached < later {
        lemma_backoff_capped(reached, (later - 1) as nat);
    }
}

/// The wait before work that has failed `failures` times in a row is tried
/// again.
pub fn retry_delay(failures: u32) -> (delay: u64)
    ensures
        delay == backoff(failures as nat),
        BASE_DELAY_MS <= delay <= MAX_DELAY_MS,
{
    let mut delay: u64 = BASE_DELAY_MS;
    let mut counted: u32 = 0;
    while counted < failures && delay < MAX_DELAY_MS
        invariant
            counted <= failures,
            delay == backoff(counted as nat),
            delay <= MAX_DELAY_MS,
        decreases failures - counted,
    {
        if 2 * delay >= MAX_DELAY_MS {
            delay = MAX_DELAY_MS;
        } else {
            delay = 2 * delay;
        }
        counted = counted + 1;
    }
    proof {
        if counted < failures {
            lemma_backoff_capped(counted as nat, failures as nat);
        }
        lemma_backoff_bounds(failures as nat);
    }
    delay
}

/// The event is one that the state waits for.
pub open spec fn accepts(state: StateModel, event: EventModel) -> bool {
    match state {
        StateModel::Idle => event is Received,
        StateModel::Fetching { .. } => event is Fetched || event is FetchFailed,
        StateModel::Writing { .. } => event is Written || event is Conflict || event
            is WriteFailed,
        StateModel::Done { .. } => event is Acknowledged || event is AcknowledgeFailed,
    }
}

/// The state that follows an accepted event, and the action that serves it.
///
/// A received message is fetched for. A fetched document is merged with the
/// entry and written under the token that came with it; one that cannot be
/// decoded ends the message, which is skipped. A conflict goes back to
/// fetching, so that the entry is merged anew into what the store now holds. A
/// written document is acknowledged, and an acknowledged one frees the loop.
/// Work that failed for a passing reason is repeated as it was, after a wait
/// that grows with the failures in a row.
pub open spec fn next(state: StateModel, event: EventModel) -> (StateModel, Action)
    recommends
        accepts(state, event),
{
    match state {
        StateModel::Idle => match event {
            EventModel::Received(message) => (
                StateModel::Fetching { message, failures: 0 },
                Action::Read { delay: 0 },
            ),
            _ => (state, Action::Receive),
        },
        StateModel::Fetching { message, failures } => match event {
            EventModel::Fetched(fetched) => match document_with(fetched, message.entry) {
                Ok(document) => (
                    StateModel::Writing { message, document, failures: 0 },
                    Action::Write { delay: 0 },
                ),
                Err(_) => (StateModel::Idle, Action::Skip { handle: message.handle }),
            },
            _ => (
                StateModel::Fetching { message, failures: one_more(failures) },
                Action::Read { delay: backoff(failures as nat) as u64 },
            ),
        },
        StateModel::Writing { message, document, failures } => match event {
            EventModel::Written => (
                StateModel::Done { handle: message.handle, failures: 0 },
                Action::Acknowledge { handle: message.handle, delay: 0 },
            ),
            EventModel::Conflict => (
                StateModel::Fetching { message, failures: 0 },
                Action::Read { delay: BASE_DELAY_MS },
            ),
            _ => (
                StateModel::Writing { message, document, failures: one_more(failures) },
                Action::Write { delay: backoff(failures as nat) as u64 },
            ),
        },
        StateModel::Done { handle, failures } => match event {
            EventModel::Acknowledged => (StateModel::Idle, Action::Receive),
            _ => (
                StateModel::Done { handle, failures: one_more(failures) },
                Action::Acknowledge { handle, delay: backoff(failures as nat) as u64 },
            ),
        },
    }
}

/// One failure more, as far as the counter reaches.
fn count_failure(failures: u32) -> (counted: u32)
    ensures
        counted == one_more(failures),
{
    if failures < u32::MAX {
        failures + 1
    } else {
        failures
    }
}

impl PublishState {
    /// The state in which the loop starts.
    pub fn new() -> (state: PublishState)
        ensures
            state@ == StateModel::Idle,
    {
        PublishState::Idle
    }

    /// Takes one event. Where the state waits for it, the loop moves on: the
    /// result holds the next state and the action that serves it. Where it
    /// does not, nothing happens, and state and event come back as they
    /// were.
    pub fn step(self, event: Event) -> (moved: Result<
        (PublishState, Action),
        (PublishState, Event),
    >)
        ensures
            match moved {
                Ok((state, action)) => accepts(self@, event@) && (state@, action) == next(
                    self@,
                    event@,
                ),
                Err((state, given)) => !accepts(self@, event@) && state == self && given == event,
            },
    {
        match self {
            PublishState::Idle => match event {
                Event::Received(message) => Ok(
                    (PublishState::Fetching { message, failures: 0 }, Action::Read { delay: 0 }),
                ),
                other => Err((PublishState::Idle, other)),
            },
            PublishState::Fetching { message, failures } => match event {
                Event::Fetched(fetched) => match JournalDocument::with_entry(
                    fetched,
                    &message.entry,
                ) {
                    Ok(document) => Ok(
                        (
                            PublishState::Writing { message, document, failures: 0 },
                            Action::Write { delay: 0 },
                        ),
                    ),
                    Err(_) => Ok((PublishState::Idle, Action::Skip { handle: message.handle })),
                },
                Event::FetchFailed => {
                    let delay = retry_delay(failures);
                    Ok(
                        (
                            PublishState::Fetching { message, failures: count_failure(failures) },
                            Action::Read { delay },
                        ),
                    )
                },
                other => Err((PublishState::Fetching { message, failures }, other)),
            },
            PublishState::Writing { message, document, failures } => match event {
                Event::Written => {
                    let handle = message.handle;
                    Ok(
                        (
                            PublishState::Done { handle, failures: 0 },
                            Action::Acknowledge { handle, delay: 0 },
                        ),
                    )
                },
                Event::Conflict => Ok(
                    (
                        PublishState::Fetching { message, failures: 0 },
                        Action::Read { delay: BASE_DELAY_MS },
                    ),
                ),
                Event::WriteFailed => {
                    let delay = retry_delay(failures);
                    Ok(
                        (
                            PublishState::Writing {
                                message,
                                document,
                                failures: count_failure(failures),
                            },
                            Action::Write { delay },
                        ),
                    )
                },
                other => Err((PublishState::Writing { message, document, failures }, other)),
            },
            PublishState::Done { handle, failures } => match event {
                Event::Acknowledged => Ok((PublishState::Idle, Action::Receive)),
                Event::AcknowledgeFailed => {
                    let delay = retry_delay(failures);
                    Ok(
                        (
                            PublishState::Done { handle, failures: count_failure(failures) },
                            Action::Acknowledge { handle, delay },
                        ),
                    )
                },
                other => Err((PublishState::Done { handle, failures }, other)),
            },
        }
    }
}

} // verus!
