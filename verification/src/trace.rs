//! Runs of the publish loop: what holds of every sequence of events, however
//! the store and the chat behave.

use vstd::prelude::*;

use crate::codec::CorruptDocumentError;
use crate::document::{document_with, DocumentModel};
use crate::publish::{
    accepts, lemma_backoff_bounds, next, Action, EventModel, SourceHandle, StateModel,
    BASE_DELAY_MS, MAX_DELAY_MS,
};

verus! {

/// The state after one event: the next state where the event is accepted,
/// the same state where it is not.
pub open spec fn advance(state: StateModel, event: EventModel) -> StateModel {
    if accepts(state, event) {
        next(state, event).0
    } else {
        state
    }
}

/// The state that a loop started in `Idle` has reached after `events`.
pub open spec fn state_after(events: Seq<EventModel>) -> StateModel
    decreases events.len(),
{
    if events.len() == 0 {
        StateModel::Idle
    } else {
        advance(state_after(events.drop_last()), events.last())
    }
}

/// The loop has stood in `Done` for `handle` since event `since` was taken,
/// which was the store's word that the document of that message is written.
pub open spec fn written_at(
    events: Seq<EventModel>,
    since: int,
    upto: int,
    handle: SourceHandle,
) -> bool {
    &&& 0 <= since < upto <= events.len()
    &&& events[since] is Written
    &&& state_after(events.take(since)) matches StateModel::Writing { message, .. }
        && message.handle == handle
    &&& forall|k: int|
        since < k <= upto ==> (#[trigger] state_after(events.take(k)) matches StateModel::Done {
            handle: held,
            ..
        } && held == handle)
}

/// The loop has stood in `Writing` with the same message and document since
/// event `since` was taken, which was the store's answer to a read; the
/// document is what that answer makes with the entry merged in.
pub open spec fn fetched_at(events: Seq<EventModel>, since: int, upto: int) -> bool {
    &&& 0 <= since < upto <= events.len()
    &&& events[since] matches EventModel::Fetched(fetched)
    &&& state_after(events.take(since)) matches StateModel::Fetching { message: fetching, .. }
    &&& state_after(events.take(upto)) matches StateModel::Writing { message, document, .. }
    &&& fetching == message
    &&& document_with(fetched, message.entry) == Ok::<DocumentModel, CorruptDocumentError>(
        document,
    )
    &&& forall|k: int|
        since < k <= upto ==> (#[trigger] state_after(events.take(k)) matches StateModel::Writing {
            message: held,
            document: held_document,
            ..
        } && held == message && held_document == document)
}

/// An action is asked for only in the state that it serves: a read in
/// `Fetching`, a write in `Writing`, an acknowledgment in `Done` and for the
/// message that `Done` holds, and the next message is taken only in `Idle`.
pub proof fn lemma_action_serves_state(state: StateModel, event: EventModel)
    requires
        accepts(state, event),
    ensures
        match next(state, event).1 {
            Action::Receive => next(state, event).0 is Idle,
            Action::Skip { .. } => next(state, event).0 is Idle,
            Action::Read { .. } => next(state, event).0 is Fetching,
            Action::Write { .. } => next(state, event).0 is Writing,
            Action::Acknowledge { handle, .. } => next(state, event).0 matches StateModel::Done {
                handle: held,
                ..
            } && held == handle,
        },
{
}

/// A message is acknowledged only after its document is written: the loop
/// enters `Done` on the store's word that the write succeeded and on nothing
/// else, and stays there only while acknowledgments fail.
pub proof fn lemma_done_follows_write(state: StateModel, event: EventModel)
    requires
        accepts(state, event),
        next(state, event).0 is Done,
    ensures
        (state is Writing && event is Written) || (state is Done && !(event is Acknowledged)),
        state matches StateModel::Writing { message, .. } ==> next(state, event).0
            == (StateModel::Done { handle: message.handle, failures: 0 }),
        state matches StateModel::Done { handle, .. } ==> next(state, event).0
            matches StateModel::Done { handle: held, .. } && held == handle,
{
}

/// In every run of the loop, whenever it stands in `Done` for a message, the
/// store has confirmed the write of that message's document earlier in the
/// run, and the loop has been in `Done` for that message ever since.
pub proof fn lemma_done_has_write(events: Seq<EventModel>)
    requires
        state_after(events) is Done,
    ensures
        ({
            let upto = events.len() as int;
            let handle = state_after(events)->Done_handle;
            exists|since: int| written_at(events, since, upto, handle)
        }),
    decreases events.len(),
{
    let handle = state_after(events)->Done_handle;
    let upto = events.len() as int;
    let prior = upto - 1;
    let before = events.drop_last();
    let previous = state_after(before);
    assert(events.take(upto) =~= events);
    assert(events.take(upto - 1) =~= before);
    if accepts(previous, events.last()) {
        lemma_done_follows_write(previous, events.last());
    }
    if previous is Done {
        lemma_done_has_write(before);
        let since = choose|since: int| written_at(before, since, prior, handle);
        assert(before.take(since) =~= events.take(since));
        assert forall|k: int| since < k <= upto implies (#[trigger] state_after(
            events.take(k),
        ) matches StateModel::Done { handle: held, .. } && held == handle) by {
            if k < upto {
                assert(before.take(k) =~= events.take(k));
            }
        }
        assert(written_at(events, since, upto, handle));
    } else {
        assert(written_at(events, prior, upto, handle));
    }
}

/// In every run of the loop, an acknowledgment is asked for only when the
/// store has confirmed the write of that very message's document earlier in
/// the run.
pub proof fn lemma_acknowledge_follows_write(events: Seq<EventModel>, at: int)
    requires
        0 <= at < events.len(),
        accepts(state_after(events.take(at)), events[at]),
        next(state_after(events.take(at)), events[at]).1 is Acknowledge,
    ensures
        ({
            let upto = at + 1;
            let handle = next(state_after(events.take(at)), events[at]).1->Acknowledge_handle;
            exists|since: int| written_at(events, since, upto, handle)
        }),
{
    let state = state_after(events.take(at));
    let event = events[at];
    let handle = next(state, event).1->Acknowledge_handle;
    let run = events.take(at + 1);
    let upto = at + 1;
    lemma_action_serves_state(state, event);
    assert(run.drop_last() =~= events.take(at));
    assert(run.last() == event);
    assert(state_after(run) == next(state, event).0);
    lemma_done_has_write(run);
    let since = choose|since: int| written_at(run, since, upto, handle);
    assert(run.take(since) =~= events.take(since));
    assert forall|k: int| since < k <= at + 1 implies (#[trigger] state_after(
        events.take(k),
    ) matches StateModel::Done { handle: held, .. } && held == handle) by {
        assert(run.take(k) =~= events.take(k));
    }
    assert(written_at(events, since, upto, handle));
}

/// In every run of the loop, whenever it stands in `Writing`, the document
/// it holds is the entry merged once into what the latest read returned,
/// under the token of that same read: nothing of an earlier attempt is kept
/// across a conflict.
pub proof fn lemma_writing_has_fetch(events: Seq<EventModel>)
    requires
        state_after(events) is Writing,
    ensures
        ({
            let upto = events.len() as int;
            exists|since: int| fetched_at(events, since, upto)
        }),
    decreases events.len(),
{
    let upto = events.len() as int;
    let prior = upto - 1;
    let before = events.drop_last();
    let previous = state_after(before);
    assert(events.take(upto) =~= events);
    assert(events.take(upto - 1) =~= before);
    if previous is Writing {
        lemma_writing_has_fetch(before);
        let since = choose|since: int| fetched_at(before, since, prior);
        assert(before.take(since) =~= events.take(since));
        assert(before.take(upto - 1) =~= before);
        assert forall|k: int| since < k <= upto implies (#[trigger] state_after(
            events.take(k),
        ) matches StateModel::Writing { message: held, document: held_document, .. } && held
            == state_after(events)->Writing_message && held_document == state_after(
            events,
        )->Writing_document) by {
            if k < upto {
                assert(before.take(k) =~= events.take(k));
            }
        }
        assert(fetched_at(events, since, upto));
    } else {
        assert(fetched_at(events, prior, upto));
    }
}

/// A conflict sends the loop back to read the document anew for the same
/// message, after at least the shortest wait.
pub proof fn lemma_conflict_fetches_anew(state: StateModel)
    requires
        state is Writing,
    ensures
        accepts(state, EventModel::Conflict),
        next(state, EventModel::Conflict).0 == (StateModel::Fetching {
            message: state->Writing_message,
            failures: 0,
        }),
        next(state, EventModel::Conflict).1 == (Action::Read { delay: BASE_DELAY_MS }),
{
}

/// A document that cannot be decoded ends its message without a write and
/// without an acknowledgment: the message is skipped and the loop is free
/// for the next one.
pub proof fn lemma_corrupt_document_skips(state: StateModel, event: EventModel)
    requires
        state is Fetching,
        event is Fetched,
        document_with(event->Fetched_0, state->Fetching_message.entry) is Err,
    ensures
        accepts(state, event),
        next(state, event).0 is Idle,
        next(state, event).1 == (Action::Skip { handle: state->Fetching_message.handle }),
{
}

/// Work is never repeated at once: whenever an event reports a failure or a
/// conflict, the action that follows waits at least the shortest wait and at
/// most the longest.
pub proof fn lemma_retries_wait(state: StateModel, event: EventModel)
    requires
        accepts(state, event),
        event is FetchFailed || event is WriteFailed || event is AcknowledgeFailed || event
            is Conflict,
    ensures
        match next(state, event).1 {
            Action::Read { delay } => BASE_DELAY_MS <= delay <= MAX_DELAY_MS,
            Action::Write { delay } => BASE_DELAY_MS <= delay <= MAX_DELAY_MS,
            Action::Acknowledge { delay, .. } => BASE_DELAY_MS <= delay <= MAX_DELAY_MS,
            _ => false,
        },
{
    match state {
        StateModel::Fetching { failures, .. } => {
            lemma_backoff_bounds(failures as nat);
        },
        StateModel::Writing { failures, .. } => {
            lemma_backoff_bounds(failures as nat);
        },
        StateModel::Done { failures, .. } => {
            lemma_backoff_bounds(failures as nat);
        },
        _ => {},
    }
}

} // verus!
