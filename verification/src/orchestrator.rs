//! One whole retrieval cycle as a state machine.
//!
//! A cycle opens with a handshake, reads the persisted collection, drains
//! the device, persists the old records followed by the new ones, and
//! returns what it persisted. The machine performs none of this itself: it
//! names the one [`Action`] that is due, and the driver reports how the
//! action went as an [`Event`].
//!
//! ```text
//! loop {
//!     match cycle.pending() {
//!         Action::Exchange(frame) => cycle = cycle.handle(Event::Exchanged(..)),
//!         Action::Load => cycle = cycle.handle(Event::Loaded(..)),
//!         Action::Stage(records) => cycle = cycle.handle(Event::Staged(..)),
//!         Action::Promote => cycle = cycle.handle(Event::Promoted(..)),
//!         Action::Finish(result) => return result,
//!     }
//! }
//! ```
//!
//! The persisted document is never written in place. The merged collection
//! is first staged, that is written in full beside the document, and the
//! staged copy is then promoted, that is moved over the document. A write
//! that fails half way therefore leaves the previous document as it was.

use vstd::prelude::*;
use crate::codec::command_frame;
use crate::codec::encode_command;
use crate::codec::lemma_reply_round_trip;
use crate::codec::reply_frame;
use crate::error::IoError;
use crate::error::OrchestratorError;
use crate::error::ProtocolError;
use crate::error::SessionError;
use crate::error::StoreError;
use crate::message::Command;
use crate::message::LogMessage;
use crate::message::Reply;
use crate::session::drain_run;
use crate::session::drain_step;
use crate::session::DrainModel;
use crate::session::DrainStatus;
use crate::session::lemma_drain_ends_at_first_stop;
use crate::session::lemma_record_exchanges;
use crate::session::outcome_view;
use crate::session::poll;
use crate::session::receive;
use crate::session::received;
use crate::session::record_exchanges;
use crate::store::copy_records;
use crate::store::load;
use crate::store::loaded;
use crate::store::merge;
use crate::store::StoreRead;

verus! {

/// What the driver is asked to do.
#[derive(Debug, PartialEq, Eq)]
pub enum Action {
    /// Write this frame to the byte channel, then read once, at most
    /// `MAX_FRAME_SIZE` bytes.
    Exchange(Vec<u8>),
    /// Read the persisted record collection.
    Load,
    /// Write these records, in full, beside the persisted document. The
    /// document itself is not touched.
    Stage(Vec<LogMessage>),
    /// Move what was staged over the persisted document.
    Promote,
    /// Nothing more: the cycle is over, with this result.
    Finish(Result<Vec<LogMessage>, OrchestratorError>),
}

/// How an action went.
#[derive(Debug, PartialEq, Eq)]
pub enum Event {
    /// The exchange was made: the bytes read, or the channel failure.
    Exchanged(Result<Vec<u8>, IoError>),
    /// The persisted collection was read.
    Loaded(StoreRead),
    /// The records were staged, or could not be.
    Staged(Result<(), StoreError>),
    /// The staged records were promoted, or could not be.
    Promoted(Result<(), StoreError>),
}

/// An action as specifications see it.
pub enum ActionModel {
    Exchange(Seq<u8>),
    Load,
    Stage(Seq<LogMessage>),
    Promote,
    Finish(Result<Seq<LogMessage>, OrchestratorError>),
}

/// An event as specifications see it. Of a read of the persisted
/// collection only the records that it is taken to hold matter.
pub enum EventModel {
    Exchanged(Result<Seq<u8>, IoError>),
    Loaded(Seq<LogMessage>),
    Staged(Result<(), StoreError>),
    Promoted(Result<(), StoreError>),
}

/// The state of a cycle as specifications see it.
pub enum Cycle {
    /// `StartSending` is due or under way.
    Handshake,
    /// The device has started sending; the persisted collection is to be
    /// read.
    Loading,
    /// The device is being drained.
    Draining { existing: Seq<LogMessage>, drained: Seq<LogMessage> },
    /// The merged collection is to be staged.
    Staging { merged: Seq<LogMessage> },
    /// The merged collection is staged and is to be promoted.
    Promoting { merged: Seq<LogMessage> },
    /// The cycle is over.
    Finished { result: Result<Seq<LogMessage>, OrchestratorError> },
}

impl View for Action {
    type V = ActionModel;

    open spec fn view(&self) -> ActionModel {
        match *self {
            Action::Exchange(frame) => ActionModel::Exchange(frame@),
            Action::Load => ActionModel::Load,
            Action::Stage(records) => ActionModel::Stage(records@),
            Action::Promote => ActionModel::Promote,
            Action::Finish(Ok(records)) => ActionModel::Finish(Ok(records@)),
            Action::Finish(Err(e)) => ActionModel::Finish(Err(e)),
        }
    }
}

impl View for Event {
    type V = EventModel;

    open spec fn view(&self) -> EventModel {
        match *self {
            Event::Exchanged(outcome) => EventModel::Exchanged(outcome_view(outcome)),
            Event::Loaded(read) => EventModel::Loaded(loaded(read)),
            Event::Staged(outcome) => EventModel::Staged(outcome),
            Event::Promoted(outcome) => EventModel::Promoted(outcome),
        }
    }
}

/// The state in which a cycle begins. Without an established session the
/// cycle is over at once, and nothing else is done.
pub open spec fn cycle_start(connected: bool) -> Cycle {
    if connected {
        Cycle::Handshake
    } else {
        Cycle::Finished { result: Err(OrchestratorError::NotConnected) }
    }
}

/// The action that is due in a state.
pub open spec fn cycle_action(c: Cycle) -> ActionModel {
    match c {
        Cycle::Handshake => ActionModel::Exchange(command_frame(Command::StartSending)),
        Cycle::Loading => ActionModel::Load,
        Cycle::Draining { .. } => ActionModel::Exchange(command_frame(Command::GetMessage)),
        Cycle::Staging { merged } => ActionModel::Stage(merged),
        Cycle::Promoting { .. } => ActionModel::Promote,
        Cycle::Finished { result } => ActionModel::Finish(result),
    }
}

/// The state that follows when the handshake exchange ends with `outcome`.
pub open spec fn after_handshake(outcome: Result<Seq<u8>, IoError>) -> Cycle {
    match received(outcome) {
        Ok(Reply::SendingStarted) => Cycle::Loading,
        Ok(_) => Cycle::Finished {
            result: Err(OrchestratorError::Protocol(ProtocolError::UnexpectedReply)),
        },
        Err(e) => Cycle::Finished { result: Err(OrchestratorError::Session(e)) },
    }
}

/// The state that follows when an exchange of the drain ends with
/// `outcome`.
pub open spec fn after_poll(
    existing: Seq<LogMessage>,
    drained: Seq<LogMessage>,
    outcome: Result<Seq<u8>, IoError>,
) -> Cycle {
    let drain = drain_step(DrainModel { records: drained, status: DrainStatus::Polling }, outcome);
    match drain.status {
        DrainStatus::Polling => Cycle::Draining { existing, drained: drain.records },
        DrainStatus::Complete => Cycle::Staging { merged: existing + drain.records },
        DrainStatus::Aborted(e) => Cycle::Finished {
            result: Err(OrchestratorError::Session(SessionError::Io(e))),
        },
    }
}

/// The state that follows `c` on `event`. An event that does not report
/// on the action due in `c` changes nothing.
pub open spec fn cycle_step(c: Cycle, event: EventModel) -> Cycle {
    match (c, event) {
        (Cycle::Handshake, EventModel::Exchanged(outcome)) => after_handshake(outcome),
        (Cycle::Loading, EventModel::Loaded(existing)) => Cycle::Draining {
            existing,
            drained: Seq::empty(),
        },
        (Cycle::Draining { existing, drained }, EventModel::Exchanged(outcome)) => after_poll(
            existing,
            drained,
            outcome,
        ),
        (Cycle::Staging { merged }, EventModel::Staged(Ok(_))) => Cycle::Promoting { merged },
        (Cycle::Staging { .. }, EventModel::Staged(Err(e))) => Cycle::Finished {
            result: Err(OrchestratorError::Store(e)),
        },
        (Cycle::Promoting { merged }, EventModel::Promoted(Ok(_))) => Cycle::Finished {
            result: Ok(merged),
        },
        (Cycle::Promoting { .. }, EventModel::Promoted(Err(e))) => Cycle::Finished {
            result: Err(OrchestratorError::Store(e)),
        },
        _ => c,
    }
}

/// The state of a cycle after the events of `events`, in order.
pub open spec fn cycle_run(c: Cycle, events: Seq<EventModel>) -> Cycle
    decreases events.len(),
{
    if events.len() == 0 {
        c
    } else {
        cycle_step(cycle_run(c, events.drop_last()), events.last())
    }
}

enum State {
    Handshake,
    Loading,
    Draining { existing: Vec<LogMessage>, drained: Vec<LogMessage> },
    Staging { merged: Vec<LogMessage> },
    Promoting { merged: Vec<LogMessage> },
    Finished { result: Result<Vec<LogMessage>, OrchestratorError> },
}

/// A retrieval cycle.
pub struct Orchestrator {
    state: State,
}

impl View for Orchestrator {
    type V = Cycle;

    closed spec fn view(&self) -> Cycle {
        match self.state {
            State::Handshake => Cycle::Handshake,
            State::Loading => Cycle::Loading,
            State::Draining { existing, drained } => Cycle::Draining {
                existing: existing@,
                drained: drained@,
            },
            State::Staging { merged } => Cycle::Staging { merged: merged@ },
            State::Promoting { merged } => Cycle::Promoting { merged: merged@ },
            State::Finished { result: Ok(records) } => Cycle::Finished { result: Ok(records@) },
            State::Finished { result: Err(e) } => Cycle::Finished { result: Err(e) },
        }
    }
}

impl Orchestrator {
    /// Begins a cycle. `connected` says whether a session is established.
    pub fn begin(connected: bool) -> (cycle: Orchestrator)
        ensures
            cycle@ == cycle_start(connected),
    {
        if connected {
            Orchestrator { state: State::Handshake }
        } else {
            Orchestrator { state: State::Finished { result: Err(OrchestratorError::NotConnected) } }
        }
    }

    /// The action that is due.
    pub fn pending(&self) -> (action: Action)
        ensures
            action@ == cycle_action(self@),
    {
        match &self.state {
            State::Handshake => Action::Exchange(encode_command(Command::StartSending)),
            State::Loading => Action::Load,
            State::Draining { .. } => Action::Exchange(encode_command(Command::GetMessage)),
            State::Staging { merged } => Action::Stage(copy_records(merged)),
            State::Promoting { .. } => Action::Promote,
            State::Finished { result: Ok(records) } => Action::Finish(Ok(copy_records(records))),
            State::Finished { result: Err(e) } => Action::Finish(Err(*e)),
        }
    }

    /// Takes in how the pending action went.
    pub fn handle(self, event: Event) -> (next: Orchestrator)
        ensures
            next@ == cycle_step(self@, event@),
    {
        match (self.state, event) {
            (State::Handshake, Event::Exchanged(outcome)) => {
                match receive(&outcome) {
                    Ok(Reply::SendingStarted) => Orchestrator { state: State::Loading },
                    Ok(_) => Orchestrator {
                        state: State::Finished {
                            result: Err(
                                OrchestratorError::Protocol(ProtocolError::UnexpectedReply),
                            ),
                        },
                    },
                    Err(e) => Orchestrator {
                        state: State::Finished { result: Err(OrchestratorError::Session(e)) },
                    },
                }
            },
            (State::Loading, Event::Loaded(read)) => {
                Orchestrator { state: State::Draining { existing: load(read), drained: Vec::new() } }
            },
            (State::Draining { existing, drained }, Event::Exchanged(outcome)) => {
                let mut drained = drained;
                match poll(&mut drained, &outcome) {
                    DrainStatus::Polling => Orchestrator {
                        state: State::Draining { existing, drained },
                    },
                    DrainStatus::Complete => Orchestrator {
                        state: State::Staging { merged: merge(existing, drained) },
                    },
                    DrainStatus::Aborted(e) => Orchestrator {
                        state: State::Finished {
                            result: Err(OrchestratorError::Session(SessionError::Io(e))),
                        },
                    },
                }
            },
            (State::Staging { merged }, Event::Staged(Ok(_))) => {
                Orchestrator { state: State::Promoting { merged } }
            },
            (State::Staging { .. }, Event::Staged(Err(e))) => {
                Orchestrator { state: State::Finished { result: Err(OrchestratorError::Store(e)) } }
            },
            (State::Promoting { merged }, Event::Promoted(Ok(_))) => {
                Orchestrator { state: State::Finished { result: Ok(merged) } }
            },
            (State::Promoting { .. }, Event::Promoted(Err(e))) => {
                Orchestrator { state: State::Finished { result: Err(OrchestratorError::Store(e)) } }
            },
            (state, _) => Orchestrator { state },
        }
    }
}

/// The events that report the exchanges of `script`, in order.
pub open spec fn exchanged(script: Seq<Result<Seq<u8>, IoError>>) -> Seq<EventModel> {
    script.map_values(|outcome: Result<Seq<u8>, IoError>| EventModel::Exchanged(outcome))
}

/// The state of a cycle whose drain stands at `drain`, where the
/// persisted collection held `existing`.
pub open spec fn cycle_of_drain(existing: Seq<LogMessage>, drain: DrainModel) -> Cycle {
    match drain.status {
        DrainStatus::Polling => Cycle::Draining { existing, drained: drain.records },
        DrainStatus::Complete => Cycle::Staging { merged: existing + drain.records },
        DrainStatus::Aborted(e) => Cycle::Finished {
            result: Err(OrchestratorError::Session(SessionError::Io(e))),
        },
    }
}

/// The events of a cycle in which all goes well: the device accepts the
/// handshake, the persisted collection is taken to hold `existing`, and the
/// device hands out `new` record by record and then the sentinel.
pub open spec fn smooth_cycle(existing: Seq<LogMessage>, new: Seq<LogMessage>) -> Seq<EventModel> {
    seq![
        EventModel::Exchanged(Ok(reply_frame(Reply::SendingStarted))),
        EventModel::Loaded(existing),
    ] + exchanged(record_exchanges(new).push(Ok(reply_frame(Reply::Message(None)))))
}

/// Running a cycle through two sequences of events in a row is running it
/// through their concatenation.
pub proof fn lemma_cycle_run_concat(c: Cycle, first: Seq<EventModel>, second: Seq<EventModel>)
    ensures
        cycle_run(c, first + second) == cycle_run(cycle_run(c, first), second),
    decreases second.len(),
{
    if second.len() == 0 {
        assert(first + second =~= first);
    } else {
        assert((first + second).drop_last() =~= first + second.drop_last());
        assert((first + second).last() == second.last());
        lemma_cycle_run_concat(c, first, second.drop_last());
    }
}

/// A cycle that is over stays as it is, whatever is reported to it: the
/// action due is to finish with the same result, never an exchange and
/// never a write.
pub proof fn lemma_finished_cycle_stays(
    result: Result<Seq<LogMessage>, OrchestratorError>,
    events: Seq<EventModel>,
)
    ensures
        cycle_run(Cycle::Finished { result }, events) == (Cycle::Finished { result }),
        cycle_action(cycle_run(Cycle::Finished { result }, events)) == ActionModel::Finish(result),
    decreases events.len(),
{
    if events.len() > 0 {
        lemma_finished_cycle_stays(result, events.drop_last());
    }
}

/// Without an established session a cycle fails with `NotConnected` and
/// never asks for anything else.
pub proof fn lemma_not_connected_does_nothing(events: Seq<EventModel>)
    ensures
        cycle_action(cycle_run(cycle_start(false), events)) == ActionModel::Finish(
            Err(OrchestratorError::NotConnected),
        ),
{
    lemma_finished_cycle_stays(Err(OrchestratorError::NotConnected), events);
}

/// Why a handshake that ended with `outcome` failed: the reply was not
/// `SendingStarted`, or the exchange itself failed.
pub open spec fn handshake_failure(outcome: Result<Seq<u8>, IoError>) -> OrchestratorError {
    match received(outcome) {
        Ok(_) => OrchestratorError::Protocol(ProtocolError::UnexpectedReply),
        Err(e) => OrchestratorError::Session(e),
    }
}

/// Unless the first exchange yields `SendingStarted`, the cycle is over at
/// once, with `UnexpectedReply` when another reply came and with the failure
/// of the exchange otherwise, and stays so whatever is reported later: no
/// `GetMessage` is ever asked for, and nothing is ever staged or promoted.
pub proof fn lemma_handshake_mismatch_aborts(
    outcome: Result<Seq<u8>, IoError>,
    later: Seq<EventModel>,
)
    requires
        received(outcome) != Ok::<Reply, SessionError>(Reply::SendingStarted),
    ensures
        cycle_action(cycle_run(cycle_start(true), seq![EventModel::Exchanged(outcome)] + later))
            == ActionModel::Finish(Err(handshake_failure(outcome))),
{
    let first = seq![EventModel::Exchanged(outcome)];
    assert(first.drop_last() =~= Seq::empty());
    assert(cycle_run(cycle_start(true), first.drop_last()) == cycle_start(true));
    assert(cycle_run(cycle_start(true), first) == after_handshake(outcome));
    lemma_cycle_run_concat(cycle_start(true), first, later);
    lemma_finished_cycle_stays(Err(handshake_failure(outcome)), later);
}

/// While it drains, a cycle moves as the drain moves: it keeps draining
/// while the drain polls, turns to staging the old records followed by
/// the drained ones when the drain completes, and is over with the channel
/// failure when the drain is aborted. Exchanges reported behind that point
/// change nothing.
pub proof fn lemma_cycle_drains_as_drain(
    existing: Seq<LogMessage>,
    drained: Seq<LogMessage>,
    script: Seq<Result<Seq<u8>, IoError>>,
)
    ensures
        cycle_run(Cycle::Draining { existing, drained }, exchanged(script)) == cycle_of_drain(
            existing,
            drain_run(DrainModel { records: drained, status: DrainStatus::Polling }, script),
        ),
    decreases script.len(),
{
    if script.len() > 0 {
        assert(exchanged(script).drop_last() =~= exchanged(script.drop_last()));
        assert(exchanged(script).last() == EventModel::Exchanged(script.last()));
        lemma_cycle_drains_as_drain(existing, drained, script.drop_last());
    }
}

/// In a cycle in which all goes well, the cycle asks to stage the records
/// held before followed by the new ones, in this order, then to promote
/// them, and, once told that they are promoted, finishes with the very same
/// sequence.
pub proof fn lemma_cycle_persists_and_returns_merged(
    existing: Seq<LogMessage>,
    new: Seq<LogMessage>,
)
    ensures
        cycle_action(cycle_run(cycle_start(true), smooth_cycle(existing, new)))
            == ActionModel::Stage(existing + new),
        cycle_action(
            cycle_run(
                cycle_start(true),
                smooth_cycle(existing, new).push(EventModel::Staged(Ok(()))),
            ),
        ) == ActionModel::Promote,
        cycle_action(
            cycle_run(
                cycle_start(true),
                smooth_cycle(existing, new).push(EventModel::Staged(Ok(()))).push(
                    EventModel::Promoted(Ok(())),
                ),
            ),
        ) == ActionModel::Finish(Ok(existing + new)),
{
    let opening = seq![
        EventModel::Exchanged(Ok(reply_frame(Reply::SendingStarted))),
        EventModel::Loaded(existing),
    ];
    let sentinel = Ok::<Seq<u8>, IoError>(reply_frame(Reply::Message(None)));
    let script = record_exchanges(new).push(sentinel);
    let polling = DrainModel { records: Seq::empty(), status: DrainStatus::Polling };

    // The opening: handshake accepted, collection read.
    lemma_reply_round_trip(Reply::SendingStarted, Seq::empty());
    assert(reply_frame(Reply::SendingStarted) + Seq::<u8>::empty() =~= reply_frame(
        Reply::SendingStarted,
    ));
    assert(opening.drop_last() =~= seq![opening[0]]);
    assert(opening.drop_last().drop_last() =~= Seq::empty());
    assert(cycle_run(cycle_start(true), opening.drop_last().drop_last()) == Cycle::Handshake);
    assert(cycle_run(cycle_start(true), opening.drop_last()) == Cycle::Loading);
    assert(cycle_run(cycle_start(true), opening) == (Cycle::Draining {
        existing,
        drained: Seq::empty(),
    }));

    // The drain: every record, then the sentinel.
    lemma_record_exchanges(new);
    lemma_reply_round_trip(Reply::Message(None), Seq::empty());
    assert(reply_frame(Reply::Message(None)) + Seq::<u8>::empty() =~= reply_frame(
        Reply::Message(None),
    ));
    lemma_drain_ends_at_first_stop(polling, record_exchanges(new), sentinel, Seq::empty());
    assert(script + Seq::<Result<Seq<u8>, IoError>>::empty() =~= script);
    assert(polling.records + new =~= new);
    lemma_cycle_drains_as_drain(existing, Seq::empty(), script);
    lemma_cycle_run_concat(cycle_start(true), opening, exchanged(script));
    assert(cycle_run(cycle_start(true), smooth_cycle(existing, new)) == (Cycle::Staging {
        merged: existing + new,
    }));

    // The end: staged, then promoted.
    let staged = smooth_cycle(existing, new).push(EventModel::Staged(Ok(())));
    assert(staged.drop_last() =~= smooth_cycle(existing, new));
    assert(cycle_run(cycle_start(true), staged) == (Cycle::Promoting { merged: existing + new }));
    let promoted = staged.push(EventModel::Promoted(Ok(())));
    assert(promoted.drop_last() =~= staged);
}

/// The persisted document is replaced only by a collection that was
/// staged in full: promotion falls due only when the driver reports that
/// staging succeeded, and it is the merged collection of this cycle that
/// was staged then.
pub proof fn lemma_promotes_only_what_was_staged(c: Cycle, event: EventModel)
    requires
        cycle_action(cycle_step(c, event)) == ActionModel::Promote,
    ensures
        (c is Promoting && cycle_step(c, event) == c) || (c is Staging && event
            == EventModel::Staged(Ok(())) && cycle_action(c) == ActionModel::Stage(
            cycle_step(c, event)->Promoting_merged,
        )),
{
    match (c, event) {
        (Cycle::Handshake, EventModel::Exchanged(outcome)) => {
            assert(!(after_handshake(outcome) is Promoting));
        },
        (Cycle::Draining { existing, drained }, EventModel::Exchanged(outcome)) => {
            assert(!(after_poll(existing, drained, outcome) is Promoting));
        },
        (Cycle::Staging { merged }, EventModel::Staged(Ok(unit))) => {
            assert(unit == ());
        },
        _ => {},
    }
}

/// Once staging or promotion fails, the cycle is over with the store
/// failure, and the document is not asked to be touched again.
pub proof fn lemma_failed_write_ends_the_cycle(
    merged: Seq<LogMessage>,
    e: StoreError,
    later: Seq<EventModel>,
)
    ensures
        cycle_action(
            cycle_run(Cycle::Staging { merged }, seq![EventModel::Staged(Err(e))] + later),
        ) == ActionModel::Finish(Err(OrchestratorError::Store(e))),
        cycle_action(
            cycle_run(Cycle::Promoting { merged }, seq![EventModel::Promoted(Err(e))] + later),
        ) == ActionModel::Finish(Err(OrchestratorError::Store(e))),
{
    let failed_stage = seq![EventModel::Staged(Err(e))];
    assert(failed_stage.drop_last() =~= Seq::empty());
    assert(cycle_run(Cycle::Staging { merged }, failed_stage.drop_last()) == (Cycle::Staging {
        merged,
    }));
    lemma_cycle_run_concat(Cycle::Staging { merged }, failed_stage, later);
    let failed_promotion = seq![EventModel::Promoted(Err(e))];
    assert(failed_promotion.drop_last() =~= Seq::empty());
    assert(cycle_run(Cycle::Promoting { merged }, failed_promotion.drop_last()) == (
    Cycle::Promoting { merged }));
    lemma_cycle_run_concat(Cycle::Promoting { merged }, failed_promotion, later);
    lemma_finished_cycle_stays(Err(OrchestratorError::Store(e)), later);
}

} // verus!
