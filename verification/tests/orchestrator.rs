use telemetry_link::codec::encode_command;
use telemetry_link::codec::encode_reply;
use telemetry_link::error::DecodeError;
use telemetry_link::error::IoError;
use telemetry_link::error::OrchestratorError;
use telemetry_link::error::ProtocolError;
use telemetry_link::error::SessionError;
use telemetry_link::error::StoreError;
use telemetry_link::message::Command;
use telemetry_link::message::LogMessage;
use telemetry_link::message::Reply;
use telemetry_link::orchestrator::Action;
use telemetry_link::orchestrator::Event;
use telemetry_link::orchestrator::Orchestrator;
use telemetry_link::store::StoreRead;

fn frame(reply: Reply) -> Result<Vec<u8>, IoError> {
    Ok(encode_reply(reply))
}

fn mag(n: u32) -> LogMessage {
    LogMessage::Mag { x: n, y: n + 1, z: (n as f32 * 0.5).to_bits() }
}

/// What a scripted driver did during one cycle, and what the scripted
/// store holds afterwards.
struct Trace {
    result: Result<Vec<LogMessage>, OrchestratorError>,
    written: Vec<Vec<u8>>,
    loads: usize,
    stagings: usize,
    promotions: usize,
    document: Option<Vec<LogMessage>>,
}

/// Runs one cycle against a scripted channel and a scripted store. The
/// store holds `document` and answers a staging with `stage` and a
/// promotion with `promote`.
fn drive_store(
    connected: bool,
    replies: Vec<Result<Vec<u8>, IoError>>,
    document: Option<Vec<LogMessage>>,
    stage: Result<(), StoreError>,
    promote: Result<(), StoreError>,
) -> Trace {
    let mut replies = replies.into_iter();
    let mut trace = Trace {
        result: Ok(vec![]),
        written: vec![],
        loads: 0,
        stagings: 0,
        promotions: 0,
        document,
    };
    let mut beside: Option<Vec<LogMessage>> = None;
    let mut cycle = Orchestrator::begin(connected);
    loop {
        match cycle.pending() {
            Action::Exchange(request) => {
                trace.written.push(request);
                let outcome = replies.next().expect("the script is too short");
                cycle = cycle.handle(Event::Exchanged(outcome));
            }
            Action::Load => {
                trace.loads += 1;
                let read = match &trace.document {
                    Some(records) => StoreRead::Records(records.clone()),
                    None => StoreRead::Missing,
                };
                cycle = cycle.handle(Event::Loaded(read));
            }
            Action::Stage(records) => {
                trace.stagings += 1;
                if stage.is_ok() {
                    beside = Some(records);
                }
                cycle = cycle.handle(Event::Staged(stage));
            }
            Action::Promote => {
                trace.promotions += 1;
                if promote.is_ok() {
                    trace.document = beside.take();
                }
                cycle = cycle.handle(Event::Promoted(promote));
            }
            Action::Finish(result) => {
                trace.result = result;
                return trace;
            }
        }
    }
}

fn drive(
    connected: bool,
    replies: Vec<Result<Vec<u8>, IoError>>,
    document: Option<Vec<LogMessage>>,
) -> Trace {
    drive_store(connected, replies, document, Ok(()), Ok(()))
}

#[test]
fn cycle_persists_and_returns_the_old_records_followed_by_the_new() {
    let (a, b, c) = (mag(1), mag(2), mag(3));
    let replies =
        vec![frame(Reply::SendingStarted), frame(Reply::Message(Some(c))), frame(Reply::Message(None))];
    let trace = drive(true, replies, Some(vec![a, b]));
    assert_eq!(trace.result, Ok(vec![a, b, c]));
    assert_eq!(trace.document, Some(vec![a, b, c]));
    assert_eq!((trace.loads, trace.stagings, trace.promotions), (1, 1, 1));
    assert_eq!(
        trace.written,
        vec![
            encode_command(Command::StartSending),
            encode_command(Command::GetMessage),
            encode_command(Command::GetMessage),
        ]
    );
}

#[test]
fn cycle_with_nothing_new_persists_the_old_records_again() {
    let (a, b) = (mag(1), mag(2));
    let replies = vec![frame(Reply::SendingStarted), frame(Reply::Message(None))];
    let trace = drive(true, replies, Some(vec![a, b]));
    assert_eq!(trace.result, Ok(vec![a, b]));
    assert_eq!(trace.document, Some(vec![a, b]));
}

#[test]
fn cycle_treats_a_missing_empty_or_invalid_store_as_empty() {
    let c = mag(7);
    for read in [StoreRead::Missing, StoreRead::Empty, StoreRead::Invalid] {
        let cycle = Orchestrator::begin(true);
        let cycle = cycle.handle(Event::Exchanged(frame(Reply::SendingStarted)));
        let cycle = cycle.handle(Event::Loaded(read));
        let cycle = cycle.handle(Event::Exchanged(frame(Reply::Message(Some(c)))));
        let cycle = cycle.handle(Event::Exchanged(frame(Reply::Message(None))));
        assert_eq!(cycle.pending(), Action::Stage(vec![c]));
        let cycle = cycle.handle(Event::Staged(Ok(())));
        assert_eq!(cycle.pending(), Action::Promote);
        let cycle = cycle.handle(Event::Promoted(Ok(())));
        assert_eq!(cycle.pending(), Action::Finish(Ok(vec![c])));
    }
    let replies =
        vec![frame(Reply::SendingStarted), frame(Reply::Message(Some(c))), frame(Reply::Message(None))];
    let trace = drive(true, replies, None);
    assert_eq!(trace.result, Ok(vec![c]));
    assert_eq!(trace.document, Some(vec![c]));
}

#[test]
fn cycle_without_a_session_fails_and_does_nothing() {
    let trace = drive(false, vec![], Some(vec![mag(1)]));
    assert_eq!(trace.result, Err(OrchestratorError::NotConnected));
    assert!(trace.written.is_empty());
    assert_eq!((trace.loads, trace.stagings, trace.promotions), (0, 0, 0));
    assert_eq!(trace.document, Some(vec![mag(1)]));
}

#[test]
fn handshake_mismatch_aborts_before_any_poll_or_write() {
    let first_replies = vec![Reply::Message(None), Reply::Message(Some(mag(1)))];
    for first in first_replies {
        let replies = vec![frame(first), frame(Reply::SendingStarted), frame(Reply::Message(None))];
        let trace = drive(true, replies, Some(vec![mag(9)]));
        assert_eq!(
            trace.result,
            Err(OrchestratorError::Protocol(ProtocolError::UnexpectedReply))
        );
        assert_eq!(trace.written, vec![encode_command(Command::StartSending)]);
        assert_eq!((trace.loads, trace.stagings, trace.promotions), (0, 0, 0));
        assert_eq!(trace.document, Some(vec![mag(9)]));
    }
}

#[test]
fn handshake_that_does_not_decode_fails_the_cycle() {
    let trace = drive(true, vec![Ok(vec![0x42])], None);
    assert_eq!(
        trace.result,
        Err(OrchestratorError::Session(SessionError::Decode(DecodeError::BadDiscriminant)))
    );
    assert_eq!(trace.written.len(), 1);
    assert_eq!((trace.loads, trace.stagings, trace.promotions), (0, 0, 0));
}

#[test]
fn handshake_io_failure_fails_the_cycle() {
    let trace = drive(true, vec![Err(IoError::Write)], None);
    assert_eq!(trace.result, Err(OrchestratorError::Session(SessionError::Io(IoError::Write))));
    assert_eq!(trace.written.len(), 1);
    assert_eq!((trace.loads, trace.stagings, trace.promotions), (0, 0, 0));
}

#[test]
fn io_failure_while_draining_fails_the_cycle_without_a_write() {
    let replies = vec![
        frame(Reply::SendingStarted),
        frame(Reply::Message(Some(mag(1)))),
        Err(IoError::Timeout),
        frame(Reply::Message(None)),
    ];
    let trace = drive(true, replies, Some(vec![mag(5)]));
    assert_eq!(trace.result, Err(OrchestratorError::Session(SessionError::Io(IoError::Timeout))));
    assert_eq!(trace.written.len(), 3);
    assert_eq!((trace.loads, trace.stagings, trace.promotions), (1, 0, 0));
    assert_eq!(trace.document, Some(vec![mag(5)]));
}

#[test]
fn garbage_while_draining_is_retried() {
    let c = mag(3);
    let replies = vec![
        frame(Reply::SendingStarted),
        Ok(vec![0xde, 0xad]),
        frame(Reply::SendingStarted),
        frame(Reply::Message(Some(c))),
        Ok(vec![]),
        frame(Reply::Message(None)),
    ];
    let trace = drive(true, replies, Some(vec![]));
    assert_eq!(trace.result, Ok(vec![c]));
    assert_eq!(trace.written.len(), 6);
    assert_eq!(trace.document, Some(vec![c]));
}

#[test]
fn a_failed_staging_fails_the_cycle_and_keeps_the_document() {
    let replies =
        vec![frame(Reply::SendingStarted), frame(Reply::Message(Some(mag(2)))), frame(Reply::Message(None))];
    let trace = drive_store(true, replies, Some(vec![mag(1)]), Err(StoreError::Io), Ok(()));
    assert_eq!(trace.result, Err(OrchestratorError::Store(StoreError::Io)));
    assert_eq!((trace.stagings, trace.promotions), (1, 0));
    assert_eq!(trace.document, Some(vec![mag(1)]));
}

#[test]
fn a_failed_promotion_fails_the_cycle_and_keeps_the_document() {
    let replies =
        vec![frame(Reply::SendingStarted), frame(Reply::Message(Some(mag(2)))), frame(Reply::Message(None))];
    let trace = drive_store(true, replies, Some(vec![mag(1)]), Ok(()), Err(StoreError::Io));
    assert_eq!(trace.result, Err(OrchestratorError::Store(StoreError::Io)));
    assert_eq!((trace.stagings, trace.promotions), (1, 1));
    assert_eq!(trace.document, Some(vec![mag(1)]));
}

#[test]
fn an_event_that_answers_nothing_changes_nothing() {
    let cycle = Orchestrator::begin(true);
    let cycle = cycle.handle(Event::Loaded(StoreRead::Records(vec![mag(1)])));
    let cycle = cycle.handle(Event::Staged(Ok(())));
    let cycle = cycle.handle(Event::Promoted(Ok(())));
    assert_eq!(cycle.pending(), Action::Exchange(encode_command(Command::StartSending)));
    let cycle = cycle.handle(Event::Exchanged(frame(Reply::SendingStarted)));
    assert_eq!(cycle.pending(), Action::Load);
    let cycle = cycle.handle(Event::Exchanged(frame(Reply::Message(None))));
    let cycle = cycle.handle(Event::Staged(Err(StoreError::Io)));
    assert_eq!(cycle.pending(), Action::Load);
    let cycle = cycle.handle(Event::Loaded(StoreRead::Records(vec![mag(1)])));
    let cycle = cycle.handle(Event::Loaded(StoreRead::Records(vec![mag(2)])));
    let cycle = cycle.handle(Event::Promoted(Ok(())));
    assert_eq!(cycle.pending(), Action::Exchange(encode_command(Command::GetMessage)));
    let cycle = cycle.handle(Event::Exchanged(frame(Reply::Message(None))));
    assert_eq!(cycle.pending(), Action::Stage(vec![mag(1)]));
    let cycle = cycle.handle(Event::Exchanged(frame(Reply::Message(Some(mag(3))))));
    let cycle = cycle.handle(Event::Loaded(StoreRead::Missing));
    let cycle = cycle.handle(Event::Promoted(Ok(())));
    assert_eq!(cycle.pending(), Action::Stage(vec![mag(1)]));
    let cycle = cycle.handle(Event::Staged(Ok(())));
    assert_eq!(cycle.pending(), Action::Promote);
    let cycle = cycle.handle(Event::Staged(Err(StoreError::Io)));
    let cycle = cycle.handle(Event::Exchanged(Err(IoError::Read)));
    assert_eq!(cycle.pending(), Action::Promote);
    let cycle = cycle.handle(Event::Promoted(Ok(())));
    assert_eq!(cycle.pending(), Action::Finish(Ok(vec![mag(1)])));
}

#[test]
fn a_finished_cycle_stays_finished() {
    let cycle = Orchestrator::begin(false);
    let cycle = cycle.handle(Event::Exchanged(frame(Reply::SendingStarted)));
    let cycle = cycle.handle(Event::Loaded(StoreRead::Empty));
    let cycle = cycle.handle(Event::Staged(Ok(())));
    let cycle = cycle.handle(Event::Promoted(Ok(())));
    assert_eq!(cycle.pending(), Action::Finish(Err(OrchestratorError::NotConnected)));
}
