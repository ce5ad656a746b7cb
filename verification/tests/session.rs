use telemetry_link::codec::encode_reply;
use telemetry_link::error::DecodeError;
use telemetry_link::error::IoError;
use telemetry_link::error::SessionError;
use telemetry_link::message::LogMessage;
use telemetry_link::message::Reply;
use telemetry_link::session::poll;
use telemetry_link::session::receive;
use telemetry_link::session::replay;
use telemetry_link::session::Drain;
use telemetry_link::session::DrainStatus;

fn frame(reply: Reply) -> Result<Vec<u8>, IoError> {
    Ok(encode_reply(reply))
}

fn record(n: u32) -> LogMessage {
    LogMessage::Accel { x: n, y: (n as f32).to_bits(), z: f32::NAN.to_bits() }
}

/// Drives a drain as a driver does: asks for the request, makes the
/// exchange against the script, reports the outcome. Gives the result and
/// the frames that were written.
fn drive(script: Vec<Result<Vec<u8>, IoError>>) -> (Option<Result<Vec<LogMessage>, SessionError>>, Vec<Vec<u8>>) {
    let mut drain = Drain::new();
    let mut written = Vec::new();
    let mut script = script.into_iter();
    while let Some(request) = drain.request() {
        written.push(request);
        match script.next() {
            Some(outcome) => drain.on_exchange(&outcome),
            None => break,
        }
    }
    (drain.into_result(), written)
}

#[test]
fn drain_returns_the_records_in_order_and_stops_at_the_sentinel() {
    let (r1, r2) = (record(1), record(2));
    let script = vec![
        frame(Reply::Message(Some(r1))),
        frame(Reply::Message(Some(r2))),
        frame(Reply::Message(None)),
    ];
    let (result, written) = drive(script.clone());
    assert_eq!(result, Some(Ok(vec![r1, r2])));
    assert_eq!(written, vec![vec![1u8], vec![1u8], vec![1u8]]);
    let (drain, made) = replay(&script);
    assert_eq!(made, 3);
    assert_eq!(drain.into_result(), Some(Ok(vec![r1, r2])));
}

#[test]
fn drain_does_not_ask_again_after_the_sentinel() {
    let script = vec![
        frame(Reply::Message(None)),
        frame(Reply::Message(Some(record(9)))),
        Err(IoError::Read),
    ];
    let (result, written) = drive(script.clone());
    assert_eq!(result, Some(Ok(vec![])));
    assert_eq!(written.len(), 1);
    let (drain, made) = replay(&script);
    assert_eq!(made, 1);
    assert_eq!(drain.status(), DrainStatus::Complete);
    assert_eq!(drain.request(), None);
}

#[test]
fn drain_retries_past_an_undecodable_frame() {
    let script = vec![Ok(vec![0xff, 0xff, 0xff]), frame(Reply::Message(None))];
    let (result, written) = drive(script.clone());
    assert_eq!(result, Some(Ok(vec![])));
    assert_eq!(written, vec![vec![1u8], vec![1u8]]);
    let (_, made) = replay(&script);
    assert_eq!(made, 2);
}

#[test]
fn drain_retries_past_every_kind_of_garbage() {
    let r = record(5);
    let script = vec![
        Ok(vec![]),
        Ok(vec![7]),
        Ok(vec![1, 2]),
        Ok(vec![1, 1, 0, 1, 2]),
        Ok(vec![0x80, 0x80, 0x80, 0x80, 0x80]),
        frame(Reply::Message(Some(r))),
        Ok(vec![1, 1, 9]),
        frame(Reply::Message(None)),
    ];
    let (result, written) = drive(script);
    assert_eq!(result, Some(Ok(vec![r])));
    assert_eq!(written.len(), 8);
}

#[test]
fn drain_aborts_on_an_io_failure_and_does_not_retry() {
    let script = vec![
        frame(Reply::Message(Some(record(1)))),
        Err(IoError::Timeout),
        frame(Reply::Message(Some(record(2)))),
        frame(Reply::Message(None)),
    ];
    let (result, written) = drive(script.clone());
    assert_eq!(result, Some(Err(SessionError::Io(IoError::Timeout))));
    assert_eq!(written.len(), 2);
    let (drain, made) = replay(&script);
    assert_eq!(made, 2);
    assert_eq!(drain.status(), DrainStatus::Aborted(IoError::Timeout));
    assert_eq!(drain.request(), None);
}

#[test]
fn drain_passes_each_kind_of_io_failure_on() {
    for e in [IoError::Open, IoError::Read, IoError::Write, IoError::Timeout] {
        let (result, written) = drive(vec![Err(e)]);
        assert_eq!(result, Some(Err(SessionError::Io(e))));
        assert_eq!(written.len(), 1);
    }
}

#[test]
fn drain_ignores_a_stray_sending_started() {
    let r = record(3);
    let script = vec![
        frame(Reply::SendingStarted),
        frame(Reply::Message(Some(r))),
        frame(Reply::SendingStarted),
        frame(Reply::Message(None)),
    ];
    let (result, written) = drive(script);
    assert_eq!(result, Some(Ok(vec![r])));
    assert_eq!(written.len(), 4);
}

#[test]
fn drain_keeps_duplicates_and_order() {
    let (a, b) = (record(1), record(2));
    let script = vec![
        frame(Reply::Message(Some(b))),
        frame(Reply::Message(Some(a))),
        frame(Reply::Message(Some(b))),
        frame(Reply::Message(None)),
    ];
    let (result, _) = drive(script);
    assert_eq!(result, Some(Ok(vec![b, a, b])));
}

#[test]
fn drain_without_a_sentinel_has_no_result_yet() {
    let script = vec![frame(Reply::Message(Some(record(1)))), Ok(vec![])];
    let (drain, made) = replay(&script);
    assert_eq!(made, 2);
    assert_eq!(drain.status(), DrainStatus::Polling);
    assert_eq!(drain.request(), Some(vec![1u8]));
    assert_eq!(drain.into_result(), None);
    let (fresh, none_made) = replay(&vec![]);
    assert_eq!(none_made, 0);
    assert_eq!(fresh.into_result(), None);
}

#[test]
fn an_ended_drain_takes_nothing_in() {
    let mut drain = Drain::new();
    drain.on_exchange(&frame(Reply::Message(Some(record(1)))));
    drain.on_exchange(&Err(IoError::Write));
    drain.on_exchange(&frame(Reply::Message(Some(record(2)))));
    drain.on_exchange(&frame(Reply::Message(None)));
    assert_eq!(drain.status(), DrainStatus::Aborted(IoError::Write));
    assert_eq!(drain.into_result(), Some(Err(SessionError::Io(IoError::Write))));
}

#[test]
fn poll_appends_only_what_an_exchange_delivers() {
    let mut records = vec![record(1)];
    assert_eq!(poll(&mut records, &frame(Reply::Message(Some(record(2))))), DrainStatus::Polling);
    assert_eq!(records, vec![record(1), record(2)]);
    assert_eq!(poll(&mut records, &Ok(vec![0x55])), DrainStatus::Polling);
    assert_eq!(poll(&mut records, &frame(Reply::SendingStarted)), DrainStatus::Polling);
    assert_eq!(records, vec![record(1), record(2)]);
    assert_eq!(poll(&mut records, &frame(Reply::Message(None))), DrainStatus::Complete);
    assert_eq!(poll(&mut records, &Err(IoError::Read)), DrainStatus::Aborted(IoError::Read));
    assert_eq!(records, vec![record(1), record(2)]);
}

#[test]
fn receive_decodes_what_was_read() {
    assert_eq!(receive(&frame(Reply::SendingStarted)), Ok(Reply::SendingStarted));
    assert_eq!(receive(&frame(Reply::Message(None))), Ok(Reply::Message(None)));
    let r = record(4);
    assert_eq!(receive(&frame(Reply::Message(Some(r)))), Ok(Reply::Message(Some(r))));
}

#[test]
fn receive_tells_channel_failures_from_garbage() {
    assert_eq!(receive(&Err(IoError::Timeout)), Err(SessionError::Io(IoError::Timeout)));
    assert_eq!(receive(&Err(IoError::Write)), Err(SessionError::Io(IoError::Write)));
    assert_eq!(receive(&Ok(vec![])), Err(SessionError::Decode(DecodeError::UnexpectedEnd)));
    assert_eq!(receive(&Ok(vec![4])), Err(SessionError::Decode(DecodeError::BadDiscriminant)));
    assert_eq!(receive(&Ok(vec![1, 3])), Err(SessionError::Decode(DecodeError::BadOption)));
    assert_eq!(
        receive(&Ok(vec![0xff, 0xff, 0xff, 0xff, 0xff])),
        Err(SessionError::Decode(DecodeError::BadVarint))
    );
}
