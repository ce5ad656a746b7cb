//! One request/reply exchange, and the polling loop that drains the device.
//!
//! An exchange is performed by the driver: it writes a request frame to the
//! byte channel, reads once, at most [`MAX_FRAME_SIZE`] bytes, and reports
//! what came back or how the channel failed. Everything that is decided
//! about that outcome is decided here.
//!
//! [`MAX_FRAME_SIZE`]: crate::codec::MAX_FRAME_SIZE

use vstd::prelude::*;
use crate::codec::command_frame;
use crate::codec::decode_reply;
use crate::codec::decoded_reply;
use crate::codec::encode_command;
use crate::codec::lemma_reply_round_trip;
use crate::codec::reply_frame;
use crate::error::IoError;
use crate::error::SessionError;
use crate::message::Command;
use crate::message::LogMessage;
use crate::message::Reply;

verus! {

/// The outcome of an exchange as specifications see it: the bytes read, or
/// the failure of the channel.
pub open spec fn outcome_view(outcome: Result<Vec<u8>, IoError>) -> Result<Seq<u8>, IoError> {
    match outcome {
        Ok(bytes) => Ok(bytes@),
        Err(e) => Err(e),
    }
}

/// What an exchange yields: the decoded reply, the channel failure, or the
/// reason why the bytes read are no reply.
pub open spec fn received(outcome: Result<Seq<u8>, IoError>) -> Result<Reply, SessionError> {
    match outcome {
        Err(e) => Err(SessionError::Io(e)),
        Ok(bytes) => match decoded_reply(bytes) {
            Ok(reply) => Ok(reply),
            Err(e) => Err(SessionError::Decode(e)),
        },
    }
}

/// Concludes an exchange: decodes the bytes that were read, and passes a
/// channel failure on.
pub fn receive(outcome: &Result<Vec<u8>, IoError>) -> (r: Result<Reply, SessionError>)
    ensures
        r == received(outcome_view(*outcome)),
{
    match outcome {
        Err(e) => Err(SessionError::Io(*e)),
        Ok(bytes) => match decode_reply(bytes.as_slice()) {
            Ok(reply) => Ok(reply),
            Err(e) => Err(SessionError::Decode(e)),
        },
    }
}

/// Where a drain stands.
#[derive(Clone, Copy, Debug, PartialEq, Eq, Structural)]
pub enum DrainStatus {
    /// More records may follow: the next request is due.
    Polling,
    /// The device sent the end-of-stream sentinel.
    Complete,
    /// The channel failed; the drain was given up.
    Aborted(IoError),
}

/// The state of a drain as specifications see it.
pub struct DrainModel {
    /// The records received so far, in the order of their arrival.
    pub records: Seq<LogMessage>,
    /// Where the drain stands.
    pub status: DrainStatus,
}

/// The state in which every drain begins.
pub open spec fn drain_start() -> DrainModel {
    DrainModel { records: Seq::empty(), status: DrainStatus::Polling }
}

/// The effect of one exchange on a drain.
///
/// While the drain polls: a record is appended; the sentinel completes the
/// drain; a channel failure aborts it; bytes that do not decode, and a reply
/// that is no message, change nothing, so that the same request is made
/// again. A drain that is complete or aborted stays as it is.
pub open spec fn drain_step(m: DrainModel, outcome: Result<Seq<u8>, IoError>) -> DrainModel {
    if m.status != DrainStatus::Polling {
        m
    } else {
        match received(outcome) {
            Err(SessionError::Io(e)) => DrainModel { status: DrainStatus::Aborted(e), ..m },
            Err(SessionError::Decode(_)) => m,
            Ok(Reply::Message(Some(record))) => DrainModel { records: m.records.push(record), ..m },
            Ok(Reply::Message(None)) => DrainModel { status: DrainStatus::Complete, ..m },
            Ok(Reply::SendingStarted) => m,
        }
    }
}

/// The state of a drain after the exchanges of `script`, in order.
pub open spec fn drain_run(m: DrainModel, script: Seq<Result<Seq<u8>, IoError>>) -> DrainModel
    decreases script.len(),
{
    if script.len() == 0 {
        m
    } else {
        drain_step(drain_run(m, script.drop_last()), script.last())
    }
}

/// How many exchanges of `script` a driver performs: those that are due
/// while the drain still polls.
pub open spec fn exchanges_made(m: DrainModel, script: Seq<Result<Seq<u8>, IoError>>) -> nat
    decreases script.len(),
{
    if script.len() == 0 {
        0
    } else if drain_run(m, script.drop_last()).status == DrainStatus::Polling {
        exchanges_made(m, script.drop_last()) + 1
    } else {
        exchanges_made(m, script.drop_last())
    }
}

/// The result of a drain: nothing yet while it polls, the records once it
/// is complete, the channel failure once it is aborted.
pub open spec fn drain_result(m: DrainModel) -> Option<Result<Seq<LogMessage>, SessionError>> {
    match m.status {
        DrainStatus::Polling => None,
        DrainStatus::Complete => Some(Ok(m.records)),
        DrainStatus::Aborted(e) => Some(Err(SessionError::Io(e))),
    }
}

/// Takes in the outcome of one exchange of a polling drain: appends the
/// record that the exchange delivered, if it delivered one, and says where
/// the drain stands now.
pub fn poll(records: &mut Vec<LogMessage>, outcome: &Result<Vec<u8>, IoError>) -> (status:
    DrainStatus)
    ensures
        (DrainModel { records: final(records)@, status }) == drain_step(
            DrainModel { records: old(records)@, status: DrainStatus::Polling },
            outcome_view(*outcome),
        ),
{
    match receive(outcome) {
        Err(SessionError::Io(e)) => DrainStatus::Aborted(e),
        Err(SessionError::Decode(_)) => DrainStatus::Polling,
        Ok(Reply::Message(Some(record))) => {
            records.push(record);
            DrainStatus::Polling
        },
        Ok(Reply::Message(None)) => DrainStatus::Complete,
        Ok(Reply::SendingStarted) => DrainStatus::Polling,
    }
}

/// The polling loop as a state machine: the driver makes the request that
/// [`Drain::request`] hands out, and reports each outcome to
/// [`Drain::on_exchange`], until no request is handed out any more.
pub struct Drain {
    records: Vec<LogMessage>,
    status: DrainStatus,
}

impl View for Drain {
    type V = DrainModel;

    closed spec fn view(&self) -> DrainModel {
        DrainModel { records: self.records@, status: self.status }
    }
}

impl Drain {
    /// A drain that has not made any exchange yet.
    pub fn new() -> (d: Drain)
        ensures
            d@ == drain_start(),
    {
        Drain { records: Vec::new(), status: DrainStatus::Polling }
    }

    /// Where the drain stands.
    pub fn status(&self) -> (s: DrainStatus)
        ensures
            s == self@.status,
    {
        self.status
    }

    /// The frame of the next request, `GetMessage`, while the drain polls;
    /// nothing once the drain is complete or aborted.
    pub fn request(&self) -> (frame: Option<Vec<u8>>)
        ensures
            self@.status == DrainStatus::Polling ==> frame is Some && frame->Some_0@
                == command_frame(Command::GetMessage),
            self@.status != DrainStatus::Polling ==> frame is None,
    {
        match self.status {
            DrainStatus::Polling => Some(encode_command(Command::GetMessage)),
            _ => None,
        }
    }

    /// Takes in the outcome of one exchange.
    pub fn on_exchange(&mut self, outcome: &Result<Vec<u8>, IoError>)
        ensures
            final(self)@ == drain_step(old(self)@, outcome_view(*outcome)),
    {
        match self.status {
            DrainStatus::Polling => {
                self.status = poll(&mut self.records, outcome);
            },
            _ => {},
        }
    }

    /// Ends the drain and hands out its result.
    pub fn into_result(self) -> (r: Option<Result<Vec<LogMessage>, SessionError>>)
        ensures
            match r {
                None => drain_result(self@) is None,
                Some(Ok(records)) => drain_result(self@) == Some(
                    Ok::<Seq<LogMessage>, SessionError>(records@),
                ),
                Some(Err(e)) => drain_result(self@) == Some(Err::<Seq<LogMessage>, SessionError>(e)),
            },
    {
        match self.status {
            DrainStatus::Polling => None,
            DrainStatus::Complete => Some(Ok(self.records)),
            DrainStatus::Aborted(e) => Some(Err(SessionError::Io(e))),
        }
    }
}

/// A recorded sequence of exchange outcomes as specifications see it.
pub open spec fn script_view(script: Seq<Result<Vec<u8>, IoError>>) -> Seq<Result<Seq<u8>, IoError>> {
    script.map_values(|outcome: Result<Vec<u8>, IoError>| outcome_view(outcome))
}

/// Runs a drain against a recorded sequence of exchange outcomes, as a
/// driver would against the device. Gives the drain as it stands after the
/// last outcome, and the number of exchanges that a driver makes: it stops
/// asking once the drain is complete or aborted, so outcomes recorded behind
/// that point are not looked at.
pub fn replay(script: &Vec<Result<Vec<u8>, IoError>>) -> (r: (Drain, usize))
    ensures
        r.0@ == drain_run(drain_start(), script_view(script@)),
        r.1 == exchanges_made(drain_start(), script_view(script@)),
{
    let mut drain = Drain::new();
    let mut made: usize = 0;
    let mut i: usize = 0;
    let ghost whole = script_view(script@);
    assert(whole.take(0) =~= Seq::empty());
    while i < script.len()
        invariant
            i <= script.len(),
            made <= i,
            whole == script_view(script@),
            drain@ == drain_run(drain_start(), whole.take(i as int)),
            made == exchanges_made(drain_start(), whole.take(i as int)),
        decreases script.len() - i,
    {
        proof {
            let next = whole.take(i as int + 1);
            assert(next.drop_last() =~= whole.take(i as int));
            assert(next.last() == outcome_view(script@[i as int]));
        }
        match drain.status() {
            DrainStatus::Polling => {
                made = made + 1;
            },
            _ => {},
        }
        drain.on_exchange(&script[i]);
        i = i + 1;
    }
    assert(whole.take(i as int) =~= whole);
    (drain, made)
}

/// Whether an exchange leaves a polling drain polling: it is neither the
/// sentinel nor a channel failure.
pub open spec fn keeps_polling(outcome: Result<Seq<u8>, IoError>) -> bool {
    match received(outcome) {
        Err(SessionError::Io(_)) => false,
        Ok(Reply::Message(None)) => false,
        _ => true,
    }
}

/// The records that the exchanges of `script` deliver, in order.
pub open spec fn collected(script: Seq<Result<Seq<u8>, IoError>>) -> Seq<LogMessage>
    decreases script.len(),
{
    if script.len() == 0 {
        Seq::empty()
    } else {
        match received(script.last()) {
            Ok(Reply::Message(Some(record))) => collected(script.drop_last()).push(record),
            _ => collected(script.drop_last()),
        }
    }
}

/// The exchanges in which a device hands out `records` one by one, each in
/// its own frame.
pub open spec fn record_exchanges(records: Seq<LogMessage>) -> Seq<Result<Seq<u8>, IoError>> {
    Seq::new(
        records.len(),
        |i: int| Ok::<Seq<u8>, IoError>(reply_frame(Reply::Message(Some(records[i])))),
    )
}

/// A drain that is complete or aborted takes no further exchange in: its
/// state stays, and a driver makes no exchange.
pub proof fn lemma_drain_stays_ended(m: DrainModel, script: Seq<Result<Seq<u8>, IoError>>)
    requires
        m.status != DrainStatus::Polling,
    ensures
        drain_run(m, script) == m,
        exchanges_made(m, script) == 0,
    decreases script.len(),
{
    if script.len() > 0 {
        lemma_drain_stays_ended(m, script.drop_last());
    }
}

/// Running a drain through two scripts in a row is running it through
/// their concatenation.
pub proof fn lemma_drain_run_concat(
    m: DrainModel,
    first: Seq<Result<Seq<u8>, IoError>>,
    second: Seq<Result<Seq<u8>, IoError>>,
)
    ensures
        drain_run(m, first + second) == drain_run(drain_run(m, first), second),
        exchanges_made(m, first + second) == exchanges_made(m, first) + exchanges_made(
            drain_run(m, first),
            second,
        ),
    decreases second.len(),
{
    if second.len() == 0 {
        assert(first + second =~= first);
    } else {
        assert((first + second).drop_last() =~= first + second.drop_last());
        assert((first + second).last() == second.last());
        lemma_drain_run_concat(m, first, second.drop_last());
    }
}

/// While no exchange is the sentinel or a channel failure, a polling drain
/// keeps polling, makes every exchange, and holds the records delivered so
/// far behind those it held before, in the order of their arrival. Frames
/// that do not decode and replies that are no message leave no trace.
pub proof fn lemma_drain_while_polling(m: DrainModel, script: Seq<Result<Seq<u8>, IoError>>)
    requires
        m.status == DrainStatus::Polling,
        forall|i: int| 0 <= i < script.len() ==> keeps_polling(#[trigger] script[i]),
    ensures
        drain_run(m, script) == (DrainModel {
            records: m.records + collected(script),
            status: DrainStatus::Polling,
        }),
        exchanges_made(m, script) == script.len(),
    decreases script.len(),
{
    if script.len() == 0 {
        assert(m.records + collected(script) =~= m.records);
    } else {
        let before = script.drop_last();
        assert forall|i: int| 0 <= i < before.len() implies keeps_polling(#[trigger] before[i]) by {
            assert(before[i] == script[i]);
        }
        lemma_drain_while_polling(m, before);
        assert(keeps_polling(script[script.len() - 1]));
        match received(script.last()) {
            Ok(Reply::Message(Some(record))) => {
                assert((m.records + collected(before)).push(record) =~= m.records + collected(
                    script,
                ));
            },
            _ => {},
        }
    }
}

/// The first sentinel or channel failure ends the drain: the exchanges
/// before it are all made and their records kept in order, the ending
/// exchange is made, and whatever a script holds behind it is never asked
/// for. The sentinel completes the drain; a channel failure aborts it.
pub proof fn lemma_drain_ends_at_first_stop(
    m: DrainModel,
    before: Seq<Result<Seq<u8>, IoError>>,
    stop: Result<Seq<u8>, IoError>,
    after: Seq<Result<Seq<u8>, IoError>>,
)
    requires
        m.status == DrainStatus::Polling,
        forall|i: int| 0 <= i < before.len() ==> keeps_polling(#[trigger] before[i]),
        !keeps_polling(stop),
    ensures
        drain_run(m, before.push(stop) + after).records == m.records + collected(before),
        drain_run(m, before.push(stop) + after).status == match received(stop) {
            Err(SessionError::Io(e)) => DrainStatus::Aborted(e),
            _ => DrainStatus::Complete,
        },
        exchanges_made(m, before.push(stop) + after) == before.len() + 1,
{
    lemma_drain_while_polling(m, before);
    let upto = before.push(stop);
    assert(upto.drop_last() =~= before);
    assert(upto.last() == stop);
    lemma_drain_run_concat(m, upto, after);
    lemma_drain_stays_ended(drain_run(m, upto), after);
}

/// The exchanges that hand out `records` deliver exactly these records, and
/// none of them ends a drain.
pub proof fn lemma_record_exchanges(records: Seq<LogMessage>)
    ensures
        collected(record_exchanges(records)) == records,
        forall|i: int|
            0 <= i < record_exchanges(records).len() ==> keeps_polling(
                #[trigger] record_exchanges(records)[i],
            ),
    decreases records.len(),
{
    let script = record_exchanges(records);
    assert forall|i: int| 0 <= i < script.len() implies keeps_polling(#[trigger] script[i]) by {
        lemma_reply_round_trip(Reply::Message(Some(records[i])), Seq::empty());
        assert(reply_frame(Reply::Message(Some(records[i]))) + Seq::<u8>::empty() =~= reply_frame(
            Reply::Message(Some(records[i])),
        ));
    }
    if records.len() == 0 {
        assert(collected(script) =~= records);
    } else {
        let last = records.last();
        assert(script.drop_last() =~= record_exchanges(records.drop_last()));
        lemma_record_exchanges(records.drop_last());
        lemma_reply_round_trip(Reply::Message(Some(last)), Seq::empty());
        assert(reply_frame(Reply::Message(Some(last))) + Seq::<u8>::empty() =~= reply_frame(
            Reply::Message(Some(last)),
        ));
        assert(received(script.last()) == Ok::<Reply, SessionError>(Reply::Message(Some(last))));
        assert(records.drop_last().push(last) =~= records);
    }
}

/// A device that hands out `records` one by one and then the sentinel is
/// drained in one exchange more than it holds records, and the drain
/// returns the records in the order in which they were sent.
pub proof fn lemma_drain_returns_what_was_sent(records: Seq<LogMessage>)
    ensures
        drain_result(
            drain_run(
                drain_start(),
                record_exchanges(records).push(Ok(reply_frame(Reply::Message(None)))),
            ),
        ) == Some(Ok::<Seq<LogMessage>, SessionError>(records)),
        exchanges_made(
            drain_start(),
            record_exchanges(records).push(Ok(reply_frame(Reply::Message(None)))),
        ) == records.len() + 1,
{
    let sentinel = Ok::<Seq<u8>, IoError>(reply_frame(Reply::Message(None)));
    let before = record_exchanges(records);
    lemma_record_exchanges(records);
    lemma_reply_round_trip(Reply::Message(None), Seq::empty());
    assert(reply_frame(Reply::Message(None)) + Seq::<u8>::empty() =~= reply_frame(
        Reply::Message(None),
    ));
    lemma_drain_ends_at_first_stop(drain_start(), before, sentinel, Seq::empty());
    assert(before.push(sentinel) + Seq::<Result<Seq<u8>, IoError>>::empty() =~= before.push(
        sentinel,
    ));
    assert(drain_start().records + records =~= records);
}

} // verus!
