//! The binary frame format.
//!
//! A frame is a tagged union written without padding: the discriminant of
//! the variant as a variable-length integer, then the fields of the variant
//! in declaration order. An optional value is one marker byte, 0 for absent
//! and 1 for present, followed by the value when present. A reading is the
//! four bytes of its 32-bit pattern, least significant first.
//!
//! A variable-length integer is written seven bits to a byte, least
//! significant group first, with the top bit of a byte set while more bytes
//! follow. Writers always use the shortest form; readers accept every form of
//! at most five bytes that fits 32 bits. A reader looks at no byte behind the
//! end of the frame, so a frame followed by further bytes decodes to the same
//! value as the frame alone.

use vstd::prelude::*;
use crate::error::DecodeError;
use crate::error::EncodeError;
use crate::message::Command;
use crate::message::LogMessage;
use crate::message::Reply;

verus! {

/// The largest number of bytes a frame may occupy on the wire.
pub const MAX_FRAME_SIZE: usize = 32;

/// The four bytes of `v`, least significant first.
pub open spec fn word_bytes(v: u32) -> Seq<u8> {
    seq![
        (v % 256) as u8,
        (v / 256 % 256) as u8,
        (v / 65536 % 256) as u8,
        (v / 16777216) as u8,
    ]
}

/// The word whose four bytes, least significant first, stand at `at`.
pub open spec fn word_at(s: Seq<u8>, at: int) -> u32 {
    (s[at] + 256 * s[at + 1] + 65536 * s[at + 2] + 16777216 * s[at + 3]) as u32
}

/// The discriminant of a command.
pub open spec fn command_tag(c: Command) -> u8 {
    match c {
        Command::StartSending => 0,
        Command::GetMessage => 1,
        Command::SendingCompleted => 2,
    }
}

/// The discriminant of a record.
pub open spec fn record_tag(m: LogMessage) -> u8 {
    match m {
        LogMessage::Accel { .. } => 0,
        LogMessage::Gyro { .. } => 1,
        LogMessage::Mag { .. } => 2,
        LogMessage::Motors { .. } => 3,
        LogMessage::Batt { .. } => 4,
    }
}

/// How many readings the record with discriminant `tag` carries.
pub open spec fn field_count(tag: int) -> int {
    if tag == 3 {
        4
    } else if tag == 4 {
        2
    } else {
        3
    }
}

/// The frame of a command.
pub open spec fn command_frame(c: Command) -> Seq<u8> {
    seq![command_tag(c)]
}

/// The bytes of a record: its discriminant, then its readings.
pub open spec fn record_bytes(m: LogMessage) -> Seq<u8> {
    match m {
        LogMessage::Accel { x, y, z } => seq![0u8] + word_bytes(x) + word_bytes(y) + word_bytes(z),
        LogMessage::Gyro { x, y, z } => seq![1u8] + word_bytes(x) + word_bytes(y) + word_bytes(z),
        LogMessage::Mag { x, y, z } => seq![2u8] + word_bytes(x) + word_bytes(y) + word_bytes(z),
        LogMessage::Motors { m1, m2, m3, m4 } => seq![3u8] + word_bytes(m1) + word_bytes(m2)
            + word_bytes(m3) + word_bytes(m4),
        LogMessage::Batt { v, a } => seq![4u8] + word_bytes(v) + word_bytes(a),
    }
}

/// The frame of a reply.
pub open spec fn reply_frame(r: Reply) -> Seq<u8> {
    match r {
        Reply::SendingStarted => seq![0u8],
        Reply::Message(None) => seq![1u8, 0u8],
        Reply::Message(Some(m)) => seq![1u8, 1u8] + record_bytes(m),
    }
}

/// The weight of the seven-bit group with index `i`, that is 128 to the `i`.
pub open spec fn group_weight(i: int) -> int {
    if i <= 0 {
        1
    } else if i == 1 {
        128
    } else if i == 2 {
        16384
    } else if i == 3 {
        2097152
    } else {
        268435456
    }
}

/// Reads the groups of a variable-length integer from group `i` on, where
/// the integer starts at `at`. Gives what these groups add to the value and
/// the position behind the last byte of the integer.
pub open spec fn varint_groups(s: Seq<u8>, at: int, i: int) -> Result<(int, int), DecodeError>
    decreases 5 - i,
{
    if i < 0 || i >= 5 {
        Err(DecodeError::BadVarint)
    } else if at + i >= s.len() {
        Err(DecodeError::UnexpectedEnd)
    } else if s[at + i] < 128 {
        if i == 4 && s[at + i] > 15 {
            Err(DecodeError::BadVarint)
        } else {
            Ok((s[at + i] * group_weight(i), at + i + 1))
        }
    } else {
        match varint_groups(s, at, i + 1) {
            Ok((rest, end)) => Ok(((s[at + i] - 128) * group_weight(i) + rest, end)),
            Err(e) => Err(e),
        }
    }
}

/// The variable-length integer that starts at `at`: its value and the
/// position behind it.
pub open spec fn varint_at(s: Seq<u8>, at: int) -> Result<(int, int), DecodeError> {
    varint_groups(s, at, 0)
}

/// The record that starts at `at`.
pub open spec fn record_at(s: Seq<u8>, at: int) -> Result<LogMessage, DecodeError> {
    match varint_at(s, at) {
        Err(e) => Err(e),
        Ok((tag, p)) => {
            if tag > 4 {
                Err(DecodeError::BadDiscriminant)
            } else if s.len() < p + 4 * field_count(tag) {
                Err(DecodeError::UnexpectedEnd)
            } else if tag == 0 {
                Ok(LogMessage::Accel { x: word_at(s, p), y: word_at(s, p + 4), z: word_at(s, p + 8) })
            } else if tag == 1 {
                Ok(LogMessage::Gyro { x: word_at(s, p), y: word_at(s, p + 4), z: word_at(s, p + 8) })
            } else if tag == 2 {
                Ok(LogMessage::Mag { x: word_at(s, p), y: word_at(s, p + 4), z: word_at(s, p + 8) })
            } else if tag == 3 {
                Ok(
                    LogMessage::Motors {
                        m1: word_at(s, p),
                        m2: word_at(s, p + 4),
                        m3: word_at(s, p + 8),
                        m4: word_at(s, p + 12),
                    },
                )
            } else {
                Ok(LogMessage::Batt { v: word_at(s, p), a: word_at(s, p + 4) })
            }
        },
    }
}

/// The optional record that starts at `at`.
pub open spec fn optional_record_at(s: Seq<u8>, at: int) -> Result<Option<LogMessage>, DecodeError> {
    if at >= s.len() {
        Err(DecodeError::UnexpectedEnd)
    } else if s[at] == 0 {
        Ok(None)
    } else if s[at] == 1 {
        match record_at(s, at + 1) {
            Ok(m) => Ok(Some(m)),
            Err(e) => Err(e),
        }
    } else {
        Err(DecodeError::BadOption)
    }
}

/// The command that the bytes `s` begin with.
pub open spec fn decoded_command(s: Seq<u8>) -> Result<Command, DecodeError> {
    match varint_at(s, 0) {
        Err(e) => Err(e),
        Ok((tag, _)) => {
            if tag == 0 {
                Ok(Command::StartSending)
            } else if tag == 1 {
                Ok(Command::GetMessage)
            } else if tag == 2 {
                Ok(Command::SendingCompleted)
            } else {
                Err(DecodeError::BadDiscriminant)
            }
        },
    }
}

/// The reply that the bytes `s` begin with.
pub open spec fn decoded_reply(s: Seq<u8>) -> Result<Reply, DecodeError> {
    match varint_at(s, 0) {
        Err(e) => Err(e),
        Ok((tag, p)) => {
            if tag == 0 {
                Ok(Reply::SendingStarted)
            } else if tag == 1 {
                match optional_record_at(s, p) {
                    Ok(m) => Ok(Reply::Message(m)),
                    Err(e) => Err(e),
                }
            } else {
                Err(DecodeError::BadDiscriminant)
            }
        },
    }
}

/// A well-formed variable-length integer fits 32 bits, and ends behind its
/// start and inside the bytes.
pub proof fn lemma_varint_bounds(s: Seq<u8>, at: int, i: int)
    requires
        0 <= at,
        0 <= i < 5,
        varint_groups(s, at, i) is Ok,
    ensures
        0 <= varint_groups(s, at, i)->Ok_0.0 <= 0x1_0000_0000 - group_weight(i),
        at + i < varint_groups(s, at, i)->Ok_0.1 <= at + 5,
        varint_groups(s, at, i)->Ok_0.1 <= s.len(),
    decreases 5 - i,
{
    let b = s[at + i] as int;
    let w = group_weight(i);
    assert(w == 1 || w == 128 || w == 16384 || w == 2097152 || w == 268435456);
    if b >= 128 {
        assert(i < 4);
        lemma_varint_bounds(s, at, i + 1);
        assert(group_weight(i + 1) == 128 * w);
        assert((b - 128) * w <= 127 * w) by (nonlinear_arith)
            requires
                b - 128 <= 127,
                w > 0,
        ;
        assert(0 <= (b - 128) * w) by (nonlinear_arith)
            requires
                b - 128 >= 0,
                w > 0,
        ;
    } else {
        assert(0 <= b * w <= 127 * w) by (nonlinear_arith)
            requires
                0 <= b <= 127,
                w > 0,
        ;
        assert(i == 4 ==> b * w <= 15 * w) by (nonlinear_arith)
            requires
                i == 4 ==> b <= 15,
                w > 0,
        ;
    }
}

/// Appends the four bytes of `v` to `out`.
fn push_word(out: &mut Vec<u8>, v: u32)
    ensures
        final(out)@ == old(out)@ + word_bytes(v),
{
    out.push((v % 256) as u8);
    out.push((v / 256 % 256) as u8);
    out.push((v / 65536 % 256) as u8);
    out.push((v / 16777216) as u8);
    assert(out@ =~= old(out)@ + word_bytes(v));
}

/// Reads the word at `at`.
fn read_word(bytes: &[u8], at: usize) -> (v: u32)
    requires
        at + 4 <= bytes@.len(),
    ensures
        v == word_at(bytes@, at as int),
{
    let b0: u32 = bytes[at] as u32;
    let b1: u32 = bytes[at + 1] as u32;
    let b2: u32 = bytes[at + 2] as u32;
    let b3: u32 = bytes[at + 3] as u32;
    b0 + 256 * b1 + 65536 * b2 + 16777216 * b3
}

/// Reads the groups of a variable-length integer from group `i` on.
fn read_varint_groups(bytes: &[u8], at: usize, i: usize) -> (r: Result<(u32, usize), DecodeError>)
    requires
        at <= bytes@.len(),
        i <= 5,
    ensures
        match r {
            Ok((v, end)) => varint_groups(bytes@, at as int, i as int) == Ok::<
                (int, int),
                DecodeError,
            >((v as int, end as int)),
            Err(e) => varint_groups(bytes@, at as int, i as int) == Err::<(int, int), DecodeError>(e),
        },
    decreases 5 - i,
{
    if i >= 5 {
        return Err(DecodeError::BadVarint);
    }
    if i >= bytes.len() - at {
        return Err(DecodeError::UnexpectedEnd);
    }
    let b: u8 = bytes[at + i];
    let weight: u32 = if i == 0 {
        1
    } else if i == 1 {
        128
    } else if i == 2 {
        16384
    } else if i == 3 {
        2097152
    } else {
        268435456
    };
    if b < 128 {
        if i == 4 && b > 15 {
            Err(DecodeError::BadVarint)
        } else {
            Ok(((b as u32) * weight, at + i + 1))
        }
    } else {
        match read_varint_groups(bytes, at, i + 1) {
            Ok((rest, end)) => {
                proof {
                    lemma_varint_bounds(bytes@, at as int, i as int + 1);
                }
                Ok((((b - 128) as u32) * weight + rest, end))
            },
            Err(e) => Err(e),
        }
    }
}

/// Reads the variable-length integer at `at`.
fn read_varint(bytes: &[u8], at: usize) -> (r: Result<(u32, usize), DecodeError>)
    requires
        at <= bytes@.len(),
    ensures
        match r {
            Ok((v, end)) => varint_at(bytes@, at as int) == Ok::<(int, int), DecodeError>(
                (v as int, end as int),
            ) && at < end <= bytes@.len(),
            Err(e) => varint_at(bytes@, at as int) == Err::<(int, int), DecodeError>(e),
        },
{
    let r = read_varint_groups(bytes, at, 0);
    proof {
        if r is Ok {
            lemma_varint_bounds(bytes@, at as int, 0);
        }
    }
    r
}

/// Reads the record at `at`.
fn read_record(bytes: &[u8], at: usize) -> (r: Result<LogMessage, DecodeError>)
    requires
        at <= bytes@.len(),
    ensures
        r == record_at(bytes@, at as int),
{
    match read_varint(bytes, at) {
        Err(e) => Err(e),
        Ok((tag, p)) => {
            if tag > 4 {
                return Err(DecodeError::BadDiscriminant);
            }
            let count: usize = if tag == 3 {
                4
            } else if tag == 4 {
                2
            } else {
                3
            };
            if bytes.len() - p < 4 * count {
                return Err(DecodeError::UnexpectedEnd);
            }
            if tag == 0 {
                Ok(
                    LogMessage::Accel {
                        x: read_word(bytes, p),
                        y: read_word(bytes, p + 4),
                        z: read_word(bytes, p + 8),
                    },
                )
            } else if tag == 1 {
                Ok(
                    LogMessage::Gyro {
                        x: read_word(bytes, p),
                        y: read_word(bytes, p + 4),
                        z: read_word(bytes, p + 8),
                    },
                )
            } else if tag == 2 {
                Ok(
                    LogMessage::Mag {
                        x: read_word(bytes, p),
                        y: read_word(bytes, p + 4),
                        z: read_word(bytes, p + 8),
                    },
                )
            } else if tag == 3 {
                Ok(
                    LogMessage::Motors {
                        m1: read_word(bytes, p),
                        m2: read_word(bytes, p + 4),
                        m3: read_word(bytes, p + 8),
                        m4: read_word(bytes, p + 12),
                    },
                )
            } else {
                Ok(LogMessage::Batt { v: read_word(bytes, p), a: read_word(bytes, p + 4) })
            }
        },
    }
}

/// Appends the bytes of a record to `out`.
fn push_record(out: &mut Vec<u8>, m: LogMessage)
    ensures
        final(out)@ == old(out)@ + record_bytes(m),
{
    match m {
        LogMessage::Accel { x, y, z } => {
            out.push(0);
            push_word(out, x);
            push_word(out, y);
            push_word(out, z);
        },
        LogMessage::Gyro { x, y, z } => {
            out.push(1);
            push_word(out, x);
            push_word(out, y);
            push_word(out, z);
        },
        LogMessage::Mag { x, y, z } => {
            out.push(2);
            push_word(out, x);
            push_word(out, y);
            push_word(out, z);
        },
        LogMessage::Motors { m1, m2, m3, m4 } => {
            out.push(3);
            push_word(out, m1);
            push_word(out, m2);
            push_word(out, m3);
            push_word(out, m4);
        },
        LogMessage::Batt { v, a } => {
            out.push(4);
            push_word(out, v);
            push_word(out, a);
        },
    }
    assert(out@ =~= old(out)@ + record_bytes(m));
}

/// Encodes a command. Every command fits a frame.
pub fn encode_command(c: Command) -> (frame: Vec<u8>)
    ensures
        frame@ == command_frame(c),
        frame@.len() <= MAX_FRAME_SIZE,
        decoded_command(frame@) == Ok::<Command, DecodeError>(c),
{
    let tag: u8 = match c {
        Command::StartSending => 0,
        Command::GetMessage => 1,
        Command::SendingCompleted => 2,
    };
    let mut frame: Vec<u8> = Vec::new();
    frame.push(tag);
    assert(frame@ =~= command_frame(c));
    proof {
        lemma_command_round_trip(c, Seq::empty());
        assert(command_frame(c) + Seq::<u8>::empty() =~= command_frame(c));
    }
    frame
}

/// Encodes a reply. Every reply fits a frame.
pub fn encode_reply(r: Reply) -> (frame: Vec<u8>)
    ensures
        frame@ == reply_frame(r),
        frame@.len() <= MAX_FRAME_SIZE,
        decoded_reply(frame@) == Ok::<Reply, DecodeError>(r),
{
    let mut frame: Vec<u8> = Vec::new();
    match r {
        Reply::SendingStarted => {
            frame.push(0);
        },
        Reply::Message(None) => {
            frame.push(1);
            frame.push(0);
        },
        Reply::Message(Some(m)) => {
            frame.push(1);
            frame.push(1);
            push_record(&mut frame, m);
        },
    }
    assert(frame@ =~= reply_frame(r));
    proof {
        lemma_reply_frame_len(r);
        lemma_reply_round_trip(r, Seq::empty());
        assert(reply_frame(r) + Seq::<u8>::empty() =~= reply_frame(r));
    }
    frame
}

/// Encodes a command for a buffer of `capacity` bytes, and refuses the
/// command when its frame would not fit.
pub fn encode_command_within(c: Command, capacity: usize) -> (r: Result<Vec<u8>, EncodeError>)
    ensures
        command_frame(c).len() <= capacity ==> r is Ok && r->Ok_0@ == command_frame(c),
        command_frame(c).len() > capacity ==> r == Err::<Vec<u8>, EncodeError>(
            EncodeError::FrameTooLarge,
        ),
{
    let frame = encode_command(c);
    if frame.len() <= capacity {
        Ok(frame)
    } else {
        Err(EncodeError::FrameTooLarge)
    }
}

/// Encodes a reply for a buffer of `capacity` bytes, and refuses the reply
/// when its frame would not fit.
pub fn encode_reply_within(r: Reply, capacity: usize) -> (res: Result<Vec<u8>, EncodeError>)
    ensures
        reply_frame(r).len() <= capacity ==> res is Ok && res->Ok_0@ == reply_frame(r),
        reply_frame(r).len() > capacity ==> res == Err::<Vec<u8>, EncodeError>(
            EncodeError::FrameTooLarge,
        ),
{
    let frame = encode_reply(r);
    if frame.len() <= capacity {
        Ok(frame)
    } else {
        Err(EncodeError::FrameTooLarge)
    }
}

/// Decodes the command that `bytes` begin with.
pub fn decode_command(bytes: &[u8]) -> (r: Result<Command, DecodeError>)
    ensures
        r == decoded_command(bytes@),
{
    match read_varint(bytes, 0) {
        Err(e) => Err(e),
        Ok((tag, _)) => {
            if tag == 0 {
                Ok(Command::StartSending)
            } else if tag == 1 {
                Ok(Command::GetMessage)
            } else if tag == 2 {
                Ok(Command::SendingCompleted)
            } else {
                Err(DecodeError::BadDiscriminant)
            }
        },
    }
}

/// Decodes the reply that `bytes` begin with.
pub fn decode_reply(bytes: &[u8]) -> (r: Result<Reply, DecodeError>)
    ensures
        r == decoded_reply(bytes@),
{
    match read_varint(bytes, 0) {
        Err(e) => Err(e),
        Ok((tag, p)) => {
            if tag == 0 {
                Ok(Reply::SendingStarted)
            } else if tag == 1 {
                if p >= bytes.len() {
                    return Err(DecodeError::UnexpectedEnd);
                }
                let marker: u8 = bytes[p];
                if marker == 0 {
                    Ok(Reply::Message(None))
                } else if marker == 1 {
                    match read_record(bytes, p + 1) {
                        Ok(m) => Ok(Reply::Message(Some(m))),
                        Err(e) => Err(e),
                    }
                } else {
                    Err(DecodeError::BadOption)
                }
            } else {
                Err(DecodeError::BadDiscriminant)
            }
        },
    }
}

/// A word is read back from its four bytes, wherever they stand.
pub proof fn lemma_word_round_trip(s: Seq<u8>, at: int, v: u32)
    requires
        0 <= at,
        at + 4 <= s.len(),
        s.subrange(at, at + 4) == word_bytes(v),
    ensures
        word_at(s, at) == v,
{
    let w = s.subrange(at, at + 4);
    assert(w[0] == s[at] && w[1] == s[at + 1] && w[2] == s[at + 2] && w[3] == s[at + 3]);
}

/// The length of every reply frame: one byte for `SendingStarted`, two for
/// the sentinel, and three plus four for each reading otherwise. None is
/// longer than nineteen bytes.
pub proof fn lemma_reply_frame_len(r: Reply)
    ensures
        reply_frame(r).len() == match r {
            Reply::SendingStarted => 1int,
            Reply::Message(None) => 2int,
            Reply::Message(Some(m)) => 3 + 4 * field_count(record_tag(m) as int),
        },
        reply_frame(r).len() <= 19,
        reply_frame(r).len() <= MAX_FRAME_SIZE,
{
}

/// Every command frame is one byte long, and so fits a frame.
pub proof fn lemma_command_frame_len(c: Command)
    ensures
        command_frame(c).len() == 1,
        command_frame(c).len() <= MAX_FRAME_SIZE,
{
}

/// Decoding the frame of a command gives the command back, whatever
/// follows the frame.
pub proof fn lemma_command_round_trip(c: Command, tail: Seq<u8>)
    ensures
        decoded_command(command_frame(c) + tail) == Ok::<Command, DecodeError>(c),
{
    let s = command_frame(c) + tail;
    assert(s[0] == command_tag(c));
}

/// Decoding the bytes of a record gives the record back, wherever the
/// bytes stand and whatever follows them.
pub proof fn lemma_record_round_trip(head: Seq<u8>, m: LogMessage, tail: Seq<u8>)
    ensures
        record_at(head + record_bytes(m) + tail, head.len() as int) == Ok::<
            LogMessage,
            DecodeError,
        >(m),
{
    let s = head + record_bytes(m) + tail;
    let at = head.len() as int;
    let p = at + 1;
    assert(s[at] == record_tag(m));
    assert(varint_at(s, at) == Ok::<(int, int), DecodeError>((record_tag(m) as int, p)));
    match m {
        LogMessage::Accel { x, y, z } => {
            assert(s.subrange(p, p + 4) =~= word_bytes(x));
            assert(s.subrange(p + 4, p + 8) =~= word_bytes(y));
            assert(s.subrange(p + 8, p + 12) =~= word_bytes(z));
            lemma_word_round_trip(s, p, x);
            lemma_word_round_trip(s, p + 4, y);
            lemma_word_round_trip(s, p + 8, z);
        },
        LogMessage::Gyro { x, y, z } => {
            assert(s.subrange(p, p + 4) =~= word_bytes(x));
            assert(s.subrange(p + 4, p + 8) =~= word_bytes(y));
            assert(s.subrange(p + 8, p + 12) =~= word_bytes(z));
            lemma_word_round_trip(s, p, x);
            lemma_word_round_trip(s, p + 4, y);
            lemma_word_round_trip(s, p + 8, z);
        },
        LogMessage::Mag { x, y, z } => {
            assert(s.subrange(p, p + 4) =~= word_bytes(x));
            assert(s.subrange(p + 4, p + 8) =~= word_bytes(y));
            assert(s.subrange(p + 8, p + 12) =~= word_bytes(z));
            lemma_word_round_trip(s, p, x);
            lemma_word_round_trip(s, p + 4, y);
            lemma_word_round_trip(s, p + 8, z);
        },
        LogMessage::Motors { m1, m2, m3, m4 } => {
            assert(s.subrange(p, p + 4) =~= word_bytes(m1));
            assert(s.subrange(p + 4, p + 8) =~= word_bytes(m2));
            assert(s.subrange(p + 8, p + 12) =~= word_bytes(m3));
            assert(s.subrange(p + 12, p + 16) =~= word_bytes(m4));
            lemma_word_round_trip(s, p, m1);
            lemma_word_round_trip(s, p + 4, m2);
            lemma_word_round_trip(s, p + 8, m3);
            lemma_word_round_trip(s, p + 12, m4);
        },
        LogMessage::Batt { v, a } => {
            assert(s.subrange(p, p + 4) =~= word_bytes(v));
            assert(s.subrange(p + 4, p + 8) =~= word_bytes(a));
            lemma_word_round_trip(s, p, v);
            lemma_word_round_trip(s, p + 4, a);
        },
    }
}

/// Decoding the frame of a reply gives the reply back, whatever follows
/// the frame.
pub proof fn lemma_reply_round_trip(r: Reply, tail: Seq<u8>)
    ensures
        decoded_reply(reply_frame(r) + tail) == Ok::<Reply, DecodeError>(r),
{
    let s = reply_frame(r) + tail;
    match r {
        Reply::SendingStarted => {
            assert(s[0] == 0);
        },
        Reply::Message(None) => {
            assert(s[0] == 1);
            assert(s[1] == 0);
        },
        Reply::Message(Some(m)) => {
            assert(s[0] == 1);
            assert(s[1] == 1);
            let head = seq![1u8, 1u8];
            assert(s =~= head + record_bytes(m) + tail);
            lemma_record_round_trip(head, m, tail);
        },
    }
}

/// A frame that is cut short is refused: no proper beginning of a frame
/// decodes, and the reason given is that the bytes end too early.
pub proof fn lemma_truncated_frame_is_refused(r: Reply, n: int)
    requires
        0 <= n < reply_frame(r).len(),
    ensures
        decoded_reply(reply_frame(r).take(n)) == Err::<Reply, DecodeError>(
            DecodeError::UnexpectedEnd,
        ),
{
    let s = reply_frame(r).take(n);
    lemma_reply_frame_len(r);
    if n >= 1 {
        assert(s[0] == reply_frame(r)[0]);
    }
    if n >= 2 {
        assert(s[1] == reply_frame(r)[1]);
    }
    match r {
        Reply::Message(Some(m)) => {
            if n >= 3 {
                assert(s[2] == reply_frame(r)[2]);
                assert(s[2] == record_tag(m));
                assert(varint_at(s, 2) == Ok::<(int, int), DecodeError>((record_tag(m) as int, 3)));
            }
        },
        _ => {},
    }
}

} // verus!
