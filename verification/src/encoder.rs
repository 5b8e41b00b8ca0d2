//! The record builder: one type per stage of a record, so that the parts can only be written
//! in the order of the line protocol.

use crate::decimal::{decimal_text, format_u64, Decimal};
use crate::line_proto::{first_violation, is_identifier, validate_str, Error};
use crate::sink::{Buffer, SinkError};
use core::marker::PhantomData;
use vstd::prelude::*;
use vstd::string::*;
use vstd::utf8::*;

verus! {

/// The stage in which the measurement name is owed.
pub struct Measurement;

/// The stage in which tags may be added.
pub struct Tag;

/// The stage in which fields are added.
pub struct Field;

/// The stage in which the record is closed, with a timestamp or without.
pub struct Timestamp;

/// A record in the making, in stage `S`, with the buffer that it is written to.
pub struct Builder<S> {
    sink: Buffer,
    any_field: bool,
    stage: PhantomData<S>,
}

/// A record that was given up: the cause, and the buffer as the failure left it.
#[derive(Debug, Clone, PartialEq, Eq)]
pub struct Failed {
    /// Why the record was given up.
    pub error: Error,
    /// The buffer of the record. After a failed write it holds a part of a record, and is to
    /// be cleared before it is used again.
    pub sink: Buffer,
}

/// The bytes `,key=value` of one tag.
pub open spec fn tag_text(key: Seq<char>, value: Seq<char>) -> Seq<u8> {
    seq![44u8] + encode_utf8(key) + seq![61u8] + encode_utf8(value)
}

/// The bytes `key=value` of one field, after a comma unless it is the first of its record.
pub open spec fn field_text(first: bool, key: Seq<char>, value: Decimal) -> Seq<u8> {
    (if first {
        Seq::<u8>::empty()
    } else {
        seq![44u8]
    }) + encode_utf8(key) + seq![61u8] + value.text()
}

/// The bytes that close a record: a space and the timestamp where there is one, and the
/// line feed.
pub open spec fn closing_text(timestamp: Option<u64>) -> Seq<u8> {
    match timestamp {
        Some(ns) => seq![32u8] + decimal_text(ns as nat) + seq![10u8],
        None => seq![10u8],
    }
}

/// The result of writing `bytes` to a buffer: it holds them behind what it held, and the
/// write succeeds, exactly if they fit; else it is filled to its capacity and the write fails.
pub open spec fn wrote(before: Buffer, bytes: Seq<u8>, after: Buffer, ok: bool) -> bool {
    &&& after.wf()
    &&& after.limit() == before.limit()
    &&& after.written() == Buffer::after_write(before.written(), bytes, before.limit())
    &&& ok <==> before.written().len() + bytes.len() <= before.limit()
}

/// One step of a record: `bytes` are written, and nothing is flushed.
pub open spec fn step_written(before: Buffer, bytes: Seq<u8>, after: Buffer, ok: bool) -> bool {
    &&& wrote(before, bytes, after, ok)
    &&& after.flushed() == before.flushed()
}

/// What a failed step hands back. Where an identifier broke a rule, the rule's error and the
/// buffer untouched; else the bytes did not fit, and the buffer was filled to its capacity.
pub open spec fn step_failed(
    before: Buffer,
    violation: Option<Error>,
    bytes: Seq<u8>,
    failed: Failed,
) -> bool {
    match violation {
        Some(e) => failed.error == e && failed.sink == before,
        None => failed.error == Error::Write(SinkError::Full) && step_written(
            before,
            bytes,
            failed.sink,
            false,
        ),
    }
}

/// The first rule broken by a tag: those of the key come before those of the value.
pub open spec fn tag_violation(key: Seq<char>, value: Seq<char>) -> Option<Error> {
    match first_violation(key) {
        Some(e) => Some(e),
        None => first_violation(value),
    }
}

/// A record that is closed: `body` and the closing bytes stand behind what the buffer held,
/// and all of it is flushed.
pub open spec fn closed_record(
    before: Buffer,
    body: Seq<u8>,
    timestamp: Option<u64>,
    after: Buffer,
) -> bool {
    &&& wrote(before, body + closing_text(timestamp), after, true)
    &&& after.flushed() == after.written()
}

/// Writes `bytes` to `sink`, and hands the buffer back with the outcome.
fn emit(sink: Buffer, bytes: &[u8]) -> (out: Result<Buffer, Failed>)
    requires
        sink.wf(),
    ensures
        match out {
            Ok(after) => step_written(sink, bytes@, after, true),
            Err(failed) => failed.error == Error::Write(SinkError::Full) && step_written(
                sink,
                bytes@,
                failed.sink,
                false,
            ),
        },
{
    let mut sink = sink;
    match sink.write_all(bytes) {
        Ok(()) => Ok(sink),
        Err(e) => Err(Failed { error: Error::Write(e), sink }),
    }
}

/// Appends the bytes of `s` to `out`.
pub(crate) fn push_str_bytes(out: &mut Vec<u8>, s: &str)
    ensures
        final(out)@ == old(out)@ + encode_utf8(s@),
{
    let bytes = s.as_bytes();
    let mut i: usize = 0;
    while i < bytes.len()
        invariant
            i <= bytes@.len(),
            bytes@ == encode_utf8(s@),
            out@ == old(out)@ + bytes@.take(i as int),
        decreases bytes@.len() - i,
    {
        let b: u8 = bytes[i];
        out.push(b);
        proof {
            assert(bytes@.take(i + 1) =~= bytes@.take(i as int).push(b));
            assert(out@ =~= old(out)@ + bytes@.take(i + 1));
        }
        i = i + 1;
    }
    proof {
        assert(bytes@.take(i as int) =~= bytes@);
    }
}

impl<S> Builder<S> {
    /// The buffer of the record, with what was written to it so far.
    pub closed spec fn sink(&self) -> Buffer {
        self.sink
    }

    /// Whether a field was written.
    pub closed spec fn has_field(&self) -> bool {
        self.any_field
    }

    /// The builder's invariant: its buffer is well formed.
    pub open spec fn wf(&self) -> bool {
        self.sink().wf()
    }
}

/// Begins a record that is written to `sink`, behind what the buffer holds.
pub fn start(sink: Buffer) -> (builder: Builder<Measurement>)
    requires
        sink.wf(),
    ensures
        builder.wf(),
        builder.sink() == sink,
        !builder.has_field(),
{
    Builder { sink, any_field: false, stage: PhantomData }
}

impl Builder<Measurement> {
    /// Writes the measurement name as it stands. A name that breaks a rule is refused with
    /// the rule's error, and nothing is written.
    pub fn measurement(self, name: &str) -> (out: Result<Builder<Tag>, Failed>)
        requires
            self.wf(),
        ensures
            match out {
                Ok(next) => is_identifier(name@) && !next.has_field() && step_written(
                    self.sink(),
                    encode_utf8(name@),
                    next.sink(),
                    true,
                ),
                Err(failed) => step_failed(
                    self.sink(),
                    first_violation(name@),
                    encode_utf8(name@),
                    failed,
                ),
            },
    {
        match validate_str(name) {
            Err(e) => Err(Failed { error: e, sink: self.sink }),
            Ok(()) => match emit(self.sink, name.as_bytes()) {
                Ok(sink) => Ok(Builder { sink, any_field: false, stage: PhantomData }),
                Err(failed) => Err(failed),
            },
        }
    }
}

impl Builder<Tag> {
    /// Writes `,key=value`. A key or a value that breaks a rule is refused with the rule's
    /// error, the key's before the value's, and nothing is written.
    pub fn tag(self, key: &str, value: &str) -> (out: Result<Builder<Tag>, Failed>)
        requires
            self.wf(),
        ensures
            match out {
                Ok(next) => tag_violation(key@, value@) is None && !next.has_field()
                    && step_written(self.sink(), tag_text(key@, value@), next.sink(), true),
                Err(failed) => step_failed(
                    self.sink(),
                    tag_violation(key@, value@),
                    tag_text(key@, value@),
                    failed,
                ),
            },
    {
        if let Err(e) = validate_str(key) {
            return Err(Failed { error: e, sink: self.sink });
        }
        if let Err(e) = validate_str(value) {
            return Err(Failed { error: e, sink: self.sink });
        }
        let mut bytes: Vec<u8> = Vec::new();
        bytes.push(44);
        push_str_bytes(&mut bytes, key);
        bytes.push(61);
        push_str_bytes(&mut bytes, value);
        proof {
            assert(bytes@ =~= tag_text(key@, value@));
        }
        match emit(self.sink, bytes.as_slice()) {
            Ok(sink) => Ok(Builder { sink, any_field: false, stage: PhantomData }),
            Err(failed) => Err(failed),
        }
    }

    /// Closes the tags, of which there may be none, with a space.
    pub fn end_tags(self) -> (out: Result<Builder<Field>, Failed>)
        requires
            self.wf(),
        ensures
            match out {
                Ok(next) => !next.has_field() && step_written(
                    self.sink(),
                    seq![32u8],
                    next.sink(),
                    true,
                ),
                Err(failed) => step_failed(self.sink(), None, seq![32u8], failed),
            },
    {
        let mut bytes: Vec<u8> = Vec::new();
        bytes.push(32);
        proof {
            assert(bytes@ =~= seq![32u8]);
        }
        match emit(self.sink, bytes.as_slice()) {
            Ok(sink) => Ok(Builder { sink, any_field: false, stage: PhantomData }),
            Err(failed) => Err(failed),
        }
    }
}

impl Builder<Field> {
    /// Writes `key=value`, behind a comma unless this is the first field of the record. A key
    /// that breaks a rule is refused with the rule's error, and nothing is written; the value
    /// is written as it is.
    pub fn field(self, key: &str, value: Decimal) -> (out: Result<Builder<Field>, Failed>)
        requires
            self.wf(),
        ensures
            match out {
                Ok(next) => is_identifier(key@) && next.has_field() && step_written(
                    self.sink(),
                    field_text(!self.has_field(), key@, value),
                    next.sink(),
                    true,
                ),
                Err(failed) => step_failed(
                    self.sink(),
                    first_violation(key@),
                    field_text(!self.has_field(), key@, value),
                    failed,
                ),
            },
    {
        if let Err(e) = validate_str(key) {
            return Err(Failed { error: e, sink: self.sink });
        }
        let mut bytes: Vec<u8> = Vec::new();
        if self.any_field {
            bytes.push(44);
        }
        push_str_bytes(&mut bytes, key);
        bytes.push(61);
        let mut number = value.format();
        bytes.append(&mut number);
        proof {
            assert(bytes@ =~= field_text(!self.has_field(), key@, value));
        }
        match emit(self.sink, bytes.as_slice()) {
            Ok(sink) => Ok(Builder { sink, any_field: true, stage: PhantomData }),
            Err(failed) => Err(failed),
        }
    }

    /// Closes the fields, of which there must be one at least. Nothing is written: the space
    /// that parts the fields from a timestamp is written with the timestamp.
    pub fn end_fields(self) -> (next: Builder<Timestamp>)
        requires
            self.wf(),
            self.has_field(),
        ensures
            next.wf(),
            next.has_field(),
            next.sink() == self.sink(),
    {
        Builder { sink: self.sink, any_field: true, stage: PhantomData }
    }

    /// Whether a field was written, so that the fields can be closed.
    pub fn can_end(&self) -> (yes: bool)
        ensures
            yes == self.has_field(),
    {
        self.any_field
    }
}

impl Builder<Timestamp> {
    /// Closes the record with a space, the timestamp in nanoseconds and a line feed, and
    /// flushes the buffer.
    pub fn timestamp(self, ns: u64) -> (out: Result<Buffer, Failed>)
        requires
            self.wf(),
        ensures
            match out {
                Ok(sink) => closed_record(self.sink(), Seq::<u8>::empty(), Some(ns), sink),
                Err(failed) => step_failed(self.sink(), None, closing_text(Some(ns)), failed),
            },
    {
        let mut bytes: Vec<u8> = Vec::new();
        bytes.push(32);
        let mut digits = format_u64(ns);
        bytes.append(&mut digits);
        bytes.push(10);
        proof {
            assert(bytes@ =~= closing_text(Some(ns)));
            assert(Seq::<u8>::empty() + closing_text(Some(ns)) =~= closing_text(Some(ns)));
        }
        close(self.sink, bytes.as_slice())
    }

    /// Closes the record without a timestamp: writes the line feed and flushes the buffer.
    pub fn finish(self) -> (out: Result<Buffer, Failed>)
        requires
            self.wf(),
        ensures
            match out {
                Ok(sink) => closed_record(self.sink(), Seq::<u8>::empty(), None, sink),
                Err(failed) => step_failed(self.sink(), None, closing_text(None), failed),
            },
    {
        let mut bytes: Vec<u8> = Vec::new();
        bytes.push(10);
        proof {
            assert(bytes@ =~= closing_text(None));
            assert(Seq::<u8>::empty() + closing_text(None) =~= closing_text(None));
        }
        close(self.sink, bytes.as_slice())
    }
}

/// Writes the closing bytes of a record and flushes the buffer: the one way in which a record
/// becomes available to a reader.
fn close(sink: Buffer, bytes: &[u8]) -> (out: Result<Buffer, Failed>)
    requires
        sink.wf(),
    ensures
        match out {
            Ok(after) => wrote(sink, bytes@, after, true) && after.flushed() == after.written(),
            Err(failed) => step_failed(sink, None, bytes@, failed),
        },
{
    match emit(sink, bytes) {
        Ok(after) => {
            let mut after = after;
            after.flush();
            Ok(after)
        },
        Err(failed) => Err(failed),
    }
}

} // verus!
