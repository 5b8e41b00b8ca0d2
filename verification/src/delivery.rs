//! The delivery loop: the decisions of the task that sends each reading to the database. The
//! task that runs the loop does the waiting, connecting and sending, and tells what came of
//! it; the next state and the next thing to do are decided here.

use crate::bus::WaitOutcome;
use crate::encoder::{
    closing_text, field_text, start, step_failed, step_written, tag_text, wrote, Failed,
};
use crate::influx::{
    accepted, response_meaning, write_headers, write_target, Client, Request,
};
use crate::line_proto::{first_violation, is_identifier, validate_str, Error};
use crate::reading::Reading;
use crate::sink::{Buffer, SinkError};
use vstd::prelude::*;
use vstd::string::*;
use vstd::utf8::*;

verus! {

/// The names under which readings are recorded: the measurement, and the value of the tag
/// `sensor`. Both are identifiers of the line protocol.
#[derive(Debug, Clone, PartialEq, Eq)]
pub struct RecordLayout {
    measurement: String,
    sensor: String,
}

impl RecordLayout {
    /// The measurement name.
    pub closed spec fn measurement(&self) -> Seq<char> {
        self.measurement@
    }

    /// The value of the tag `sensor`.
    pub closed spec fn sensor(&self) -> Seq<char> {
        self.sensor@
    }

    /// The layout's invariant: both names keep the rules for identifiers.
    pub open spec fn wf(&self) -> bool {
        is_identifier(self.measurement()) && is_identifier(self.sensor())
    }

    /// The layout with these names, unless one of them breaks a rule for identifiers: then
    /// the error of the first rule broken, the measurement name checked first.
    pub fn new(measurement: &str, sensor: &str) -> (layout: Result<RecordLayout, Error>)
        ensures
            match layout {
                Ok(l) => l.wf() && l.measurement() == measurement@ && l.sensor() == sensor@,
                Err(e) => Some(e) == (match first_violation(measurement@) {
                    Some(m) => Some(m),
                    None => first_violation(sensor@),
                }),
            },
    {
        if let Err(e) = validate_str(measurement) {
            return Err(e);
        }
        if let Err(e) = validate_str(sensor) {
            return Err(e);
        }
        Ok(
            RecordLayout {
                measurement: String::from_str(measurement),
                sensor: String::from_str(sensor),
            },
        )
    }
}

/// The record of one reading: the measurement, the tag `sensor`, and the fields `humidity`
/// and `temperature`, without a timestamp.
pub open spec fn reading_record(layout: RecordLayout, reading: Reading) -> Seq<u8> {
    encode_utf8(layout.measurement()) + tag_text("sensor"@, layout.sensor()) + seq![32u8]
        + field_text(true, "humidity"@, reading.humidity) + field_text(
        false,
        "temperature"@,
        reading.temperature,
    ) + seq![10u8]
}

/// The names of the tag and of the fields keep the rules for identifiers.
proof fn lemma_fixed_names()
    ensures
        is_identifier("sensor"@),
        is_identifier("humidity"@),
        is_identifier("temperature"@),
{
    reveal_strlit("sensor");
    reveal_strlit("humidity");
    reveal_strlit("temperature");
}

/// Writing `x` and then `y` is writing both at once, as long as `x` fits; where `x` does not
/// fit, what follows it makes no difference.
proof fn lemma_after_write_twice(before: Seq<u8>, x: Seq<u8>, y: Seq<u8>, limit: nat)
    requires
        before.len() <= limit,
    ensures
        before.len() + x.len() <= limit ==> Buffer::after_write(
            Buffer::after_write(before, x, limit),
            y,
            limit,
        ) == Buffer::after_write(before, x + y, limit),
        before.len() + x.len() > limit ==> Buffer::after_write(before, x, limit)
            == Buffer::after_write(before, x + y, limit),
{
    if before.len() + x.len() <= limit {
        assert((before + x) + y =~= before + (x + y));
    } else {
        assert((before + x).take(limit as int) =~= (before + (x + y)).take(limit as int));
    }
}

/// One more step of a record in the making: where `done` was written from `origin` and
/// `piece` is written behind it, `done + piece` was written from `origin`, with the outcome
/// of the last step.
proof fn lemma_step_joined(
    origin: Buffer,
    done: Seq<u8>,
    middle: Buffer,
    piece: Seq<u8>,
    after: Buffer,
    ok: bool,
)
    requires
        origin.wf(),
        step_written(origin, done, middle, true),
        step_written(middle, piece, after, ok),
    ensures
        step_written(origin, done + piece, after, ok),
{
    origin.lemma_bounds();
    lemma_after_write_twice(origin.written(), done, piece, origin.limit());
}

/// Where a step failed for want of room, the whole record would not have fitted either, and
/// the buffer is as an attempt to write all of it at once would have left it.
proof fn lemma_failed_early(origin: Buffer, done: Seq<u8>, rest: Seq<u8>, after: Buffer)
    requires
        origin.wf(),
        step_written(origin, done, after, false),
    ensures
        step_written(origin, done + rest, after, false),
{
    origin.lemma_bounds();
    lemma_after_write_twice(origin.written(), done, rest, origin.limit());
}

/// Writes the record of `reading` to `sink` and flushes it. The record is written exactly if
/// it fits into the buffer; else the attempt ends in a write error and leaves a part of the
/// record in the buffer, unflushed.
pub fn encode_reading(layout: &RecordLayout, reading: Reading, sink: Buffer) -> (out: Result<
    Buffer,
    Failed,
>)
    requires
        layout.wf(),
        sink.wf(),
    ensures
        match out {
            Ok(after) => wrote(sink, reading_record(*layout, reading), after, true)
                && after.flushed() == after.written(),
            Err(failed) => step_failed(sink, None, reading_record(*layout, reading), failed),
        },
{
    proof {
        lemma_fixed_names();
    }
    let ghost name = encode_utf8(layout.measurement());
    let ghost tag = tag_text("sensor"@, layout.sensor());
    let ghost space = seq![32u8];
    let ghost first = field_text(true, "humidity"@, reading.humidity);
    let ghost second = field_text(false, "temperature"@, reading.temperature);
    let ghost end = seq![10u8];
    let ghost whole = reading_record(*layout, reading);
    proof {
        assert(whole =~= name + (tag + space + first + second + end));
        assert(whole =~= (name + tag) + (space + first + second + end));
        assert(whole =~= (name + tag + space) + (first + second + end));
        assert(whole =~= (name + tag + space + first) + (second + end));
        assert(whole =~= (name + tag + space + first + second) + end);
        assert(closing_text(None) =~= end);
        assert(Seq::<u8>::empty() + closing_text(None) =~= end);
    }
    let b = match start(sink).measurement(layout.measurement.as_str()) {
        Ok(b) => b,
        Err(failed) => {
            proof {
                lemma_failed_early(sink, name, tag + space + first + second + end, failed.sink);
            }
            return Err(failed);
        },
    };
    let ghost s1 = b.sink();
    let b = match b.tag("sensor", layout.sensor.as_str()) {
        Ok(b) => b,
        Err(failed) => {
            proof {
                lemma_step_joined(sink, name, s1, tag, failed.sink, false);
                lemma_failed_early(sink, name + tag, space + first + second + end, failed.sink);
            }
            return Err(failed);
        },
    };
    proof {
        lemma_step_joined(sink, name, s1, tag, b.sink(), true);
    }
    let ghost s2 = b.sink();
    let b = match b.end_tags() {
        Ok(b) => b,
        Err(failed) => {
            proof {
                lemma_step_joined(sink, name + tag, s2, space, failed.sink, false);
                lemma_failed_early(sink, name + tag + space, first + second + end, failed.sink);
            }
            return Err(failed);
        },
    };
    proof {
        lemma_step_joined(sink, name + tag, s2, space, b.sink(), true);
    }
    let ghost s3 = b.sink();
    let b = match b.field("humidity", reading.humidity) {
        Ok(b) => b,
        Err(failed) => {
            proof {
                lemma_step_joined(sink, name + tag + space, s3, first, failed.sink, false);
                lemma_failed_early(sink, name + tag + space + first, second + end, failed.sink);
            }
            return Err(failed);
        },
    };
    proof {
        lemma_step_joined(sink, name + tag + space, s3, first, b.sink(), true);
    }
    let ghost s4 = b.sink();
    let b = match b.field("temperature", reading.temperature) {
        Ok(b) => b,
        Err(failed) => {
            proof {
                lemma_step_joined(sink, name + tag + space + first, s4, second, failed.sink, false);
                lemma_failed_early(sink, name + tag + space + first + second, end, failed.sink);
            }
            return Err(failed);
        },
    };
    proof {
        lemma_step_joined(sink, name + tag + space + first, s4, second, b.sink(), true);
    }
    let ghost s5 = b.sink();
    match b.end_fields().finish() {
        Ok(after) => {
            proof {
                sink.lemma_bounds();
                lemma_after_write_twice(
                    sink.written(),
                    name + tag + space + first + second,
                    end,
                    sink.limit(),
                );
            }
            Ok(after)
        },
        Err(failed) => {
            proof {
                lemma_step_joined(
                    sink,
                    name + tag + space + first + second,
                    s5,
                    end,
                    failed.sink,
                    false,
                );
            }
            Err(failed)
        },
    }
}

/// Where the delivery loop stands.
#[derive(Debug, Clone, Copy, PartialEq, Eq, Structural)]
pub enum State {
    /// There is no session with the database.
    Disconnected,
    /// A session is being opened.
    Connecting,
    /// A session is open, and the loop waits for the next reading.
    Connected,
    /// A record was handed over for sending, and its response is awaited.
    Sending,
}

/// What the task that runs the loop tells of.
#[derive(Debug, Clone, PartialEq, Eq)]
pub enum Event {
    /// It is time to connect: at the start, or when the delay after a failure is over.
    RetryDue,
    /// The session is open.
    SessionOpened,
    /// The session could not be opened.
    ConnectFailed,
    /// The subscription gave its next outcome.
    Outcome(WaitOutcome),
    /// The database answered the request.
    Response { status: u16, body: Vec<u8> },
    /// The request could not be sent, or its response not be read.
    TransportFailed,
}

/// What the task that runs the loop is to do next.
#[derive(Debug, Clone, PartialEq, Eq)]
pub enum Action {
    /// Open a session, and tell whether it was opened.
    Connect,
    /// Wait for so many seconds, and tell when they are over.
    Backoff(u32),
    /// Wait for the next outcome of the subscription, and tell it.
    Receive,
    /// Send the request, and tell its response.
    Send(Request),
    /// Go on with what was asked for last: the event was not awaited.
    Ignore,
}

/// An action as contracts speak of it.
pub enum ActionView {
    Connect,
    Backoff(u32),
    Receive,
    Send { target: Seq<char>, headers: Seq<(Seq<char>, Seq<char>)>, body: Seq<u8> },
    Ignore,
}

impl Action {
    /// The action, with the request that it may hold taken by its contents.
    pub open spec fn view(&self) -> ActionView {
        match *self {
            Action::Connect => ActionView::Connect,
            Action::Backoff(secs) => ActionView::Backoff(secs),
            Action::Receive => ActionView::Receive,
            Action::Send(request) => ActionView::Send {
                target: request.target@,
                headers: request.header_pairs(),
                body: request.body@,
            },
            Action::Ignore => ActionView::Ignore,
        }
    }
}

/// What the task that runs the loop is to write to its log.
#[derive(Debug, Clone, Copy, PartialEq, Eq, Structural)]
pub enum Report {
    /// Nothing.
    Quiet,
    /// The session could not be opened.
    ConnectFailed,
    /// The subscription lost so many readings.
    Lagged(u64),
    /// The reading could not be made into a record, and is dropped.
    Unencodable(Error),
    /// The database took the record.
    Written,
    /// The database refused the record, which is dropped.
    Refused(crate::influx::Error),
    /// The request could not be sent or its response not be read; the record is dropped.
    TransportFailed,
    /// The event was not awaited in this state.
    Unexpected,
}

/// The outcome of one step of the loop.
#[derive(Debug, Clone, PartialEq, Eq)]
pub struct Transition {
    pub state: State,
    pub action: Action,
    pub report: Report,
}

/// The delivery loop's settings.
#[derive(Debug, Clone, PartialEq, Eq)]
pub struct Delivery {
    /// The database.
    pub client: Client,
    /// The organisation to write to.
    pub org: String,
    /// The bucket to write to.
    pub bucket: String,
    /// The names under which readings are recorded.
    pub layout: RecordLayout,
    /// The delay, in seconds, between a failure of the transport and the next attempt to
    /// connect.
    pub retry_secs: u32,
    /// The size of the buffer that a record is made in.
    pub buffer_size: usize,
}

impl Delivery {
    /// The settings' invariant: that of the layout.
    pub open spec fn wf(&self) -> bool {
        self.layout.wf()
    }

    /// Whether the record of `reading` fits into the buffer.
    pub open spec fn fits(&self, reading: Reading) -> bool {
        reading_record(self.layout, reading).len() <= self.buffer_size
    }

    /// The request that writes the record of `reading`.
    pub open spec fn request_for(&self, reading: Reading) -> ActionView {
        ActionView::Send {
            target: write_target(self.client.base(), self.org@, self.bucket@),
            headers: write_headers(self.client.token()),
            body: reading_record(self.layout, reading),
        }
    }

    /// The state after `event` came in `state`.
    ///
    /// A failure of the transport, and a session that could not be opened, lead back to
    /// `Disconnected`. A write that the database refused, a reading whose record does not fit
    /// into the buffer and a report of lost readings leave the loop `Connected`. An event
    /// that the state does not await changes nothing.
    pub open spec fn next_state(&self, state: State, event: Event) -> State {
        match (state, event) {
            (State::Disconnected, Event::RetryDue) => State::Connecting,
            (State::Connecting, Event::SessionOpened) => State::Connected,
            (State::Connecting, Event::ConnectFailed) => State::Disconnected,
            (State::Connecting, Event::TransportFailed) => State::Disconnected,
            (State::Connected, Event::Outcome(WaitOutcome::Delivered(reading))) => if self.fits(
                reading,
            ) {
                State::Sending
            } else {
                State::Connected
            },
            (State::Connected, Event::Outcome(WaitOutcome::Lagged(_))) => State::Connected,
            (State::Connected, Event::TransportFailed) => State::Disconnected,
            (State::Sending, Event::Response { .. }) => State::Connected,
            (State::Sending, Event::TransportFailed) => State::Disconnected,
            _ => state,
        }
    }

    /// What is to be done after `event` came in `state`.
    pub open spec fn next_action(&self, state: State, event: Event) -> ActionView {
        match (state, event) {
            (State::Disconnected, Event::RetryDue) => ActionView::Connect,
            (State::Connecting, Event::SessionOpened) => ActionView::Receive,
            (State::Connecting, Event::ConnectFailed) => ActionView::Backoff(self.retry_secs),
            (State::Connecting, Event::TransportFailed) => ActionView::Backoff(self.retry_secs),
            (State::Connected, Event::Outcome(WaitOutcome::Delivered(reading))) => if self.fits(
                reading,
            ) {
                self.request_for(reading)
            } else {
                ActionView::Receive
            },
            (State::Connected, Event::Outcome(WaitOutcome::Lagged(_))) => ActionView::Receive,
            (State::Connected, Event::TransportFailed) => ActionView::Backoff(self.retry_secs),
            (State::Sending, Event::Response { .. }) => ActionView::Receive,
            (State::Sending, Event::TransportFailed) => ActionView::Backoff(self.retry_secs),
            _ => ActionView::Ignore,
        }
    }

    /// What is to be logged after `event` came in `state`.
    pub open spec fn next_report(&self, state: State, event: Event) -> Report {
        match (state, event) {
            (State::Disconnected, Event::RetryDue) => Report::Quiet,
            (State::Connecting, Event::SessionOpened) => Report::Quiet,
            (State::Connecting, Event::ConnectFailed) => Report::ConnectFailed,
            (State::Connecting, Event::TransportFailed) => Report::ConnectFailed,
            (State::Connected, Event::Outcome(WaitOutcome::Delivered(reading))) => if self.fits(
                reading,
            ) {
                Report::Quiet
            } else {
                Report::Unencodable(Error::Write(SinkError::Full))
            },
            (State::Connected, Event::Outcome(WaitOutcome::Lagged(n))) => Report::Lagged(n),
            (State::Connected, Event::TransportFailed) => Report::TransportFailed,
            (State::Sending, Event::Response { status, body }) => match response_meaning(
                status,
                body@,
            ) {
                Ok(_) => Report::Written,
                Err(e) => Report::Refused(e),
            },
            (State::Sending, Event::TransportFailed) => Report::TransportFailed,
            _ => Report::Unexpected,
        }
    }

    /// One step of the loop: what `event` in `state` leads to.
    pub fn step(&self, state: State, event: &Event) -> (t: Transition)
        requires
            self.wf(),
        ensures
            t.state == self.next_state(state, *event),
            t.action@ == self.next_action(state, *event),
            t.report == self.next_report(state, *event),
    {
        match state {
            State::Disconnected => match event {
                Event::RetryDue => Transition {
                    state: State::Connecting,
                    action: Action::Connect,
                    report: Report::Quiet,
                },
                _ => Transition { state, action: Action::Ignore, report: Report::Unexpected },
            },
            State::Connecting => match event {
                Event::SessionOpened => Transition {
                    state: State::Connected,
                    action: Action::Receive,
                    report: Report::Quiet,
                },
                Event::ConnectFailed => Transition {
                    state: State::Disconnected,
                    action: Action::Backoff(self.retry_secs),
                    report: Report::ConnectFailed,
                },
                Event::TransportFailed => Transition {
                    state: State::Disconnected,
                    action: Action::Backoff(self.retry_secs),
                    report: Report::ConnectFailed,
                },
                _ => Transition { state, action: Action::Ignore, report: Report::Unexpected },
            },
            State::Connected => match event {
                Event::Outcome(WaitOutcome::Delivered(reading)) => self.attempt(*reading),
                Event::Outcome(WaitOutcome::Lagged(n)) => Transition {
                    state: State::Connected,
                    action: Action::Receive,
                    report: Report::Lagged(*n),
                },
                Event::TransportFailed => Transition {
                    state: State::Disconnected,
                    action: Action::Backoff(self.retry_secs),
                    report: Report::TransportFailed,
                },
                _ => Transition { state, action: Action::Ignore, report: Report::Unexpected },
            },
            State::Sending => match event {
                Event::Response { status, body } => {
                    let report = match Client::check_response(*status, body.as_slice()) {
                        Ok(()) => Report::Written,
                        Err(e) => Report::Refused(e),
                    };
                    Transition { state: State::Connected, action: Action::Receive, report }
                },
                Event::TransportFailed => Transition {
                    state: State::Disconnected,
                    action: Action::Backoff(self.retry_secs),
                    report: Report::TransportFailed,
                },
                _ => Transition { state, action: Action::Ignore, report: Report::Unexpected },
            },
        }
    }

    /// Makes the record of `reading` in a buffer of the set size and, where it fits, the
    /// request that writes it.
    fn attempt(&self, reading: Reading) -> (t: Transition)
        requires
            self.wf(),
        ensures
            t.state == (if self.fits(reading) {
                State::Sending
            } else {
                State::Connected
            }),
            t.action@ == (if self.fits(reading) {
                self.request_for(reading)
            } else {
                ActionView::Receive
            }),
            t.report == (if self.fits(reading) {
                Report::Quiet
            } else {
                Report::Unencodable(Error::Write(SinkError::Full))
            }),
    {
        match encode_reading(&self.layout, reading, Buffer::new(self.buffer_size)) {
            Ok(sink) => {
                let body = sink.to_vec();
                proof {
                    assert(Seq::<u8>::empty() + reading_record(self.layout, reading)
                        =~= reading_record(self.layout, reading));
                }
                let request = self.client.write(
                    self.org.as_str(),
                    self.bucket.as_str(),
                    body.as_slice(),
                );
                Transition { state: State::Sending, action: Action::Send(request), report: Report::Quiet }
            },
            Err(failed) => Transition {
                state: State::Connected,
                action: Action::Receive,
                report: Report::Unencodable(failed.error),
            },
        }
    }
}

/// A failure of the transport does not end the loop, nor does it keep later readings from
/// being sent. From a session that is open, or in which a record is under way, the failure
/// leads to a wait of the set length; the loop then connects anew; and once the session is
/// open, the next reading whose record fits into the buffer is sent.
pub proof fn lemma_transport_failure_survived(d: Delivery, state: State, reading: Reading)
    requires
        d.wf(),
        state == State::Connected || state == State::Sending,
        d.fits(reading),
    ensures
        d.next_state(state, Event::TransportFailed) == State::Disconnected,
        d.next_action(state, Event::TransportFailed) == ActionView::Backoff(d.retry_secs),
        d.next_state(State::Disconnected, Event::RetryDue) == State::Connecting,
        d.next_action(State::Disconnected, Event::RetryDue) == ActionView::Connect,
        d.next_state(State::Connecting, Event::SessionOpened) == State::Connected,
        d.next_action(State::Connecting, Event::SessionOpened) == ActionView::Receive,
        d.next_action(State::Connected, Event::Outcome(WaitOutcome::Delivered(reading)))
            == d.request_for(reading),
{
}

/// A write that the database refuses does not end the session: the loop stays connected and
/// asks for the next reading, and a reading whose record fits into the buffer is sent.
pub proof fn lemma_refusal_survived(d: Delivery, status: u16, body: Vec<u8>, reading: Reading)
    requires
        d.wf(),
        !accepted(status),
        d.fits(reading),
    ensures
        d.next_state(State::Sending, Event::Response { status, body }) == State::Connected,
        d.next_action(State::Sending, Event::Response { status, body }) == ActionView::Receive,
        d.next_report(State::Sending, Event::Response { status, body }) is Refused,
        d.next_action(State::Connected, Event::Outcome(WaitOutcome::Delivered(reading)))
            == d.request_for(reading),
{
}

/// A session that could not be opened is tried again after the set delay, every time.
pub proof fn lemma_connect_retried(d: Delivery)
    ensures
        d.next_state(State::Connecting, Event::ConnectFailed) == State::Disconnected,
        d.next_action(State::Connecting, Event::ConnectFailed) == ActionView::Backoff(
            d.retry_secs,
        ),
        d.next_state(State::Disconnected, Event::RetryDue) == State::Connecting,
        d.next_action(State::Disconnected, Event::RetryDue) == ActionView::Connect,
{
}

} // verus!
