//! A request and its reply: over the connection that is open, and over a fresh
//! one if there is none or the exchange fails on it.

use vstd::prelude::*;

use crate::device::{Device, RawRead, RawWrite, REPLY_TIMEOUT_SECS};
use crate::dial::{Dialed, Dialing};
use crate::error::Error;
use crate::frame::Frame;

verus! {

/// A connection is to be opened before the request can be sent.
#[derive(Debug)]
pub struct Connecting<S> {
    /// The device to connect to.
    pub device: Device<S>,
    /// The request.
    pub request: Frame,
    /// Why the connection that was open cannot be used, if one was.
    pub cause: Option<Error>,
}

/// The request is to be written.
#[derive(Debug)]
pub struct Writing<S> {
    /// The device to write to.
    pub device: Device<S>,
    /// The request.
    pub request: Frame,
    /// Whether the connection was opened for this request.
    pub reconnected: bool,
}

/// The reply is to be read.
#[derive(Debug)]
pub struct Reading<S> {
    /// The device to read from.
    pub device: Device<S>,
    /// The request.
    pub request: Frame,
    /// Whether the connection was opened for this request.
    pub reconnected: bool,
    /// What the reply has to be, and how long it may take.
    pub raw: RawRead,
}

/// What is to be done next for a request.
#[derive(Debug)]
pub enum ExchangeStep<S> {
    /// Open a connection.
    Connect(Connecting<S>),
    /// Write the request.
    Write(Writing<S>),
    /// Read the reply.
    Read(Reading<S>),
    /// Nothing: here is the reply, or why there is none.
    Done(Device<S>, Result<Frame, Error>),
}

impl<S> ExchangeStep<S> {
    /// The first step for a request.
    pub open spec fn first(device: Device<S>, request: Frame) -> Self {
        if device.stream is Some {
            ExchangeStep::Write(Writing { device, request, reconnected: false })
        } else {
            ExchangeStep::Connect(Connecting { device, request, cause: None })
        }
    }

    /// The step after a failed exchange: a second try over a fresh connection,
    /// unless this was the second.
    pub open spec fn after_failure(
        device: Device<S>,
        request: Frame,
        reconnected: bool,
        error: Error,
    ) -> Self {
        if reconnected {
            ExchangeStep::Done(device, Err(error))
        } else {
            ExchangeStep::Connect(Connecting { device, request, cause: Some(error) })
        }
    }

    /// Bytes are only moved over an open connection, and a reply is only
    /// awaited for the request that was written.
    pub open spec fn wf(self) -> bool {
        match self {
            ExchangeStep::Connect(_) => true,
            ExchangeStep::Write(writing) => writing.device.stream is Some,
            ExchangeStep::Read(reading) => {
                &&& reading.device.stream is Some
                &&& (RawWrite { frame: &reading.request }).next(Ok(())) == Ok::<RawRead, Error>(
                    reading.raw,
                )
            },
            ExchangeStep::Done(_, _) => true,
        }
    }

    /// Chooses the step after a failed exchange.
    fn fail(device: Device<S>, request: Frame, reconnected: bool, error: Error) -> (step: Self)
        ensures
            step == Self::after_failure(device, request, reconnected, error),
    {
        if reconnected {
            ExchangeStep::Done(device, Err(error))
        } else {
            ExchangeStep::Connect(Connecting { device, request, cause: Some(error) })
        }
    }
}

impl<S> Device<S> {
    /// Starts to send `frame` and to read the reply, opening a connection if
    /// need be.
    pub fn write_read(self, frame: Frame) -> (step: ExchangeStep<S>)
        ensures
            step == ExchangeStep::first(self, frame),
            step.wf(),
    {
        if self.is_connected() {
            ExchangeStep::Write(Writing { device: self, request: frame, reconnected: false })
        } else {
            ExchangeStep::Connect(Connecting { device: self, request: frame, cause: None })
        }
    }
}

impl<S> Connecting<S> {
    /// Starts to open the connection that the request needs: to the address of
    /// its device, with the delay of its device.
    pub fn dial(&self) -> (dialing: Dialing)
        ensures
            self.device.dialed_by(dialing),
    {
        self.device.dial()
    }

    /// The step after a connection was opened, or could not be.
    pub open spec fn next(self, outcome: Result<S, Error>) -> ExchangeStep<S> {
        match outcome {
            Ok(stream) => ExchangeStep::Write(
                Writing {
                    device: self.device.with_stream(Some(stream)),
                    request: self.request,
                    reconnected: true,
                },
            ),
            Err(error) => ExchangeStep::Done(self.device.with_stream(None), Err(error)),
        }
    }

    /// Goes on with the connection, or with the failure to open one.
    pub fn resume(self, outcome: Result<S, Error>) -> (step: ExchangeStep<S>)
        ensures
            step == self.next(outcome),
            step.wf(),
    {
        let mut device = self.device;
        match device.connect(outcome) {
            Ok(_) => ExchangeStep::Write(
                Writing { device, request: self.request, reconnected: true },
            ),
            Err(error) => ExchangeStep::Done(device, Err(error)),
        }
    }
}

impl<S> Writing<S> {
    /// The step after the request was written, or could not be.
    pub open spec fn next(self, outcome: Result<(), Error>) -> ExchangeStep<S> {
        match (RawWrite { frame: &self.request }).next(outcome) {
            Ok(raw) => ExchangeStep::Read(
                Reading {
                    device: self.device,
                    request: self.request,
                    reconnected: self.reconnected,
                    raw,
                },
            ),
            Err(error) => ExchangeStep::after_failure(
                self.device,
                self.request,
                self.reconnected,
                error,
            ),
        }
    }

    /// Goes on with the request written, or with the failure to write it. A
    /// request that was written must be long enough for a transaction ID.
    pub fn resume(self, outcome: Result<(), Error>) -> (step: ExchangeStep<S>)
        requires
            outcome is Ok ==> self.request@.len() >= 2,
        ensures
            step == self.next(outcome),
            ExchangeStep::Write(self).wf() ==> step.wf(),
    {
        match (RawWrite { frame: &self.request }).resume(outcome) {
            Ok(raw) => ExchangeStep::Read(
                Reading {
                    device: self.device,
                    request: self.request,
                    reconnected: self.reconnected,
                    raw,
                },
            ),
            Err(error) => ExchangeStep::fail(self.device, self.request, self.reconnected, error),
        }
    }
}

impl<S> Reading<S> {
    /// The step after a frame was read, or none could be.
    pub open spec fn next(self, outcome: Result<Frame, Error>) -> ExchangeStep<S> {
        match self.raw.next(outcome) {
            Ok(reply) => ExchangeStep::Done(self.device, Ok(reply)),
            Err(error) => ExchangeStep::after_failure(
                self.device,
                self.request,
                self.reconnected,
                error,
            ),
        }
    }

    /// Goes on with the frame that was read, or with the failure to read one.
    pub fn resume(self, outcome: Result<Frame, Error>) -> (step: ExchangeStep<S>)
        requires
            outcome matches Ok(reply) ==> reply@.len() >= 2,
        ensures
            step == self.next(outcome),
            ExchangeStep::Read(self).wf() ==> step.wf(),
    {
        match self.raw.resume(outcome) {
            Ok(reply) => ExchangeStep::Done(self.device, Ok(reply)),
            Err(error) => ExchangeStep::fail(self.device, self.request, self.reconnected, error),
        }
    }
}

/// What the network does while one request is served: how each wait would end,
/// over the connection that is open and over a fresh one.
pub struct Backend<S> {
    /// Writing the request to the connection that is open.
    pub first_write: Result<(), Error>,
    /// Reading the reply from it.
    pub first_read: Result<Frame, Error>,
    /// Opening a fresh connection.
    pub dial: Result<S, Error>,
    /// Writing the request to the fresh connection.
    pub second_write: Result<(), Error>,
    /// Reading the reply from it.
    pub second_read: Result<Frame, Error>,
}

/// What one try to send `request` and to read the reply gives.
pub open spec fn attempt(
    request: Seq<u8>,
    write: Result<(), Error>,
    read: Result<Frame, Error>,
) -> Result<Frame, Error> {
    match (write, read) {
        (Err(error), _) => Err(error),
        (Ok(_), Err(error)) => Err(error),
        (Ok(_), Ok(reply)) => if crate::device::transaction_id(reply@)
            == crate::device::transaction_id(request) {
            Ok(reply)
        } else {
            Err(
                Error::TransactionIdMismatch {
                    expected: crate::device::transaction_id(request),
                    got: crate::device::transaction_id(reply@),
                },
            )
        },
    }
}

/// What a request gives in all: the reply over the connection that is open, if
/// that works; else what a fresh connection gives. The device is left with the
/// connection that was tried last, or with none if it could not be opened.
pub open spec fn exchange<S>(
    device: Device<S>,
    request: Seq<u8>,
    backend: Backend<S>,
) -> (Device<S>, Result<Frame, Error>) {
    let first = attempt(request, backend.first_write, backend.first_read);
    if device.stream is Some && first is Ok {
        (device, first)
    } else {
        match backend.dial {
            Ok(stream) => (
                device.with_stream(Some(stream)),
                attempt(request, backend.second_write, backend.second_read),
            ),
            Err(error) => (device.with_stream(None), Err(error)),
        }
    }
}

impl<S> ExchangeStep<S> {
    /// An upper bound on the number of waits that are left.
    pub open spec fn waits_left(self) -> nat {
        match self {
            ExchangeStep::Write(writing) => if writing.reconnected {
                2
            } else {
                5
            },
            ExchangeStep::Read(reading) => if reading.reconnected {
                1
            } else {
                4
            },
            ExchangeStep::Connect(_) => 3,
            ExchangeStep::Done(_, _) => 0,
        }
    }

    /// The step after this one.
    pub open spec fn following(self, backend: Backend<S>) -> Self {
        match self {
            ExchangeStep::Connect(connecting) => connecting.next(backend.dial),
            ExchangeStep::Write(writing) => if writing.reconnected {
                writing.next(backend.second_write)
            } else {
                writing.next(backend.first_write)
            },
            ExchangeStep::Read(reading) => if reading.reconnected {
                reading.next(backend.second_read)
            } else {
                reading.next(backend.first_read)
            },
            ExchangeStep::Done(_, _) => self,
        }
    }

    /// What is left once every step has been carried out.
    pub open spec fn carried_out(self, backend: Backend<S>) -> (Device<S>, Result<Frame, Error>)
        decreases self.waits_left(),
    {
        match self {
            ExchangeStep::Done(device, result) => (device, result),
            _ => self.following(backend).carried_out(backend),
        }
    }

    /// How many seconds the steps that are left can await a reply.
    pub open spec fn seconds_on_reads(self, backend: Backend<S>) -> nat
        decreases self.waits_left(),
    {
        match self {
            ExchangeStep::Done(_, _) => 0,
            ExchangeStep::Read(reading) => reading.raw.timeout_secs as nat + self.following(
                backend,
            ).seconds_on_reads(backend),
            _ => self.following(backend).seconds_on_reads(backend),
        }
    }
}

/// Carried out step by step, whatever the network does, a request gives what
/// [`exchange`] says.
pub proof fn law_exchange<S>(device: Device<S>, request: Frame, backend: Backend<S>)
    ensures
        ExchangeStep::first(device, request).carried_out(backend) == exchange(
            device,
            request@,
            backend,
        ),
{
    reveal_with_fuel(ExchangeStep::carried_out, 6);
}

/// A reply that is let through has the first two bytes of its request, which are
/// its transaction ID, and is one of the frames that the backend sent.
pub proof fn law_reply_answers_request<S>(device: Device<S>, request: Frame, backend: Backend<S>)
    ensures
        ExchangeStep::first(device, request).carried_out(backend).1 matches Ok(reply) ==> {
            &&& reply@[0] == request@[0]
            &&& reply@[1] == request@[1]
            &&& crate::device::transaction_id(reply@) == crate::device::transaction_id(request@)
            &&& backend.first_read == Ok::<Frame, Error>(reply) || backend.second_read == Ok::<
                Frame,
                Error,
            >(reply)
        },
{
    law_exchange(device, request, backend);
}

/// A request is not tried without end: each step brings the end nearer, and all
/// in all a silent backend's reply is awaited for no more than two timeouts.
pub proof fn law_exchange_ends<S>(device: Device<S>, request: Frame, backend: Backend<S>)
    ensures
        forall|step: ExchangeStep<S>|
            step !is Done ==> #[trigger] step.following(backend).waits_left() < step.waits_left(),
        ExchangeStep::first(device, request).waits_left() <= 5,
        ExchangeStep::first(device, request).seconds_on_reads(backend) <= 2 * REPLY_TIMEOUT_SECS,
{
    reveal_with_fuel(ExchangeStep::seconds_on_reads, 6);
}

/// Where a connection is opened for a request, the delay of the device lies
/// between opening it and the step that writes the request to it. Where it
/// cannot be opened or set up, nothing is written: the request fails with that
/// error.
pub proof fn law_device_delay_before_write<S>(
    connecting: Connecting<S>,
    dialing: Dialing,
    open: Result<S, Error>,
    nodelay: Result<(), Error>,
)
    requires
        connecting.device.dialed_by(dialing),
    ensures
        match (open, nodelay) {
            (Ok(stream), Ok(_)) => {
                &&& dialing.dialed(open, nodelay) matches Ok(dialed)
                &&& dialed.waits() == connecting.device.connect_delay_ms
                &&& connecting.next(Ok(dialed.stream())) matches ExchangeStep::Write(writing)
                &&& writing.device == connecting.device.with_stream(Some(stream))
                &&& writing.request == connecting.request
            },
            (Err(error), _) | (Ok(_), Err(error)) => {
                &&& dialing.dialed(open, nodelay) == Err::<Dialed<S>, Error>(error)
                &&& connecting.next(Err(error)) == ExchangeStep::Done(
                    connecting.device.with_stream(None),
                    Err(error),
                )
            },
        },
{
    crate::dial::law_delay_before_first_use(dialing, open, nodelay);
}

/// An open connection is used again: where the exchange over it succeeds, none
/// is opened and the same one stays open.
pub proof fn law_connection_reused<S>(device: Device<S>, request: Frame, backend: Backend<S>)
    requires
        device.stream is Some,
        attempt(request@, backend.first_write, backend.first_read) is Ok,
    ensures
        ExchangeStep::first(device, request) is Write,
        ExchangeStep::first(device, request).following(backend) is Read,
        ExchangeStep::first(device, request).following(backend).following(backend) is Done,
        ExchangeStep::first(device, request).carried_out(backend).0 == device,
{
    law_exchange(device, request, backend);
}

impl<S> ExchangeStep<S> {
    /// Where a request stands after some steps.
    pub open spec fn after(self, backend: Backend<S>, steps: nat) -> Self
        decreases steps,
    {
        if steps == 0 {
            self
        } else {
            self.after(backend, (steps - 1) as nat).following(backend)
        }
    }
}

/// Whatever a request holds and wherever it stands, its reply is awaited for
/// five seconds, and has to have its first two bytes.
pub proof fn law_every_read_has_the_timeout_and_the_id<S>(
    device: Device<S>,
    request: Frame,
    backend: Backend<S>,
    steps: nat,
)
    ensures
        match ExchangeStep::first(device, request).after(backend, steps) {
            ExchangeStep::Read(reading) => {
                &&& reading.request == request
                &&& reading.raw.timeout_secs == 5
                &&& reading.raw.request_id == (request@[0], request@[1])
                &&& reading.device.stream is Some
            },
            ExchangeStep::Write(writing) => {
                writing.request == request && writing.device.stream is Some
            },
            ExchangeStep::Connect(connecting) => connecting.request == request,
            ExchangeStep::Done(_, _) => true,
        },
    decreases steps,
{
    if steps > 0 {
        law_every_read_has_the_timeout_and_the_id(device, request, backend, (steps - 1) as nat);
    }
}

/// A request is answered as soon as a frame with its first two bytes is read:
/// from the connection that is open, which then stays open, or else from a
/// fresh one, which takes its place. The answer is that frame, whatever else it
/// holds.
pub proof fn law_matching_reply_is_the_answer<S>(
    device: Device<S>,
    request: Frame,
    reply: Frame,
    stream: S,
    backend: Backend<S>,
)
    requires
        reply@[0] == request@[0],
        reply@[1] == request@[1],
    ensures
        device.stream is Some && backend.first_write is Ok && backend.first_read == Ok::<
            Frame,
            Error,
        >(reply) ==> ExchangeStep::first(device, request).carried_out(backend) == (
            device,
            Ok::<Frame, Error>(reply),
        ),
        (device.stream is None || backend.first_write is Err || backend.first_read is Err)
            && backend.dial == Ok::<S, Error>(stream) && backend.second_write is Ok
            && backend.second_read == Ok::<Frame, Error>(reply) ==> ExchangeStep::first(
            device,
            request,
        ).carried_out(backend) == (
            Device {
                url: device.url,
                connect_delay_ms: device.connect_delay_ms,
                stream: Some(stream),
            },
            Ok::<Frame, Error>(reply),
        ),
{
    law_exchange(device, request, backend);
}

/// A request fails only if a fresh connection was needed and could not be
/// opened, or did not give a frame with its first two bytes either.
pub proof fn law_failure_needs_a_failed_fresh_connection<S>(
    device: Device<S>,
    request: Frame,
    backend: Backend<S>,
)
    ensures
        ExchangeStep::first(device, request).carried_out(backend).1 matches Err(error) ==> {
            &&& device.stream is None || backend.first_write is Err || match backend.first_read {
                Ok(reply) => reply@[0] != request@[0] || reply@[1] != request@[1],
                Err(_) => true,
            }
            &&& match (backend.dial, backend.second_write, backend.second_read) {
                (Err(cause), _, _) => error == cause,
                (Ok(_), Err(cause), _) => error == cause,
                (Ok(_), Ok(_), Err(cause)) => error == cause,
                (Ok(_), Ok(_), Ok(reply)) => error == (Error::TransactionIdMismatch {
                    expected: (request@[0], request@[1]),
                    got: (reply@[0], reply@[1]),
                }) && (reply@[0] != request@[0] || reply@[1] != request@[1]),
            }
        },
{
    law_exchange(device, request, backend);
}

/// A request goes to the connection that is open, and opens one only if there
/// is none.
pub proof fn law_open_connection_is_tried_first<S>(
    device: Device<S>,
    frame: Frame,
    step: ExchangeStep<S>,
)
    requires
        call_ensures(Device::<S>::write_read, (device, frame), step),
    ensures
        device.stream is Some ==> step == ExchangeStep::Write(
            Writing { device, request: frame, reconnected: false },
        ),
        device.stream is None ==> step == ExchangeStep::Connect(
            Connecting { device, request: frame, cause: None },
        ),
        call_requires(Device::<S>::write_read, (device, frame)),
{
}

/// The request is written to the connection that was opened for it, once. If
/// none could be opened, the request fails and no connection is left.
pub proof fn law_fresh_connection_is_used<S>(
    connecting: Connecting<S>,
    outcome: Result<S, Error>,
    dialing: Dialing,
    step: ExchangeStep<S>,
)
    requires
        call_ensures(Connecting::<S>::dial, (&connecting,), dialing),
        call_ensures(Connecting::<S>::resume, (connecting, outcome), step),
    ensures
        dialing.url@ == connecting.device.url@,
        dialing.connect_delay_ms == connecting.device.connect_delay_ms,
        ({
            let device = Device {
                url: connecting.device.url,
                connect_delay_ms: connecting.device.connect_delay_ms,
                stream: outcome.ok(),
            };
            match outcome {
                Ok(_) => step == ExchangeStep::Write(
                    Writing { device, request: connecting.request, reconnected: true },
                ),
                Err(error) => step == ExchangeStep::Done(device, Err(error)),
            }
        }),
        call_requires(Connecting::<S>::dial, (&connecting,)),
        call_requires(Connecting::<S>::resume, (connecting, outcome)),
{
}

/// Once the request is written its reply is read, for five seconds at most, from
/// the same connection.
pub proof fn law_written_request_awaits_its_reply<S>(writing: Writing<S>, step: ExchangeStep<S>)
    requires
        writing.request@.len() >= 2,
        call_ensures(Writing::<S>::resume, (writing, Ok(())), step),
    ensures
        step == ExchangeStep::Read(
            Reading {
                device: writing.device,
                request: writing.request,
                reconnected: writing.reconnected,
                raw: RawRead {
                    request_id: (writing.request@[0], writing.request@[1]),
                    timeout_secs: 5,
                },
            },
        ),
        call_requires(Writing::<S>::resume, (writing, Ok(()))),
{
}

/// A frame with the awaited ID ends the exchange as it is, and the connection
/// stays.
pub proof fn law_awaited_reply_ends_the_exchange<S>(
    reading: Reading<S>,
    reply: Frame,
    step: ExchangeStep<S>,
)
    requires
        reply@.len() >= 2,
        reading.raw.request_id == (reply@[0], reply@[1]),
        call_ensures(Reading::<S>::resume, (reading, Ok(reply)), step),
    ensures
        step == ExchangeStep::Done(reading.device, Ok(reply)),
        call_requires(Reading::<S>::resume, (reading, Ok(reply))),
{
}

/// A try that fails, for whatever reason, is the last one if the connection was
/// opened for this request. Otherwise a fresh connection is opened, and the same
/// request is kept for it.
pub proof fn law_one_more_try<S>(
    writing: Writing<S>,
    reading: Reading<S>,
    error: Error,
    reply: Frame,
    unwritten: ExchangeStep<S>,
    unread: ExchangeStep<S>,
    mismatched: ExchangeStep<S>,
)
    requires
        reply@.len() >= 2,
        reading.raw.request_id != (reply@[0], reply@[1]),
        call_ensures(Writing::<S>::resume, (writing, Err(error)), unwritten),
        call_ensures(Reading::<S>::resume, (reading, Err(error)), unread),
        call_ensures(Reading::<S>::resume, (reading, Ok(reply)), mismatched),
    ensures
        unwritten == if writing.reconnected {
            ExchangeStep::Done(writing.device, Err(error))
        } else {
            ExchangeStep::Connect(
                Connecting {
                    device: writing.device,
                    request: writing.request,
                    cause: Some(error),
                },
            )
        },
        unread == if reading.reconnected {
            ExchangeStep::Done(reading.device, Err(error))
        } else {
            ExchangeStep::Connect(
                Connecting {
                    device: reading.device,
                    request: reading.request,
                    cause: Some(error),
                },
            )
        },
        ({
            let error = Error::TransactionIdMismatch {
                expected: reading.raw.request_id,
                got: (reply@[0], reply@[1]),
            };
            mismatched == if reading.reconnected {
                ExchangeStep::Done(reading.device, Err(error))
            } else {
                ExchangeStep::Connect(
                    Connecting {
                        device: reading.device,
                        request: reading.request,
                        cause: Some(error),
                    },
                )
            }
        }),
        call_requires(Writing::<S>::resume, (writing, Err(error))),
        call_requires(Reading::<S>::resume, (reading, Err(error))),
        call_requires(Reading::<S>::resume, (reading, Ok(reply))),
{
}

} // verus!
