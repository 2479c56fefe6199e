//! A Modbus device behind the proxy, and one exchange with it over an open
//! connection.

use vstd::prelude::*;

use crate::dial::{create_connection, Dialing};
use crate::error::Error;
use crate::frame::Frame;

verus! {

/// How long a backend may take to reply.
pub const REPLY_TIMEOUT_SECS: u64 = 5;

/// The transaction ID of a frame: its first two bytes.
pub open spec fn transaction_id(frame: Seq<u8>) -> (u8, u8) {
    (frame[0], frame[1])
}

/// A backend device and the connection to it, if one is open.
#[derive(Debug)]
pub struct Device<S> {
    /// The address of the device.
    pub url: String,
    /// How long to wait between opening a connection and using it.
    pub connect_delay_ms: u64,
    /// The open connection.
    pub stream: Option<S>,
}

impl<S> Device<S> {
    /// The same device with another connection, or with none.
    pub open spec fn with_stream(self, stream: Option<S>) -> Self {
        Device { url: self.url, connect_delay_ms: self.connect_delay_ms, stream }
    }

    /// A device to which no connection is open.
    pub fn new(url: &str, connect_delay_ms: u64) -> (device: Self)
        ensures
            device.url@ == url@,
            device.connect_delay_ms == connect_delay_ms,
            device.stream is None,
    {
        Device { url: url.to_owned(), connect_delay_ms, stream: None }
    }

    /// Whether `dialing` opens a connection to this device, with its delay.
    pub open spec fn dialed_by(self, dialing: Dialing) -> bool {
        dialing.url@ == self.url@ && dialing.connect_delay_ms == self.connect_delay_ms
    }

    /// Starts to open a connection to the device.
    pub fn dial(&self) -> (dialing: Dialing)
        ensures
            self.dialed_by(dialing),
    {
        create_connection(self.url.as_str(), self.connect_delay_ms)
    }

    /// Takes over the connection that was opened, in place of any other. If
    /// none could be opened, an earlier one is given up too.
    pub fn connect(&mut self, connection: Result<S, Error>) -> (done: Result<(), Error>)
        ensures
            match connection {
                Ok(stream) => {
                    done == Ok::<(), Error>(()) && *final(self) == old(self).with_stream(
                        Some(stream),
                    )
                },
                Err(error) => {
                    done == Err::<(), Error>(error) && *final(self) == old(self).with_stream(None)
                },
            },
            final(self).url == old(self).url,
            final(self).connect_delay_ms == old(self).connect_delay_ms,
            final(self).stream == connection.ok(),
    {
        match connection {
            Ok(stream) => {
                self.stream = Some(stream);
                Ok(())
            },
            Err(error) => {
                self.stream = None;
                Err(error)
            },
        }
    }

    /// Closes the connection, if one is open.
    pub fn disconnect(&mut self)
        ensures
            *final(self) == old(self).with_stream(None),
            final(self).url == old(self).url,
            final(self).connect_delay_ms == old(self).connect_delay_ms,
            final(self).stream is None,
    {
        self.stream = None;
    }

    /// Whether a connection is open.
    pub fn is_connected(&self) -> (connected: bool)
        ensures
            connected == (self.stream is Some),
    {
        self.stream.is_some()
    }

    /// Starts to send `frame` over the open connection and to read the reply.
    pub fn raw_write_read<'a>(&self, frame: &'a Frame) -> (exchange: Result<RawWrite<'a>, Error>)
        ensures
            exchange == if self.stream is Some {
                Ok::<RawWrite, Error>(RawWrite { frame })
            } else {
                Err::<RawWrite, Error>(Error::NotConnected)
            },
    {
        if self.is_connected() {
            Ok(RawWrite { frame })
        } else {
            Err(Error::NotConnected)
        }
    }
}

/// A request that is to be written whole.
#[derive(Debug)]
pub struct RawWrite<'a> {
    /// The bytes to write.
    pub frame: &'a Frame,
}

/// A reply that is to be read.
#[derive(Debug)]
pub struct RawRead {
    /// The transaction ID that the reply must carry.
    pub request_id: (u8, u8),
    /// How long to wait for the reply before giving up with [`Error::Timeout`].
    pub timeout_secs: u64,
}

impl<'a> RawWrite<'a> {
    /// What follows on a written request, or on the failure to write it.
    pub open spec fn next(self, outcome: Result<(), Error>) -> Result<RawRead, Error> {
        match outcome {
            Ok(_) => Ok(
                RawRead {
                    request_id: transaction_id(self.frame@),
                    timeout_secs: REPLY_TIMEOUT_SECS,
                },
            ),
            Err(error) => Err(error),
        }
    }

    /// Goes on with the request written, or with the failure to write it. A
    /// request that was written must be long enough for a transaction ID.
    pub fn resume(self, outcome: Result<(), Error>) -> (read: Result<RawRead, Error>)
        requires
            outcome is Ok ==> self.frame@.len() >= 2,
        ensures
            read == self.next(outcome),
    {
        match outcome {
            Ok(_) => Ok(
                RawRead {
                    request_id: (self.frame[0], self.frame[1]),
                    timeout_secs: REPLY_TIMEOUT_SECS,
                },
            ),
            Err(error) => Err(error),
        }
    }
}

impl RawRead {
    /// What the exchange gives on a reply, or on the failure to read one: the
    /// reply itself exactly if it answers the request.
    pub open spec fn next(self, outcome: Result<Frame, Error>) -> Result<Frame, Error> {
        match outcome {
            Ok(reply) => if transaction_id(reply@) == self.request_id {
                Ok(reply)
            } else {
                Err(
                    Error::TransactionIdMismatch {
                        expected: self.request_id,
                        got: transaction_id(reply@),
                    },
                )
            },
            Err(error) => Err(error),
        }
    }

    /// Goes on with the frame that was read, or with the failure to read one.
    pub fn resume(self, outcome: Result<Frame, Error>) -> (reply: Result<Frame, Error>)
        requires
            outcome matches Ok(reply) ==> reply@.len() >= 2,
        ensures
            reply == self.next(outcome),
    {
        let reply = match outcome {
            Ok(reply) => reply,
            Err(error) => return Err(error),
        };
        if reply[0] != self.request_id.0 || reply[1] != self.request_id.1 {
            return Err(
                Error::TransactionIdMismatch {
                    expected: self.request_id,
                    got: (reply[0], reply[1]),
                },
            );
        }
        Ok(reply)
    }
}

/// A change of connection leaves the address and the delay of a device alone.
pub proof fn law_only_the_connection_changes<S>(device: Device<S>, stream: Option<S>)
    ensures
        device.with_stream(stream).url == device.url,
        device.with_stream(stream).connect_delay_ms == device.connect_delay_ms,
        device.with_stream(stream).stream == stream,
{
}

/// A new device has the address and the delay that it was given, and dials with
/// them. It has no connection, and nothing can be written to it.
pub proof fn law_new_device<S>(
    url: &str,
    connect_delay_ms: u64,
    device: Device<S>,
    dialing: Dialing,
    connected: bool,
    frame: &Frame,
    exchange: Result<RawWrite<'_>, Error>,
)
    requires
        call_ensures(Device::<S>::new, (url, connect_delay_ms), device),
        call_ensures(Device::<S>::dial, (&device,), dialing),
        call_ensures(Device::<S>::is_connected, (&device,), connected),
        call_ensures(Device::<S>::raw_write_read, (&device, frame), exchange),
    ensures
        dialing.url@ == url@,
        dialing.connect_delay_ms == connect_delay_ms,
        !connected,
        exchange == Err::<RawWrite<'_>, Error>(Error::NotConnected),
        call_requires(Device::<S>::new, (url, connect_delay_ms)),
        call_requires(Device::<S>::dial, (&device,)),
        call_requires(Device::<S>::raw_write_read, (&device, frame)),
{
}

/// A dial goes to the address of its device, with the delay of its device,
/// whether or not a connection is open.
pub proof fn law_device_dials_itself<S>(device: Device<S>, dialing: Dialing)
    requires
        call_ensures(Device::<S>::dial, (&device,), dialing),
    ensures
        dialing.url@ == device.url@,
        dialing.connect_delay_ms == device.connect_delay_ms,
{
}

/// Over an open connection the request itself is written, and its reply is
/// awaited for five seconds, whatever the request.
pub proof fn law_reply_is_awaited_for_five_seconds<S>(
    device: Device<S>,
    frame: &Frame,
    exchange: Result<RawWrite<'_>, Error>,
    read: Result<RawRead, Error>,
)
    requires
        device.stream is Some,
        frame@.len() >= 2,
        call_ensures(Device::<S>::raw_write_read, (&device, frame), exchange),
        call_ensures(RawWrite::resume, (exchange->Ok_0, Ok(())), read),
    ensures
        exchange matches Ok(write) && write.frame == frame && call_requires(
            RawWrite::resume,
            (write, Ok(())),
        ),
        read matches Ok(read) && read.timeout_secs == 5,
{
}

/// A frame that is read for a request is let through unaltered if its first two
/// bytes are those of the request, and refused otherwise, with the bytes of
/// both named.
pub proof fn law_ids_are_compared_byte_by_byte(
    frame: &Frame,
    reply: Frame,
    read: Result<RawRead, Error>,
    result: Result<Frame, Error>,
)
    requires
        frame@.len() >= 2,
        reply@.len() >= 2,
        call_ensures(RawWrite::resume, (RawWrite { frame }, Ok(())), read),
        call_ensures(RawRead::resume, (read->Ok_0, Ok(reply)), result),
    ensures
        reply@.take(2) == frame@.take(2) ==> result == Ok::<Frame, Error>(reply),
        reply@.take(2) != frame@.take(2) ==> result == Err::<Frame, Error>(
            Error::TransactionIdMismatch {
                expected: (frame@[0], frame@[1]),
                got: (reply@[0], reply@[1]),
            },
        ),
        call_requires(RawRead::resume, (read->Ok_0, Ok(reply))),
{
    assert(reply@.take(2)[0] == reply@[0] && reply@.take(2)[1] == reply@[1]);
    assert(frame@.take(2)[0] == frame@[0] && frame@.take(2)[1] == frame@[1]);
    if reply@[0] == frame@[0] && reply@[1] == frame@[1] {
        assert(reply@.take(2) =~= frame@.take(2));
    }
}

/// Where the request cannot be written, however short it is, or no reply can be
/// read, the exchange fails with that error.
pub proof fn law_failed_exchanges_are_reported(
    error: Error,
    frame: &Frame,
    read: Result<RawRead, Error>,
    reading: RawRead,
    result: Result<Frame, Error>,
)
    requires
        call_ensures(RawWrite::resume, (RawWrite { frame }, Err(error)), read),
        call_ensures(RawRead::resume, (reading, Err(error)), result),
    ensures
        read == Err::<RawRead, Error>(error),
        result == Err::<Frame, Error>(error),
        call_requires(RawWrite::resume, (RawWrite { frame }, Err(error))),
        call_requires(RawRead::resume, (reading, Err(error))),
{
}

/// Connecting takes over the connection that was opened in place of any other,
/// or leaves none and says why; disconnecting leaves none. Neither touches the
/// address or the delay.
pub proof fn law_connect_and_disconnect<S>()
    ensures
        forall|device: &mut Device<S>, connection: Result<S, Error>, done: Result<(), Error>|
            #[trigger] call_ensures(Device::<S>::connect, (device, connection), done) ==> {
                &&& final(device).url == device.url
                &&& final(device).connect_delay_ms == device.connect_delay_ms
                &&& match connection {
                    Ok(stream) => final(device).stream == Some(stream) && done == Ok::<(), Error>(
                        (),
                    ),
                    Err(error) => final(device).stream is None && done == Err::<(), Error>(error),
                }
            },
        forall|device: &mut Device<S>|
            #[trigger] call_ensures(Device::<S>::disconnect, (device,), ()) ==> {
                &&& final(device).url == device.url
                &&& final(device).connect_delay_ms == device.connect_delay_ms
                &&& final(device).stream is None
            },
        forall|device: &mut Device<S>, connection: Result<S, Error>|
            #[trigger] call_requires(Device::<S>::connect, (device, connection)),
        forall|device: &mut Device<S>|
            #[trigger] call_requires(Device::<S>::disconnect, (device,)),
{
}

/// A device is connected exactly while it holds a connection.
pub proof fn law_connected_with_a_connection<S>(device: Device<S>, connected: bool)
    requires
        call_ensures(Device::<S>::is_connected, (&device,), connected),
    ensures
        connected <==> device.stream is Some,
        call_requires(Device::<S>::is_connected, (&device,)),
{
}

} // verus!
