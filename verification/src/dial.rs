//! How a backend connection is opened: dial, switch off Nagle's algorithm, and
//! give the device the time that it needs before its first request.

use vstd::prelude::*;

use crate::error::Error;

verus! {

/// A backend that is to be dialed.
#[derive(Debug)]
pub struct Dialing {
    /// The address to connect to.
    pub url: String,
    /// How long to wait once the connection is open.
    pub connect_delay_ms: u64,
}

/// An open connection on which `TCP_NODELAY` is to be set.
#[derive(Debug)]
pub struct Opened<S> {
    /// The connection.
    pub stream: S,
    /// How long to wait before the connection is used.
    pub connect_delay_ms: u64,
}

/// A connection that must not be used before a delay has passed.
#[derive(Debug)]
pub struct Settling<S> {
    /// The connection.
    pub stream: S,
    /// How long to wait, never zero when a dial asks for it.
    pub connect_delay_ms: u64,
}

/// A connection that is set up.
#[derive(Debug)]
pub enum Dialed<S> {
    /// Wait first.
    Settle(Settling<S>),
    /// The connection can be used.
    Ready(S),
}

/// Starts to open a backend connection.
pub fn create_connection(url: &str, connect_delay_ms: u64) -> (dialing: Dialing)
    ensures
        dialing.url@ == url@,
        dialing.connect_delay_ms == connect_delay_ms,
{
    Dialing { url: url.to_owned(), connect_delay_ms }
}

impl Dialing {
    /// What follows on an open connection, or on the failure to open one.
    pub open spec fn next<S>(self, outcome: Result<S, Error>) -> Result<Opened<S>, Error> {
        match outcome {
            Ok(stream) => Ok(Opened { stream, connect_delay_ms: self.connect_delay_ms }),
            Err(error) => Err(error),
        }
    }

    /// Goes on with the open connection, or with the failure to open one.
    pub fn resume<S>(self, outcome: Result<S, Error>) -> (opened: Result<Opened<S>, Error>)
        ensures
            opened == self.next(outcome),
    {
        match outcome {
            Ok(stream) => Ok(Opened { stream, connect_delay_ms: self.connect_delay_ms }),
            Err(error) => Err(error),
        }
    }
}

impl<S> Opened<S> {
    /// What follows once `TCP_NODELAY` is set, or could not be set: a wait
    /// exactly if a delay is configured.
    pub open spec fn next(self, outcome: Result<(), Error>) -> Result<Dialed<S>, Error> {
        match outcome {
            Err(error) => Err(error),
            Ok(_) => if self.connect_delay_ms == 0 {
                Ok(Dialed::Ready(self.stream))
            } else {
                Ok(
                    Dialed::Settle(
                        Settling { stream: self.stream, connect_delay_ms: self.connect_delay_ms },
                    ),
                )
            },
        }
    }

    /// Goes on once `TCP_NODELAY` is set, or could not be set.
    pub fn resume(self, outcome: Result<(), Error>) -> (dialed: Result<Dialed<S>, Error>)
        ensures
            dialed == self.next(outcome),
    {
        if let Err(error) = outcome {
            return Err(error);
        }
        if self.connect_delay_ms != 0 {
            return Ok(
                Dialed::Settle(
                    Settling { stream: self.stream, connect_delay_ms: self.connect_delay_ms },
                ),
            );
        }
        Ok(Dialed::Ready(self.stream))
    }
}

impl<S> Settling<S> {
    /// Hands the connection out, the delay being over.
    pub fn resume(self) -> (stream: S)
        ensures
            stream == self.stream,
    {
        self.stream
    }
}

impl<S> Dialed<S> {
    /// The connection that is handed out in the end.
    pub open spec fn stream(self) -> S {
        match self {
            Dialed::Settle(settling) => settling.stream,
            Dialed::Ready(stream) => stream,
        }
    }

    /// How many milliseconds pass before it is handed out.
    pub open spec fn waits(self) -> nat {
        match self {
            Dialed::Settle(settling) => settling.connect_delay_ms as nat,
            Dialed::Ready(_) => 0,
        }
    }
}

impl Dialing {
    /// What a dial gives in all, where opening the connection and setting it up
    /// end as given.
    pub open spec fn dialed<S>(
        self,
        open: Result<S, Error>,
        nodelay: Result<(), Error>,
    ) -> Result<Dialed<S>, Error> {
        match self.next(open) {
            Ok(opened) => opened.next(nodelay),
            Err(error) => Err(error),
        }
    }
}

/// A connection is handed out exactly if it could be opened and set up. It is
/// then the one that was opened, and the configured delay, neither more nor
/// less, lies between opening it and handing it out. Otherwise the first
/// failure is reported.
pub proof fn law_delay_before_first_use<S>(
    dialing: Dialing,
    open: Result<S, Error>,
    nodelay: Result<(), Error>,
)
    ensures
        match (open, nodelay) {
            (Err(error), _) => dialing.dialed(open, nodelay) == Err::<Dialed<S>, Error>(error),
            (Ok(_), Err(error)) => dialing.dialed(open, nodelay) == Err::<Dialed<S>, Error>(error),
            (Ok(stream), Ok(_)) => {
                dialing.dialed(open, nodelay) matches Ok(dialed) && dialed.stream() == stream
                    && dialed.waits() == dialing.connect_delay_ms
            },
        },
{
}

/// The connection that is handed out is the one that was opened to the given
/// address. It is handed out at once exactly if no delay is configured, and
/// after exactly the configured delay otherwise.
pub proof fn law_dial<S>(
    url: &str,
    connect_delay_ms: u64,
    stream: S,
    dialing: Dialing,
    opened: Result<Opened<S>, Error>,
    dialed: Result<Dialed<S>, Error>,
)
    requires
        call_ensures(create_connection, (url, connect_delay_ms), dialing),
        call_ensures(Dialing::resume::<S>, (dialing, Ok(stream)), opened),
        call_ensures(Opened::<S>::resume, (opened->Ok_0, Ok(())), dialed),
    ensures
        dialing.url@ == url@,
        opened matches Ok(opened) && opened.stream == stream,
        match dialed {
            Ok(Dialed::Ready(ready)) => ready == stream && connect_delay_ms == 0,
            Ok(Dialed::Settle(settling)) => settling.stream == stream && settling.connect_delay_ms
                == connect_delay_ms && connect_delay_ms > 0,
            Err(_) => false,
        },
        call_requires(create_connection, (url, connect_delay_ms)),
        call_requires(Dialing::resume::<S>, (dialing, Ok(stream))),
        call_requires(Opened::<S>::resume, (opened->Ok_0, Ok(()))),
{
}

/// Where a connection cannot be opened or set up, the caller is told why. A
/// connection that has settled is handed out itself.
pub proof fn law_dial_ends<S>(
    error: Error,
    dialing: Dialing,
    opened: Result<Opened<S>, Error>,
    open: Opened<S>,
    dialed: Result<Dialed<S>, Error>,
    settling: Settling<S>,
    stream: S,
)
    requires
        call_ensures(Dialing::resume::<S>, (dialing, Err(error)), opened),
        call_ensures(Opened::<S>::resume, (open, Err(error)), dialed),
        call_ensures(Settling::<S>::resume, (settling,), stream),
    ensures
        opened == Err::<Opened<S>, Error>(error),
        dialed == Err::<Dialed<S>, Error>(error),
        stream == settling.stream,
        call_requires(Dialing::resume::<S>, (dialing, Err(error))),
        call_requires(Opened::<S>::resume, (open, Err(error))),
        call_requires(Settling::<S>::resume, (settling,)),
{
}

} // verus!
