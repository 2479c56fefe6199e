//! The task of one device: it serves the messages of all clients one after the
//! other, and owns the connection that they share.

use vstd::prelude::*;

use crate::device::{Device, RawRead};
use crate::dial::Dialing;
use crate::error::Error;
use crate::exchange::{Backend, Connecting, ExchangeStep, Reading, Writing};
use crate::frame::Frame;

verus! {

/// What a client tells the task of its device.
#[derive(Debug)]
pub enum Message<R> {
    /// A client has come.
    Connection,
    /// A client has gone.
    Disconnection,
    /// A request, and where the reply is to go.
    Packet(Frame, R),
}

/// The task waits for a message. It is to be stopped when no client and no
/// listener can send one any more.
#[derive(Debug)]
pub struct Receiving<S> {
    /// The device.
    pub device: Device<S>,
    /// How many clients there are.
    pub nb_clients: i32,
}

/// The task is busy with a request.
#[derive(Debug)]
pub struct InFlight<P, R> {
    /// What is to be done for the request.
    pub pending: P,
    /// Where the reply is to go.
    pub reply_to: R,
    /// How many clients there are.
    pub nb_clients: i32,
}

/// What the task is to do next.
#[derive(Debug)]
pub enum RunStep<S, R> {
    /// Receive a message.
    Receive(Receiving<S>),
    /// Open a connection.
    Connect(InFlight<Connecting<S>, R>),
    /// Write the request.
    Write(InFlight<Writing<S>, R>),
    /// Read the reply.
    Read(InFlight<Reading<S>, R>),
    /// Send the reply, if anyone still waits for it; then go on.
    Reply(R, Frame, Receiving<S>),
    /// Drop the reply channel, for there is no reply; then go on.
    Abandon(R, Error, Receiving<S>),
}

impl<S, R> RunStep<S, R> {
    /// The step of the task for a step of the request that it serves. The
    /// connection is closed if the request fails.
    pub open spec fn serving(step: ExchangeStep<S>, reply_to: R, nb_clients: i32) -> Self {
        match step {
            ExchangeStep::Connect(pending) => RunStep::Connect(
                InFlight { pending, reply_to, nb_clients },
            ),
            ExchangeStep::Write(pending) => RunStep::Write(
                InFlight { pending, reply_to, nb_clients },
            ),
            ExchangeStep::Read(pending) => RunStep::Read(
                InFlight { pending, reply_to, nb_clients },
            ),
            ExchangeStep::Done(device, Ok(reply)) => RunStep::Reply(
                reply_to,
                reply,
                Receiving { device, nb_clients },
            ),
            ExchangeStep::Done(device, Err(error)) => RunStep::Abandon(
                reply_to,
                error,
                Receiving { device: device.with_stream(None), nb_clients },
            ),
        }
    }

    /// Bytes are only moved over an open connection, and a reply is only
    /// awaited for the request that was written.
    pub open spec fn wf(self) -> bool {
        match self {
            RunStep::Connect(busy) => ExchangeStep::Connect(busy.pending).wf(),
            RunStep::Write(busy) => ExchangeStep::Write(busy.pending).wf(),
            RunStep::Read(busy) => ExchangeStep::Read(busy.pending).wf(),
            _ => true,
        }
    }

    /// Carries a step of a request over to the task.
    fn serve(step: ExchangeStep<S>, reply_to: R, nb_clients: i32) -> (next: Self)
        ensures
            next == Self::serving(step, reply_to, nb_clients),
    {
        match step {
            ExchangeStep::Connect(pending) => RunStep::Connect(
                InFlight { pending, reply_to, nb_clients },
            ),
            ExchangeStep::Write(pending) => RunStep::Write(
                InFlight { pending, reply_to, nb_clients },
            ),
            ExchangeStep::Read(pending) => RunStep::Read(
                InFlight { pending, reply_to, nb_clients },
            ),
            ExchangeStep::Done(device, result) => match result {
                Ok(reply) => RunStep::Reply(reply_to, reply, Receiving { device, nb_clients }),
                Err(error) => {
                    let mut device = device;
                    device.disconnect();
                    RunStep::Abandon(reply_to, error, Receiving { device, nb_clients })
                },
            },
        }
    }
}

impl<S> Device<S> {
    /// Starts to serve a request.
    pub fn handle_packet<R>(self, frame: Frame, reply_to: R, nb_clients: i32) -> (step: RunStep<
        S,
        R,
    >)
        ensures
            step == RunStep::serving(ExchangeStep::first(self, frame), reply_to, nb_clients),
            step.wf(),
    {
        RunStep::serve(self.write_read(frame), reply_to, nb_clients)
    }

    /// Starts the task of the device. There are no clients yet.
    pub fn run(self) -> (task: Receiving<S>)
        ensures
            task == (Receiving { device: self, nb_clients: 0 }),
    {
        Receiving { device: self, nb_clients: 0 }
    }

    /// Starts the task of a device to which no connection is open.
    pub fn launch(url: &str, connect_delay_ms: u64) -> (task: Receiving<S>)
        ensures
            task.device.url@ == url@,
            task.device.connect_delay_ms == connect_delay_ms,
            task.device.stream is None,
            task.nb_clients == 0,
    {
        let device: Device<S> = Device::new(url, connect_delay_ms);
        device.run()
    }
}

impl<S> Receiving<S> {
    /// The task with one client more.
    pub open spec fn joined(self) -> Self {
        Receiving { device: self.device, nb_clients: (self.nb_clients + 1) as i32 }
    }

    /// The task with one client less. The connection is closed with the last.
    pub open spec fn left(self) -> Self {
        Receiving {
            device: if self.nb_clients == 1 {
                self.device.with_stream(None)
            } else {
                self.device
            },
            nb_clients: (self.nb_clients - 1) as i32,
        }
    }

    /// Whether the client count can follow `message`.
    pub open spec fn can_take<R>(self, message: Message<R>) -> bool {
        match message {
            Message::Connection => self.nb_clients < i32::MAX,
            Message::Disconnection => self.nb_clients > i32::MIN,
            Message::Packet(_, _) => true,
        }
    }

    /// Ends the task, as no message can come any more. The device is left as it
    /// is, with its connection.
    pub fn stop(self) -> (device: Device<S>)
        ensures
            device == self.device,
    {
        self.device
    }

    /// The step on a message.
    pub open spec fn next<R>(self, message: Message<R>) -> RunStep<S, R> {
        match message {
            Message::Connection => RunStep::Receive(self.joined()),
            Message::Disconnection => RunStep::Receive(self.left()),
            Message::Packet(frame, reply_to) => RunStep::serving(
                ExchangeStep::first(self.device, frame),
                reply_to,
                self.nb_clients,
            ),
        }
    }

    /// Goes on with a message.
    pub fn resume<R>(self, message: Message<R>) -> (step: RunStep<S, R>)
        requires
            self.can_take(message),
        ensures
            step == self.next(message),
            step.wf(),
    {
        let mut device = self.device;
        match message {
            Message::Connection => RunStep::Receive(
                Receiving { device, nb_clients: self.nb_clients + 1 },
            ),
            Message::Disconnection => {
                let nb_clients: i32 = self.nb_clients - 1;
                if nb_clients == 0 {
                    device.disconnect();
                }
                RunStep::Receive(Receiving { device, nb_clients })
            },
            Message::Packet(frame, reply_to) => device.handle_packet(
                frame,
                reply_to,
                self.nb_clients,
            ),
        }
    }
}

impl<S, R> InFlight<Connecting<S>, R> {
    /// Goes on with the connection, or with the failure to open one.
    pub fn resume(self, outcome: Result<S, Error>) -> (step: RunStep<S, R>)
        ensures
            step == RunStep::serving(self.pending.next(outcome), self.reply_to, self.nb_clients),
            step.wf(),
    {
        RunStep::serve(self.pending.resume(outcome), self.reply_to, self.nb_clients)
    }
}

impl<S, R> InFlight<Writing<S>, R> {
    /// Goes on with the request written, or with the failure to write it. A
    /// request that was written must be long enough for a transaction ID.
    pub fn resume(self, outcome: Result<(), Error>) -> (step: RunStep<S, R>)
        requires
            outcome is Ok ==> self.pending.request@.len() >= 2,
        ensures
            step == RunStep::serving(self.pending.next(outcome), self.reply_to, self.nb_clients),
            RunStep::Write(self).wf() ==> step.wf(),
    {
        RunStep::serve(self.pending.resume(outcome), self.reply_to, self.nb_clients)
    }
}

impl<S, R> InFlight<Reading<S>, R> {
    /// Goes on with the frame that was read, or with the failure to read one.
    pub fn resume(self, outcome: Result<Frame, Error>) -> (step: RunStep<S, R>)
        requires
            outcome matches Ok(reply) ==> reply@.len() >= 2,
        ensures
            step == RunStep::serving(self.pending.next(outcome), self.reply_to, self.nb_clients),
            RunStep::Read(self).wf() ==> step.wf(),
    {
        RunStep::serve(self.pending.resume(outcome), self.reply_to, self.nb_clients)
    }
}

/// What comes of a message: the state of the task, and the answer to a request.
pub type Served<S, R> = (Receiving<S>, Option<(R, Result<Frame, Error>)>);

impl<S> Receiving<S> {
    /// The whole effect of a message on the task. A request is answered with
    /// what the exchange gives; if that is a failure, the connection is closed.
    pub open spec fn served<R>(self, message: Message<R>, backend: Backend<S>) -> Served<S, R> {
        match message {
            Message::Connection => (self.joined(), None),
            Message::Disconnection => (self.left(), None),
            Message::Packet(frame, reply_to) => {
                let (device, result) = crate::exchange::exchange(self.device, frame@, backend);
                let device = if result is Ok {
                    device
                } else {
                    device.with_stream(None)
                };
                (Receiving { device, nb_clients: self.nb_clients }, Some((reply_to, result)))
            },
        }
    }
}

impl<S, R> RunStep<S, R> {
    /// An upper bound on the number of waits that are left before the next
    /// message.
    pub open spec fn waits_left(self) -> nat {
        match self {
            RunStep::Connect(busy) => ExchangeStep::Connect(busy.pending).waits_left(),
            RunStep::Write(busy) => ExchangeStep::Write(busy.pending).waits_left(),
            RunStep::Read(busy) => ExchangeStep::Read(busy.pending).waits_left(),
            _ => 0,
        }
    }

    /// What is left once every step up to the next message has been carried out.
    pub open spec fn carried_out(self, backend: Backend<S>) -> Served<S, R>
        decreases self.waits_left(),
    {
        match self {
            RunStep::Receive(task) => (task, None),
            RunStep::Reply(reply_to, reply, task) => (task, Some((reply_to, Ok(reply)))),
            RunStep::Abandon(reply_to, error, task) => (task, Some((reply_to, Err(error)))),
            RunStep::Connect(busy) => RunStep::serving(
                ExchangeStep::Connect(busy.pending).following(backend),
                busy.reply_to,
                busy.nb_clients,
            ).carried_out(backend),
            RunStep::Write(busy) => RunStep::serving(
                ExchangeStep::Write(busy.pending).following(backend),
                busy.reply_to,
                busy.nb_clients,
            ).carried_out(backend),
            RunStep::Read(busy) => RunStep::serving(
                ExchangeStep::Read(busy.pending).following(backend),
                busy.reply_to,
                busy.nb_clients,
            ).carried_out(backend),
        }
    }
}

/// A message and what the network does while it is served.
pub type Entry<S, R> = (Message<R>, Backend<S>);

/// The state of the task after it has served some messages.
pub open spec fn state_after<S, R>(task: Receiving<S>, log: Seq<Entry<S, R>>) -> Receiving<S>
    decreases log.len(),
{
    if log.len() == 0 {
        task
    } else {
        state_after(task, log.drop_last()).served(log.last().0, log.last().1).0
    }
}

/// The answers that the task has given after it has served some messages.
pub open spec fn answers<S, R>(task: Receiving<S>, log: Seq<Entry<S, R>>) -> Seq<
    (R, Result<Frame, Error>),
>
    decreases log.len(),
{
    if log.len() == 0 {
        seq![]
    } else {
        let before = answers(task, log.drop_last());
        match state_after(task, log.drop_last()).served(log.last().0, log.last().1).1 {
            Some(answer) => before.push(answer),
            None => before,
        }
    }
}

/// The requests among some messages, in their order.
pub open spec fn requests<S, R>(log: Seq<Entry<S, R>>) -> Seq<(Frame, R)>
    decreases log.len(),
{
    if log.len() == 0 {
        seq![]
    } else {
        match log.last().0 {
            Message::Packet(frame, reply_to) => requests(log.drop_last()).push((frame, reply_to)),
            _ => requests(log.drop_last()),
        }
    }
}

/// How many messages tell of a client that has come.
pub open spec fn connections<S, R>(log: Seq<Entry<S, R>>) -> int
    decreases log.len(),
{
    if log.len() == 0 {
        0
    } else {
        connections(log.drop_last()) + if log.last().0 is Connection {
            1int
        } else {
            0
        }
    }
}

/// How many messages tell of a client that has gone.
pub open spec fn disconnections<S, R>(log: Seq<Entry<S, R>>) -> int
    decreases log.len(),
{
    if log.len() == 0 {
        0
    } else {
        disconnections(log.drop_last()) + if log.last().0 is Disconnection {
            1int
        } else {
            0
        }
    }
}

/// A request in service is answered once its exchange is carried out.
proof fn lemma_serving<S, R>(
    step: ExchangeStep<S>,
    reply_to: R,
    nb_clients: i32,
    backend: Backend<S>,
)
    ensures
        RunStep::serving(step, reply_to, nb_clients).carried_out(backend) == {
            let (device, result) = step.carried_out(backend);
            let device = if result is Ok {
                device
            } else {
                device.with_stream(None)
            };
            (Receiving { device, nb_clients }, Some((reply_to, result)))
        },
    decreases step.waits_left(),
{
    if step !is Done {
        lemma_serving(step.following(backend), reply_to, nb_clients, backend);
    }
}

/// Carried out step by step, whatever the network does, a message has the
/// effect that [`Receiving::served`] says.
pub proof fn law_message_is_served<S, R>(
    task: Receiving<S>,
    message: Message<R>,
    backend: Backend<S>,
)
    ensures
        task.next(message).carried_out(backend) == task.served(message, backend),
{
    if let Message::Packet(frame, reply_to) = message {
        crate::exchange::law_exchange(task.device, frame, backend);
        lemma_serving(
            ExchangeStep::first(task.device, frame),
            reply_to,
            task.nb_clients,
            backend,
        );
    }
}

/// Whether `reply` is a frame that the backend sent while `request`, with its
/// reply channel, was served.
pub open spec fn replied<S, R>(
    entry: Entry<S, R>,
    request: Frame,
    reply_to: R,
    reply: Frame,
) -> bool {
    &&& entry.0 == Message::Packet(request, reply_to)
    &&& entry.1.first_read == Ok::<Frame, Error>(reply) || entry.1.second_read == Ok::<
        Frame,
        Error,
    >(reply)
}

/// First come, first served: every request gets one answer, in the order in
/// which requests came, on the channel that came with it. A reply that it gets
/// carries its transaction ID, and the backend sent it while the request was
/// served.
pub proof fn law_first_come_first_served<S, R>(task: Receiving<S>, log: Seq<Entry<S, R>>)
    ensures
        answers(task, log).len() == requests(log).len(),
        forall|i: int|
            0 <= i < requests(log).len() ==> {
                &&& (#[trigger] answers(task, log)[i]).0 == requests(log)[i].1
                &&& answers(task, log)[i].1 matches Ok(reply) ==> {
                    &&& crate::device::transaction_id(reply@) == crate::device::transaction_id(
                        requests(log)[i].0@,
                    )
                    &&& exists|k: int|
                        0 <= k < log.len() && replied(
                            #[trigger] log[k],
                            requests(log)[i].0,
                            requests(log)[i].1,
                            reply,
                        )
                }
            },
    decreases log.len(),
{
    if log.len() > 0 {
        let before = log.drop_last();
        law_first_come_first_served(task, before);
        assert forall|i: int|
            0 <= i < requests(log).len() && (#[trigger] answers(task, log)[i]).1 is Ok implies (
        exists|k: int|
            0 <= k < log.len() && replied(
                #[trigger] log[k],
                requests(log)[i].0,
                requests(log)[i].1,
                answers(task, log)[i].1->Ok_0,
            )) by {
            let (request, reply_to) = requests(log)[i];
            let reply = answers(task, log)[i].1->Ok_0;
            if i < requests(before).len() {
                assert(answers(task, log)[i] == answers(task, before)[i]);
                let k = choose|k: int|
                    0 <= k < before.len() && replied(#[trigger] before[k], request, reply_to, reply);
                assert(log[k] == before[k]);
            } else {
                assert(replied(log[log.len() - 1], request, reply_to, reply));
            }
        }
    }
}

/// Connections are opened lazily: a message other than a request waits for
/// nothing and opens nothing.
pub proof fn law_opened_only_for_requests<S, R>(task: Receiving<S>, message: Message<R>)
    requires
        message !is Packet,
    ensures
        task.next(message) matches RunStep::Receive(after) && (after.device.stream is None
            || after.device.stream == task.device.stream),
{
}

/// After a request that failed no connection is open, and the next request
/// starts with opening one.
pub proof fn law_reconnects_after_failure<S, R>(
    task: Receiving<S>,
    frame: Frame,
    reply_to: R,
    backend: Backend<S>,
    next_frame: Frame,
    next_reply_to: R,
)
    requires
        task.served(Message::Packet(frame, reply_to), backend).1->Some_0.1 is Err,
    ensures
        ({
            let after = task.served(Message::Packet(frame, reply_to), backend).0;
            after.device.stream is None && after.next(Message::Packet(next_frame, next_reply_to))
                is Connect
        }),
{
}

/// Clients share the connection: after a request that was answered it stays
/// open, and the next request starts with writing to it.
pub proof fn law_connection_is_shared<S, R>(
    task: Receiving<S>,
    frame: Frame,
    reply_to: R,
    backend: Backend<S>,
    next_frame: Frame,
    next_reply_to: R,
)
    requires
        task.served(Message::Packet(frame, reply_to), backend).1->Some_0.1 is Ok,
    ensures
        ({
            let after = task.served(Message::Packet(frame, reply_to), backend).0;
            &&& after.device.stream is Some
            &&& after.next(Message::Packet(next_frame, next_reply_to)) matches RunStep::Write(busy)
                && busy.pending.device.stream == after.device.stream
        }),
{
}

/// Whether a message leaves the connection of the task alone: a client that
/// comes, one that goes and is not the last, or a request that is answered over
/// the connection that is open.
pub open spec fn keeps_connection<S, R>(task: Receiving<S>, entry: Entry<S, R>) -> bool {
    match entry.0 {
        Message::Connection => true,
        Message::Disconnection => task.nb_clients != 1,
        Message::Packet(frame, _) => crate::exchange::attempt(
            frame@,
            entry.1.first_write,
            entry.1.first_read,
        ) is Ok,
    }
}

/// The connection is reused while clients come and go: as long as no request
/// fails on it and the last client does not leave, it stays the same, and the
/// next request is written to it.
pub proof fn law_connection_is_kept<S, R>(
    task: Receiving<S>,
    log: Seq<Entry<S, R>>,
    next_frame: Frame,
    next_reply_to: R,
)
    requires
        task.device.stream is Some,
        forall|k: int|
            0 <= k < log.len() ==> keeps_connection(
                state_after(task, log.take(k)),
                #[trigger] log[k],
            ),
    ensures
        state_after(task, log).device == task.device,
        state_after(task, log).next(Message::Packet(next_frame, next_reply_to)) matches
            RunStep::Write(busy) && busy.pending.device == task.device,
    decreases log.len(),
{
    if log.len() > 0 {
        let before = log.drop_last();
        assert(log.take(log.len() - 1) =~= before);
        assert(log[log.len() - 1] == log.last());
        assert forall|k: int| 0 <= k < before.len() implies keeps_connection(
            state_after(task, before.take(k)),
            #[trigger] before[k],
        ) by {
            assert(before.take(k) =~= log.take(k));
            assert(before[k] == log[k]);
        }
        law_connection_is_kept(task, before, next_frame, next_reply_to);
    }
}

/// The client count is the number of clients that have come less the number
/// that have gone, as long as each message could be taken.
pub proof fn law_client_count<S, R>(task: Receiving<S>, log: Seq<Entry<S, R>>)
    requires
        forall|k: int|
            0 <= k < log.len() ==> state_after(task, log.take(k)).can_take((#[trigger] log[k]).0),
    ensures
        state_after(task, log).nb_clients == task.nb_clients + connections(log) - disconnections(
            log,
        ),
        0 <= connections(log),
        0 <= disconnections(log),
        connections(log) + disconnections(log) <= log.len(),
    decreases log.len(),
{
    if log.len() > 0 {
        let before = log.drop_last();
        assert(log.take(log.len() - 1) =~= before);
        assert(log[log.len() - 1] == log.last());
        assert forall|k: int| 0 <= k < before.len() implies state_after(
            task,
            before.take(k),
        ).can_take((#[trigger] before[k]).0) by {
            assert(before.take(k) =~= log.take(k));
            assert(before[k] == log[k]);
        }
        law_client_count(task, before);
    }
}

/// The address and the delay of a device never change, whatever messages are
/// served and whether or not a connection is open.
pub proof fn law_settings_never_change<S, R>(task: Receiving<S>, log: Seq<Entry<S, R>>)
    ensures
        state_after(task, log).device.url == task.device.url,
        state_after(task, log).device.connect_delay_ms == task.device.connect_delay_ms,
    decreases log.len(),
{
    if log.len() > 0 {
        law_settings_never_change(task, log.drop_last());
    }
}

/// Every connection that a request needs, however late it comes, is dialed with
/// the address and the delay that the task was launched with.
pub proof fn law_every_dial_has_the_launch_settings<S, R>(
    url: &str,
    connect_delay_ms: u64,
    task: Receiving<S>,
    log: Seq<Entry<S, R>>,
    message: Message<R>,
    step: RunStep<S, R>,
    dialing: Dialing,
)
    requires
        call_ensures(Device::<S>::launch, (url, connect_delay_ms), task),
        call_ensures(Receiving::<S>::resume::<R>, (state_after(task, log), message), step),
        step is Connect,
        call_ensures(Connecting::<S>::dial, (&step->Connect_0.pending,), dialing),
    ensures
        dialing.url@ == url@,
        dialing.connect_delay_ms == connect_delay_ms,
{
    law_settings_never_change(task, log);
}

/// A task starts with the device that it is given, or with a new one, and
/// without clients. A task that is stopped gives back its device.
pub proof fn law_task_starts_and_stops<S>(
    url: &str,
    connect_delay_ms: u64,
    device: Device<S>,
    launched: Receiving<S>,
    started: Receiving<S>,
    task: Receiving<S>,
    stopped: Device<S>,
)
    requires
        call_ensures(Device::<S>::launch, (url, connect_delay_ms), launched),
        call_ensures(Device::<S>::run, (device,), started),
        call_ensures(Receiving::<S>::stop, (task,), stopped),
    ensures
        launched.nb_clients == 0,
        launched.device.stream is None,
        launched.device.url@ == url@,
        launched.device.connect_delay_ms == connect_delay_ms,
        started.nb_clients == 0,
        started.device == device,
        stopped == task.device,
        call_requires(Device::<S>::launch, (url, connect_delay_ms)),
        call_requires(Device::<S>::run, (device,)),
        call_requires(Receiving::<S>::stop, (task,)),
{
}

/// A client that comes is counted and changes nothing else. One that goes is no
/// longer counted; only if it was the last, the connection is closed.
pub proof fn law_clients_are_counted<S, R>(
    task: Receiving<S>,
    come: RunStep<S, R>,
    gone: RunStep<S, R>,
)
    requires
        i32::MIN < task.nb_clients < i32::MAX,
        call_ensures(Receiving::<S>::resume::<R>, (task, Message::Connection), come),
        call_ensures(Receiving::<S>::resume::<R>, (task, Message::Disconnection), gone),
    ensures
        come matches RunStep::Receive(after) && after.device == task.device && after.nb_clients
            == task.nb_clients + 1,
        gone matches RunStep::Receive(after) && after.nb_clients == task.nb_clients - 1
            && after.device.url == task.device.url && after.device.connect_delay_ms
            == task.device.connect_delay_ms && after.device.stream == if after.nb_clients == 0 {
            None
        } else {
            task.device.stream
        },
{
}

/// Every message can be served but one that would overflow the count.
pub proof fn law_messages_that_can_be_served<S, R>(task: Receiving<S>, message: Message<R>)
    requires
        message is Connection ==> task.nb_clients < i32::MAX,
        message is Disconnection ==> task.nb_clients > i32::MIN,
    ensures
        call_requires(Receiving::<S>::resume::<R>, (task, message)),
{
}

/// A request is served with the device as it is and the request as it came, and
/// keeps its channel: over the open connection if there is one.
pub proof fn law_request_is_taken_up<S, R>(
    task: Receiving<S>,
    frame: Frame,
    reply_to: R,
    step: RunStep<S, R>,
    handled: RunStep<S, R>,
)
    requires
        call_ensures(
            Receiving::<S>::resume::<R>,
            (task, Message::Packet(frame, reply_to)),
            step,
        ),
        call_ensures(
            Device::<S>::handle_packet::<R>,
            (task.device, frame, reply_to, task.nb_clients),
            handled,
        ),
    ensures
        task.device.stream is Some ==> step == RunStep::Write(
            InFlight {
                pending: Writing { device: task.device, request: frame, reconnected: false },
                reply_to,
                nb_clients: task.nb_clients,
            },
        ),
        task.device.stream is None ==> step == RunStep::Connect(
            InFlight {
                pending: Connecting { device: task.device, request: frame, cause: None },
                reply_to,
                nb_clients: task.nb_clients,
            },
        ),
        handled == step,
        call_requires(
            Device::<S>::handle_packet::<R>,
            (task.device, frame, reply_to, task.nb_clients),
        ),
{
}

/// The connection that was opened for a request is used for it. If none could be
/// opened, the request is given up and no connection is left.
pub proof fn law_request_after_dial<S, R>(
    busy: InFlight<Connecting<S>, R>,
    outcome: Result<S, Error>,
    step: RunStep<S, R>,
)
    requires
        call_ensures(InFlight::<Connecting<S>, R>::resume, (busy, outcome), step),
    ensures
        ({
            let device = Device {
                url: busy.pending.device.url,
                connect_delay_ms: busy.pending.device.connect_delay_ms,
                stream: outcome.ok(),
            };
            match outcome {
                Ok(_) => step == RunStep::Write(
                    InFlight {
                        pending: Writing {
                            device,
                            request: busy.pending.request,
                            reconnected: true,
                        },
                        reply_to: busy.reply_to,
                        nb_clients: busy.nb_clients,
                    },
                ),
                Err(error) => step == RunStep::Abandon(
                    busy.reply_to,
                    error,
                    Receiving { device, nb_clients: busy.nb_clients },
                ),
            }
        }),
        call_requires(InFlight::<Connecting<S>, R>::resume, (busy, outcome)),
{
}

/// Once a request is written its reply is awaited for five seconds.
pub proof fn law_request_after_write<S, R>(busy: InFlight<Writing<S>, R>, step: RunStep<S, R>)
    requires
        busy.pending.request@.len() >= 2,
        call_ensures(InFlight::<Writing<S>, R>::resume, (busy, Ok(())), step),
    ensures
        step == RunStep::Read(
            InFlight {
                pending: Reading {
                    device: busy.pending.device,
                    request: busy.pending.request,
                    reconnected: busy.pending.reconnected,
                    raw: RawRead {
                        request_id: (busy.pending.request@[0], busy.pending.request@[1]),
                        timeout_secs: 5,
                    },
                },
                reply_to: busy.reply_to,
                nb_clients: busy.nb_clients,
            },
        ),
        call_requires(InFlight::<Writing<S>, R>::resume, (busy, Ok(()))),
{
}

/// A reply with the awaited ID goes, as it is, to the channel of its request.
/// The connection stays open for the next one.
pub proof fn law_request_after_read<S, R>(
    busy: InFlight<Reading<S>, R>,
    reply: Frame,
    step: RunStep<S, R>,
)
    requires
        reply@.len() >= 2,
        busy.pending.raw.request_id == (reply@[0], reply@[1]),
        call_ensures(InFlight::<Reading<S>, R>::resume, (busy, Ok(reply)), step),
    ensures
        step == RunStep::Reply(
            busy.reply_to,
            reply,
            Receiving { device: busy.pending.device, nb_clients: busy.nb_clients },
        ),
        call_requires(InFlight::<Reading<S>, R>::resume, (busy, Ok(reply))),
{
}

/// A request that fails on the open connection gets a fresh one. A request that
/// fails on a fresh connection is given up: its channel gets no reply, and the
/// connection is closed.
pub proof fn law_request_after_failure<S, R>(
    writing: InFlight<Writing<S>, R>,
    reading: InFlight<Reading<S>, R>,
    error: Error,
    reply: Frame,
    unwritten: RunStep<S, R>,
    unread: RunStep<S, R>,
    mismatched: RunStep<S, R>,
)
    requires
        reply@.len() >= 2,
        reading.pending.raw.request_id != (reply@[0], reply@[1]),
        call_ensures(InFlight::<Writing<S>, R>::resume, (writing, Err(error)), unwritten),
        call_ensures(InFlight::<Reading<S>, R>::resume, (reading, Err(error)), unread),
        call_ensures(InFlight::<Reading<S>, R>::resume, (reading, Ok(reply)), mismatched),
    ensures
        !writing.pending.reconnected ==> unwritten == RunStep::Connect(
            InFlight {
                pending: Connecting {
                    device: writing.pending.device,
                    request: writing.pending.request,
                    cause: Some(error),
                },
                reply_to: writing.reply_to,
                nb_clients: writing.nb_clients,
            },
        ),
        writing.pending.reconnected ==> unwritten == RunStep::Abandon(
            writing.reply_to,
            error,
            Receiving {
                device: Device {
                    url: writing.pending.device.url,
                    connect_delay_ms: writing.pending.device.connect_delay_ms,
                    stream: None::<S>,
                },
                nb_clients: writing.nb_clients,
            },
        ),
        !reading.pending.reconnected ==> unread == RunStep::Connect(
            InFlight {
                pending: Connecting {
                    device: reading.pending.device,
                    request: reading.pending.request,
                    cause: Some(error),
                },
                reply_to: reading.reply_to,
                nb_clients: reading.nb_clients,
            },
        ),
        reading.pending.reconnected ==> unread == RunStep::Abandon(
            reading.reply_to,
            error,
            Receiving {
                device: Device {
                    url: reading.pending.device.url,
                    connect_delay_ms: reading.pending.device.connect_delay_ms,
                    stream: None::<S>,
                },
                nb_clients: reading.nb_clients,
            },
        ),
        ({
            let error = Error::TransactionIdMismatch {
                expected: reading.pending.raw.request_id,
                got: (reply@[0], reply@[1]),
            };
            mismatched == if reading.pending.reconnected {
                RunStep::Abandon(
                    reading.reply_to,
                    error,
                    Receiving {
                        device: Device {
                            url: reading.pending.device.url,
                            connect_delay_ms: reading.pending.device.connect_delay_ms,
                            stream: None::<S>,
                        },
                        nb_clients: reading.nb_clients,
                    },
                )
            } else {
                RunStep::Connect(
                    InFlight {
                        pending: Connecting {
                            device: reading.pending.device,
                            request: reading.pending.request,
                            cause: Some(error),
                        },
                        reply_to: reading.reply_to,
                        nb_clients: reading.nb_clients,
                    },
                )
            }
        }),
        call_requires(InFlight::<Writing<S>, R>::resume, (writing, Err(error))),
        call_requires(InFlight::<Reading<S>, R>::resume, (reading, Err(error))),
        call_requires(InFlight::<Reading<S>, R>::resume, (reading, Ok(reply))),
{
}

} // verus!
