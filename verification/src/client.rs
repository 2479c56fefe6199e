//! The session of one client: it announces itself to the task of its device,
//! passes requests and replies on one at a time, and takes its leave.

use vstd::prelude::*;

use crate::error::Error;
use crate::frame::Frame;
use crate::server::Bridge;

verus! {

/// The client's socket is to be set up.
#[derive(Debug)]
pub struct Arriving;

/// The task of the device is to hear of the client.
#[derive(Debug)]
pub struct Announcing;

/// A request of the client is to be read.
#[derive(Debug)]
pub struct Listening;

/// A request is to be handed to the task of the device.
#[derive(Debug)]
pub struct Forwarding;

/// The reply is to come from the task of the device.
#[derive(Debug)]
pub struct Awaiting;

/// A reply is to be written to the client.
#[derive(Debug)]
pub struct Replying;

/// The task of the device is to hear that the client has gone.
#[derive(Debug)]
pub struct Leaving {
    /// How the session went.
    pub result: Result<(), Error>,
}

/// What a session is to do next.
#[derive(Debug)]
pub enum ClientStep {
    /// Set `TCP_NODELAY` on the client's socket.
    SetNodelay(Arriving),
    /// Send `Connection` to the task of the device.
    Announce(Announcing),
    /// Read a frame from the client.
    Listen(Listening),
    /// Send the frame, with a fresh reply channel, to the task of the device.
    Forward(Frame, Forwarding),
    /// Receive from the reply channel.
    Await(Awaiting),
    /// Write the frame to the client.
    Reply(Frame, Replying),
    /// Close the client's socket and send `Disconnection` to the task of the
    /// device.
    Leave(Leaving),
    /// Nothing: the session is over.
    Finished(Result<(), Error>),
}

impl Bridge {
    /// Starts the session of a client.
    pub fn handle_client() -> (step: ClientStep)
        ensures
            step == ClientStep::SetNodelay(Arriving),
    {
        ClientStep::SetNodelay(Arriving)
    }

    /// Starts to pass requests and replies on.
    pub fn client_loop() -> (step: ClientStep)
        ensures
            step == ClientStep::Listen(Listening),
    {
        ClientStep::Listen(Listening)
    }
}

impl Arriving {
    /// The step once the socket is set up, or could not be.
    pub open spec fn next(self, outcome: Result<(), Error>) -> ClientStep {
        match outcome {
            Ok(_) => ClientStep::Announce(Announcing),
            Err(error) => ClientStep::Finished(Err(error)),
        }
    }

    /// Goes on with the socket set up, or with the failure to do so.
    pub fn resume(self, outcome: Result<(), Error>) -> (step: ClientStep)
        ensures
            step == self.next(outcome),
    {
        match outcome {
            Ok(_) => ClientStep::Announce(Announcing),
            Err(error) => ClientStep::Finished(Err(error)),
        }
    }
}

impl Announcing {
    /// The step once the client is announced, or could not be.
    pub open spec fn next(self, outcome: Result<(), Error>) -> ClientStep {
        match outcome {
            Ok(_) => ClientStep::Listen(Listening),
            Err(error) => ClientStep::Finished(Err(error)),
        }
    }

    /// Goes on with the client announced, or with the failure to do so.
    pub fn resume(self, outcome: Result<(), Error>) -> (step: ClientStep)
        ensures
            step == self.next(outcome),
    {
        match outcome {
            Ok(_) => Bridge::client_loop(),
            Err(error) => ClientStep::Finished(Err(error)),
        }
    }
}

impl Listening {
    /// The step on a request. When none can be read any more the session has
    /// gone well.
    pub open spec fn next(self, outcome: Result<Frame, Error>) -> ClientStep {
        match outcome {
            Ok(request) => ClientStep::Forward(request, Forwarding),
            Err(_) => ClientStep::Leave(Leaving { result: Ok(()) }),
        }
    }

    /// Goes on with a request, or with the failure to read one.
    pub fn resume(self, outcome: Result<Frame, Error>) -> (step: ClientStep)
        ensures
            step == self.next(outcome),
    {
        match outcome {
            Ok(request) => ClientStep::Forward(request, Forwarding),
            Err(_) => ClientStep::Leave(Leaving { result: Ok(()) }),
        }
    }
}

impl Forwarding {
    /// The step once the request is handed on, or could not be.
    pub open spec fn next(self, outcome: Result<(), Error>) -> ClientStep {
        match outcome {
            Ok(_) => ClientStep::Await(Awaiting),
            Err(error) => ClientStep::Leave(Leaving { result: Err(error) }),
        }
    }

    /// Goes on with the request handed on, or with the failure to do so.
    pub fn resume(self, outcome: Result<(), Error>) -> (step: ClientStep)
        ensures
            step == self.next(outcome),
    {
        match outcome {
            Ok(_) => ClientStep::Await(Awaiting),
            Err(error) => ClientStep::Leave(Leaving { result: Err(error) }),
        }
    }
}

impl Awaiting {
    /// The step on the reply. Without one the session ends.
    pub open spec fn next(self, outcome: Result<Frame, Error>) -> ClientStep {
        match outcome {
            Ok(reply) => ClientStep::Reply(reply, Replying),
            Err(error) => ClientStep::Leave(Leaving { result: Err(error) }),
        }
    }

    /// Goes on with the reply, or with the news that there is none.
    pub fn resume(self, outcome: Result<Frame, Error>) -> (step: ClientStep)
        ensures
            step == self.next(outcome),
    {
        match outcome {
            Ok(reply) => ClientStep::Reply(reply, Replying),
            Err(error) => ClientStep::Leave(Leaving { result: Err(error) }),
        }
    }
}

impl Replying {
    /// The step once the reply is written, or could not be.
    pub open spec fn next(self, outcome: Result<(), Error>) -> ClientStep {
        match outcome {
            Ok(_) => ClientStep::Listen(Listening),
            Err(error) => ClientStep::Leave(Leaving { result: Err(error) }),
        }
    }

    /// Goes on with the reply written, or with the failure to do so.
    pub fn resume(self, outcome: Result<(), Error>) -> (step: ClientStep)
        ensures
            step == self.next(outcome),
    {
        match outcome {
            Ok(_) => ClientStep::Listen(Listening),
            Err(error) => ClientStep::Leave(Leaving { result: Err(error) }),
        }
    }
}

impl Leaving {
    /// The end of the session. A leave that cannot be taken is reported in
    /// place of how the session went.
    pub open spec fn next(self, outcome: Result<(), Error>) -> ClientStep {
        match outcome {
            Ok(_) => ClientStep::Finished(self.result),
            Err(error) => ClientStep::Finished(Err(error)),
        }
    }

    /// Goes on with the leave taken, or with the failure to do so.
    pub fn resume(self, outcome: Result<(), Error>) -> (step: ClientStep)
        ensures
            step == self.next(outcome),
    {
        match outcome {
            Ok(_) => ClientStep::Finished(self.result),
            Err(error) => ClientStep::Finished(Err(error)),
        }
    }
}

/// How a wait of a session ended.
pub enum Outcome {
    /// Something was to be done.
    Done(Result<(), Error>),
    /// A frame was to come.
    Got(Result<Frame, Error>),
}

/// The kinds of messages that the task of a device receives.
pub enum Kind {
    /// A client has come.
    Connection,
    /// A client sends a request.
    Packet,
    /// A client has gone.
    Disconnection,
}

impl ClientStep {
    /// The step after this one.
    pub open spec fn following(self, outcome: Outcome) -> Self {
        match (self, outcome) {
            (ClientStep::SetNodelay(step), Outcome::Done(outcome)) => step.next(outcome),
            (ClientStep::Announce(step), Outcome::Done(outcome)) => step.next(outcome),
            (ClientStep::Listen(step), Outcome::Got(outcome)) => step.next(outcome),
            (ClientStep::Forward(_, step), Outcome::Done(outcome)) => step.next(outcome),
            (ClientStep::Await(step), Outcome::Got(outcome)) => step.next(outcome),
            (ClientStep::Reply(_, step), Outcome::Done(outcome)) => step.next(outcome),
            (ClientStep::Leave(step), Outcome::Done(outcome)) => step.next(outcome),
            _ => self,
        }
    }

    /// What the task of the device receives through this step.
    pub open spec fn sends(self, outcome: Outcome) -> Seq<Kind> {
        match (self, outcome) {
            (ClientStep::Announce(_), Outcome::Done(Ok(_))) => seq![Kind::Connection],
            (ClientStep::Forward(_, _), Outcome::Done(Ok(_))) => seq![Kind::Packet],
            (ClientStep::Leave(_), Outcome::Done(Ok(_))) => seq![Kind::Disconnection],
            _ => seq![],
        }
    }

    /// The request that this step hands to the task of the device.
    pub open spec fn asks(self, outcome: Outcome) -> Seq<Frame> {
        match (self, outcome) {
            (ClientStep::Forward(request, _), Outcome::Done(Ok(_))) => seq![request],
            _ => seq![],
        }
    }

    /// The request that this step reads from the client.
    pub open spec fn hears(self, outcome: Outcome) -> Seq<Frame> {
        match (self, outcome) {
            (ClientStep::Listen(_), Outcome::Got(Ok(request))) => seq![request],
            _ => seq![],
        }
    }

    /// The reply that this step receives from the task of the device.
    pub open spec fn learns(self, outcome: Outcome) -> Seq<Frame> {
        match (self, outcome) {
            (ClientStep::Await(_), Outcome::Got(Ok(reply))) => seq![reply],
            _ => seq![],
        }
    }

    /// The reply that this step writes to the client.
    pub open spec fn answers(self, outcome: Outcome) -> Seq<Frame> {
        match (self, outcome) {
            (ClientStep::Reply(reply, _), Outcome::Done(Ok(_))) => seq![reply],
            _ => seq![],
        }
    }
}

/// Where a session stands after some waits.
pub open spec fn session(outcomes: Seq<Outcome>) -> ClientStep
    decreases outcomes.len(),
{
    if outcomes.len() == 0 {
        ClientStep::SetNodelay(Arriving)
    } else {
        session(outcomes.drop_last()).following(outcomes.last())
    }
}

/// What the task of the device has received of a session after some waits.
pub open spec fn sent(outcomes: Seq<Outcome>) -> Seq<Kind>
    decreases outcomes.len(),
{
    if outcomes.len() == 0 {
        seq![]
    } else {
        sent(outcomes.drop_last()) + session(outcomes.drop_last()).sends(outcomes.last())
    }
}

/// The requests that a session has read from its client.
pub open spec fn heard(outcomes: Seq<Outcome>) -> Seq<Frame>
    decreases outcomes.len(),
{
    if outcomes.len() == 0 {
        seq![]
    } else {
        heard(outcomes.drop_last()) + session(outcomes.drop_last()).hears(outcomes.last())
    }
}

/// The requests that a session has handed to the task of the device.
pub open spec fn asked(outcomes: Seq<Outcome>) -> Seq<Frame>
    decreases outcomes.len(),
{
    if outcomes.len() == 0 {
        seq![]
    } else {
        asked(outcomes.drop_last()) + session(outcomes.drop_last()).asks(outcomes.last())
    }
}

/// The replies that a session has received from the task of the device.
pub open spec fn learnt(outcomes: Seq<Outcome>) -> Seq<Frame>
    decreases outcomes.len(),
{
    if outcomes.len() == 0 {
        seq![]
    } else {
        learnt(outcomes.drop_last()) + session(outcomes.drop_last()).learns(outcomes.last())
    }
}

/// The replies that a session has written to its client.
pub open spec fn answered(outcomes: Seq<Outcome>) -> Seq<Frame>
    decreases outcomes.len(),
{
    if outcomes.len() == 0 {
        seq![]
    } else {
        answered(outcomes.drop_last()) + session(outcomes.drop_last()).answers(outcomes.last())
    }
}

/// Whether messages are those of a session, ended or not: `Connection` first
/// and only there, `Disconnection` at the very end or not at all.
pub open spec fn is_session(kinds: Seq<Kind>) -> bool {
    forall|i: int|
        0 <= i < kinds.len() ==> {
            &&& (i == 0 <==> #[trigger] kinds[i] is Connection)
            &&& (kinds[i] is Disconnection ==> i == kinds.len() - 1)
        }
}

/// Whether a session has failed to tell that its client has gone.
pub open spec fn leave_failed(outcomes: Seq<Outcome>) -> bool {
    exists|k: int|
        0 <= k < outcomes.len() && #[trigger] session(outcomes.take(k)) is Leave
            && outcomes[k] matches Outcome::Done(Err(_))
}

/// Whatever happens, a session tells the task of its device that the client has
/// come, then hands on requests, then tells that the client has gone. It ends
/// without having told that only if the client was never announced or the task
/// could not be told, and it does not end well then.
pub proof fn law_session_is_announced_and_left(outcomes: Seq<Outcome>)
    ensures
        is_session(sent(outcomes)),
        session(outcomes) is Finished ==> sent(outcomes).len() == 0 || sent(outcomes).last()
            is Disconnection || leave_failed(outcomes),
        session(outcomes) matches ClientStep::Finished(Ok(_)) ==> sent(outcomes).len() >= 2
            && sent(outcomes).last() is Disconnection,
    decreases outcomes.len(),
{
    if outcomes.len() > 0 {
        law_session_is_announced_and_left(outcomes.drop_last());
        lemma_sent(outcomes);
        lemma_sent(outcomes.drop_last());
    }
}

/// What has been sent at each step of a session.
proof fn lemma_sent(outcomes: Seq<Outcome>)
    ensures
        match session(outcomes) {
            ClientStep::SetNodelay(_) | ClientStep::Announce(_) => sent(outcomes).len() == 0,
            ClientStep::Finished(Ok(_)) => sent(outcomes).len() >= 2 && sent(outcomes).last()
                is Disconnection,
            ClientStep::Finished(Err(_)) => sent(outcomes).len() == 0 || sent(outcomes).last()
                is Disconnection || leave_failed(outcomes),
            _ => sent(outcomes).len() >= 1 && sent(outcomes)[0] is Connection && forall|i: int|
                0 <= i < sent(outcomes).len() ==> !(#[trigger] sent(outcomes)[i] is Disconnection),
        },
    decreases outcomes.len(),
{
    if outcomes.len() > 0 {
        let before = outcomes.drop_last();
        lemma_sent(before);
        if session(before) is Leave {
            assert(outcomes.take(outcomes.len() - 1) =~= before);
        } else if leave_failed(before) {
            let k = choose|k: int|
                0 <= k < before.len() && #[trigger] session(before.take(k)) is Leave
                    && before[k] matches Outcome::Done(Err(_));
            assert(outcomes.take(k) =~= before.take(k));
        }
    }
}

/// A session alters nothing and mixes nothing up: it hands on the requests that
/// its client sent, in their order, and writes the replies that it received, in
/// theirs. No request is handed on before the one before it was answered. While
/// the session waits for a request, and when it has ended well, every request
/// has been handed on and answered.
pub proof fn law_session_is_transparent(outcomes: Seq<Outcome>)
    ensures
        asked(outcomes).is_prefix_of(heard(outcomes)),
        answered(outcomes).is_prefix_of(learnt(outcomes)),
        answered(outcomes).len() <= learnt(outcomes).len() <= asked(outcomes).len() <= heard(
            outcomes,
        ).len() <= answered(outcomes).len() + 1,
        session(outcomes) is Listen || session(outcomes) == ClientStep::Finished(Ok(()))
            ==> asked(outcomes) == heard(outcomes) && answered(outcomes) == learnt(outcomes)
            && asked(outcomes).len() == answered(outcomes).len(),
{
    lemma_in_step(outcomes);
}

/// How far requests and replies have come at each step of a session.
proof fn lemma_in_step(outcomes: Seq<Outcome>)
    ensures
        asked(outcomes).is_prefix_of(heard(outcomes)),
        answered(outcomes).is_prefix_of(learnt(outcomes)),
        answered(outcomes).len() <= learnt(outcomes).len() <= asked(outcomes).len() <= heard(
            outcomes,
        ).len() <= answered(outcomes).len() + 1,
        match session(outcomes) {
            ClientStep::SetNodelay(_)
            | ClientStep::Announce(_)
            | ClientStep::Listen(_)
            | ClientStep::Leave(Leaving { result: Ok(_) })
            | ClientStep::Finished(Ok(_)) => {
                &&& heard(outcomes) == asked(outcomes)
                &&& learnt(outcomes) == answered(outcomes)
                &&& asked(outcomes).len() == answered(outcomes).len()
            },
            ClientStep::Forward(request, _) => {
                &&& heard(outcomes) == asked(outcomes).push(request)
                &&& learnt(outcomes) == answered(outcomes)
                &&& asked(outcomes).len() == answered(outcomes).len()
            },
            ClientStep::Await(_) => {
                &&& heard(outcomes) == asked(outcomes)
                &&& learnt(outcomes) == answered(outcomes)
                &&& asked(outcomes).len() == answered(outcomes).len() + 1
            },
            ClientStep::Reply(reply, _) => {
                &&& heard(outcomes) == asked(outcomes)
                &&& learnt(outcomes) == answered(outcomes).push(reply)
                &&& asked(outcomes).len() == answered(outcomes).len() + 1
            },
            _ => true,
        },
    decreases outcomes.len(),
{
    if outcomes.len() > 0 {
        let before = outcomes.drop_last();
        lemma_in_step(before);
        assert(heard(outcomes) =~= heard(before) + session(before).hears(outcomes.last()));
        assert(asked(outcomes) =~= asked(before) + session(before).asks(outcomes.last()));
        assert(learnt(outcomes) =~= learnt(before) + session(before).learns(outcomes.last()));
        assert(answered(outcomes) =~= answered(before) + session(before).answers(outcomes.last()));
    }
}

/// A client whose requests were each answered with their transaction ID gets
/// replies with the transaction IDs of the requests that it sent, one by one.
pub proof fn law_client_gets_replies_to_its_requests(outcomes: Seq<Outcome>)
    requires
        forall|i: int|
            0 <= i < learnt(outcomes).len() ==> crate::device::transaction_id(
                #[trigger] learnt(outcomes)[i]@,
            ) == crate::device::transaction_id(asked(outcomes)[i]@),
    ensures
        answered(outcomes).len() <= heard(outcomes).len(),
        forall|i: int|
            0 <= i < answered(outcomes).len() ==> crate::device::transaction_id(
                #[trigger] answered(outcomes)[i]@,
            ) == crate::device::transaction_id(heard(outcomes)[i]@),
{
    lemma_in_step(outcomes);
    assert forall|i: int|
        0 <= i < answered(outcomes).len() implies crate::device::transaction_id(
        #[trigger] answered(outcomes)[i]@,
    ) == crate::device::transaction_id(heard(outcomes)[i]@) by {
        assert(answered(outcomes)[i] == learnt(outcomes)[i]);
        assert(asked(outcomes)[i] == heard(outcomes)[i]);
    }
}

/// Where only whole frames are read from the client, only whole frames are
/// handed to the task of the device. So each holds a transaction ID.
pub proof fn law_requests_are_whole_frames(outcomes: Seq<Outcome>)
    requires
        forall|i: int|
            0 <= i < outcomes.len() ==> (#[trigger] outcomes[i] matches Outcome::Got(Ok(frame))
                ==> crate::frame::is_frame(frame@)),
    ensures
        forall|i: int|
            0 <= i < asked(outcomes).len() ==> crate::frame::is_frame(
                #[trigger] asked(outcomes)[i]@,
            ) && asked(outcomes)[i]@.len() >= 2,
{
    lemma_heard_frames(outcomes);
    lemma_in_step(outcomes);
    assert forall|i: int| 0 <= i < asked(outcomes).len() implies crate::frame::is_frame(
        #[trigger] asked(outcomes)[i]@,
    ) && asked(outcomes)[i]@.len() >= 2 by {
        assert(asked(outcomes)[i] == heard(outcomes)[i]);
    }
}

/// The requests that a session has heard are among the frames that were read.
proof fn lemma_heard_frames(outcomes: Seq<Outcome>)
    requires
        forall|i: int|
            0 <= i < outcomes.len() ==> (#[trigger] outcomes[i] matches Outcome::Got(Ok(frame))
                ==> crate::frame::is_frame(frame@)),
    ensures
        forall|i: int|
            0 <= i < heard(outcomes).len() ==> crate::frame::is_frame(
                #[trigger] heard(outcomes)[i]@,
            ),
    decreases outcomes.len(),
{
    if outcomes.len() > 0 {
        let before = outcomes.drop_last();
        assert forall|i: int| 0 <= i < before.len() implies (#[trigger] before[i] matches
            Outcome::Got(Ok(frame)) ==> crate::frame::is_frame(frame@)) by {
            assert(before[i] == outcomes[i]);
        }
        lemma_heard_frames(before);
        assert forall|i: int| 0 <= i < heard(outcomes).len() implies crate::frame::is_frame(
            #[trigger] heard(outcomes)[i]@,
        ) by {
            if i < heard(before).len() {
                assert(heard(outcomes)[i] == heard(before)[i]);
            } else {
                assert(outcomes[outcomes.len() - 1] matches Outcome::Got(Ok(frame)) && frame
                    == heard(outcomes)[i]);
            }
        }
    }
}

/// Whether a wait ended with this error.
pub open spec fn failed_with(outcome: Outcome, error: Error) -> bool {
    outcome == Outcome::Done(Err(error)) || outcome == Outcome::Got(Err(error))
}

/// Whether a wait ended well.
pub open spec fn went_well(outcome: Outcome) -> bool {
    match outcome {
        Outcome::Done(result) => result is Ok,
        Outcome::Got(result) => result is Ok,
    }
}

/// A session hangs up only where a wait fails. An error with which it ends is
/// one with which a wait ended; as long as every wait ends well it goes on,
/// whatever requests and replies hold.
pub proof fn law_session_fails_only_where_a_wait_fails(outcomes: Seq<Outcome>)
    ensures
        match session(outcomes) {
            ClientStep::Finished(Err(error)) | ClientStep::Leave(Leaving { result: Err(error) }) => {
                exists|k: int|
                    0 <= k < outcomes.len() && failed_with(#[trigger] outcomes[k], error)
            },
            _ => true,
        },
        session(outcomes) is Finished || session(outcomes) is Leave ==> exists|k: int|
            0 <= k < outcomes.len() && !went_well(#[trigger] outcomes[k]),
    decreases outcomes.len(),
{
    if outcomes.len() > 0 {
        let before = outcomes.drop_last();
        law_session_fails_only_where_a_wait_fails(before);
        let last = outcomes[outcomes.len() - 1];
        assert(last == outcomes.last());
        if session(before) is Finished || session(before) is Leave {
            let k = choose|k: int| 0 <= k < before.len() && !went_well(#[trigger] before[k]);
            assert(outcomes[k] == before[k]);
        } else {
            assert(session(outcomes) is Finished || session(outcomes) is Leave ==> !went_well(
                last,
            ));
        }
        match session(outcomes) {
            ClientStep::Finished(Err(error)) | ClientStep::Leave(Leaving { result: Err(error) }) => {
                if !failed_with(last, error) {
                    let k = choose|k: int|
                        0 <= k < before.len() && failed_with(#[trigger] before[k], error);
                    assert(outcomes[k] == before[k]);
                }
            },
            _ => {},
        }
    }
}

/// Every reply that a session receives is what it writes next, and every request
/// that it reads is what it hands on next, unaltered and whatever it holds.
pub proof fn law_frames_are_passed_on(
    outcomes: Seq<Outcome>,
    frame: Frame,
    forwarded: ClientStep,
    written: ClientStep,
)
    requires
        call_ensures(Listening::resume, (Listening, Ok(frame)), forwarded),
        call_ensures(Awaiting::resume, (Awaiting, Ok(frame)), written),
    ensures
        forwarded == ClientStep::Forward(frame, Forwarding),
        written == ClientStep::Reply(frame, Replying),
        session(outcomes) is Listen ==> session(outcomes.push(Outcome::Got(Ok(frame))))
            == forwarded,
        session(outcomes) is Await ==> session(outcomes.push(Outcome::Got(Ok(frame)))) == written,
        call_requires(Listening::resume, (Listening, Ok(frame))),
        call_requires(Awaiting::resume, (Awaiting, Ok(frame))),
{
    assert(outcomes.push(Outcome::Got(Ok(frame))).drop_last() =~= outcomes);
}

/// As long as nothing fails a session goes its round: set up, announced, then a
/// request is read, handed on, answered, and the next is read.
pub proof fn law_session_goes_its_round(
    start: ClientStep,
    listen: ClientStep,
    set_up: ClientStep,
    announced: ClientStep,
    handed_on: ClientStep,
    written: ClientStep,
)
    requires
        call_ensures(Bridge::handle_client, (), start),
        call_ensures(Bridge::client_loop, (), listen),
        call_ensures(Arriving::resume, (Arriving, Ok(())), set_up),
        call_ensures(Announcing::resume, (Announcing, Ok(())), announced),
        call_ensures(Forwarding::resume, (Forwarding, Ok(())), handed_on),
        call_ensures(Replying::resume, (Replying, Ok(())), written),
    ensures
        start == ClientStep::SetNodelay(Arriving),
        start == session(Seq::empty()),
        set_up == ClientStep::Announce(Announcing),
        announced == ClientStep::Listen(Listening),
        handed_on == ClientStep::Await(Awaiting),
        written == ClientStep::Listen(Listening),
        listen == announced,
        call_requires(Bridge::handle_client, ()),
        call_requires(Bridge::client_loop, ()),
        call_requires(Arriving::resume, (Arriving, Ok(()))),
        call_requires(Announcing::resume, (Announcing, Ok(()))),
        call_requires(Forwarding::resume, (Forwarding, Ok(()))),
        call_requires(Replying::resume, (Replying, Ok(()))),
{
}

/// A client that cannot be set up or announced is dropped with that error. Once
/// it is announced, a failure makes it leave with that error; that no request
/// can be read any more is no failure.
pub proof fn law_session_reports_failures(
    error: Error,
    not_set_up: ClientStep,
    not_announced: ClientStep,
    not_read: ClientStep,
    not_handed_on: ClientStep,
    not_answered: ClientStep,
    not_written: ClientStep,
)
    requires
        call_ensures(Arriving::resume, (Arriving, Err(error)), not_set_up),
        call_ensures(Announcing::resume, (Announcing, Err(error)), not_announced),
        call_ensures(Listening::resume, (Listening, Err(error)), not_read),
        call_ensures(Forwarding::resume, (Forwarding, Err(error)), not_handed_on),
        call_ensures(Awaiting::resume, (Awaiting, Err(error)), not_answered),
        call_ensures(Replying::resume, (Replying, Err(error)), not_written),
    ensures
        not_set_up == ClientStep::Finished(Err(error)),
        not_announced == ClientStep::Finished(Err(error)),
        not_read == ClientStep::Leave(Leaving { result: Ok(()) }),
        not_handed_on == ClientStep::Leave(Leaving { result: Err(error) }),
        not_answered == ClientStep::Leave(Leaving { result: Err(error) }),
        not_written == ClientStep::Leave(Leaving { result: Err(error) }),
        call_requires(Arriving::resume, (Arriving, Err(error))),
        call_requires(Announcing::resume, (Announcing, Err(error))),
        call_requires(Listening::resume, (Listening, Err(error))),
        call_requires(Forwarding::resume, (Forwarding, Err(error))),
        call_requires(Awaiting::resume, (Awaiting, Err(error))),
        call_requires(Replying::resume, (Replying, Err(error))),
{
}

/// A session that has taken its leave ends as it went; one that could not take
/// it ends with that error.
pub proof fn law_session_ends_as_it_went(
    leaving: Leaving,
    error: Error,
    left: ClientStep,
    not_left: ClientStep,
)
    requires
        call_ensures(Leaving::resume, (leaving, Ok(())), left),
        call_ensures(Leaving::resume, (leaving, Err(error)), not_left),
    ensures
        left == ClientStep::Finished(leaving.result),
        not_left == ClientStep::Finished(Err(error)),
        call_requires(Leaving::resume, (leaving, Ok(()))),
        call_requires(Leaving::resume, (leaving, Err(error))),
{
}

} // verus!
