//! All clients of a device together: what their sessions, interleaved in any
//! way, make of the connection that they share.

use vstd::prelude::*;

use crate::client::{Kind, Outcome};
use crate::error::Error;
use crate::frame::Frame;
use crate::task::{Entry, Message, Receiving};

verus! {

/// A message, what the network does while it is served, and who sent it.
pub type Sent<S, R> = (int, Entry<S, R>);

impl<R> Message<R> {
    /// What kind of message this is.
    pub open spec fn kind(self) -> Kind {
        match self {
            Message::Connection => Kind::Connection,
            Message::Disconnection => Kind::Disconnection,
            Message::Packet(_, _) => Kind::Packet,
        }
    }
}

/// The messages as the task of the device receives them.
pub open spec fn received<S, R>(log: Seq<Sent<S, R>>) -> Seq<Entry<S, R>> {
    log.map_values(|sent: Sent<S, R>| sent.1)
}

/// The messages of one client.
pub open spec fn sent_by<S, R>(log: Seq<Sent<S, R>>, client: int) -> Seq<Kind>
    decreases log.len(),
{
    if log.len() == 0 {
        seq![]
    } else if log.last().0 == client {
        sent_by(log.drop_last(), client).push(log.last().1.0.kind())
    } else {
        sent_by(log.drop_last(), client)
    }
}

/// Whether the messages of each client are those of a session.
pub open spec fn are_sessions<S, R>(log: Seq<Sent<S, R>>) -> bool {
    forall|client: int| crate::client::is_session(#[trigger] sent_by(log, client))
}

/// The clients that have come and have not gone.
pub open spec fn present<S, R>(log: Seq<Sent<S, R>>) -> Set<int>
    decreases log.len(),
{
    if log.len() == 0 {
        Set::empty()
    } else {
        match log.last().1.0 {
            Message::Connection => present(log.drop_last()).insert(log.last().0),
            Message::Disconnection => present(log.drop_last()).remove(log.last().0),
            Message::Packet(_, _) => present(log.drop_last()),
        }
    }
}

/// Sessions stay sessions when the last message is taken away.
proof fn lemma_sessions_before<S, R>(log: Seq<Sent<S, R>>)
    requires
        log.len() > 0,
        are_sessions(log),
    ensures
        are_sessions(log.drop_last()),
{
    assert forall|client: int|
        crate::client::is_session(#[trigger] sent_by(log.drop_last(), client)) by {
        let kinds = sent_by(log, client);
        let before = sent_by(log.drop_last(), client);
        assert(crate::client::is_session(kinds));
        assert forall|i: int| 0 <= i < before.len() implies {
            &&& (i == 0 <==> #[trigger] before[i] is Connection)
            &&& (before[i] is Disconnection ==> i == before.len() - 1)
        } by {
            assert(kinds[i] == before[i]);
        }
    }
}

/// A client is present exactly if it has sent something and that did not end
/// with its leave.
proof fn lemma_present<S, R>(log: Seq<Sent<S, R>>, client: int)
    requires
        are_sessions(log),
    ensures
        present(log).contains(client) <==> sent_by(log, client).len() > 0 && !(sent_by(
            log,
            client,
        ).last() is Disconnection),
    decreases log.len(),
{
    if log.len() > 0 {
        lemma_sessions_before(log);
        lemma_present(log.drop_last(), client);
        if log.last().0 == client {
            let kinds = sent_by(log, client);
            assert(crate::client::is_session(kinds));
            assert(kinds.last() == log.last().1.0.kind());
            if kinds.len() > 1 {
                let last = sent_by(log.drop_last(), client).last();
                assert(kinds[kinds.len() - 2] == last);
            } else {
                assert(kinds[0] is Connection);
            }
        }
    }
}

/// The client that sends a message was present before it, unless the message
/// is its first.
proof fn lemma_sender<S, R>(log: Seq<Sent<S, R>>)
    requires
        log.len() > 0,
        are_sessions(log),
    ensures
        log.last().1.0 is Connection <==> !present(log.drop_last()).contains(log.last().0),
{
    let client = log.last().0;
    let kinds = sent_by(log, client);
    lemma_sessions_before(log);
    lemma_present(log.drop_last(), client);
    assert(crate::client::is_session(kinds));
    assert(kinds.last() == log.last().1.0.kind());
    if kinds.len() > 1 {
        assert(kinds[kinds.len() - 2] == sent_by(log.drop_last(), client).last());
        assert(!(kinds[kinds.len() - 1] is Connection));
    } else {
        assert(kinds[0] is Connection);
    }
}

/// Whether there were never more clients at once than the task can count.
pub open spec fn countable<S, R>(log: Seq<Sent<S, R>>) -> bool {
    forall|k: int| 0 <= k <= log.len() ==> present(#[trigger] log.take(k)).len() <= i32::MAX
}

/// What was countable stays so when the last message is taken away.
proof fn lemma_countable_before<S, R>(log: Seq<Sent<S, R>>)
    requires
        log.len() > 0,
        countable(log),
    ensures
        countable(log.drop_last()),
        present(log).len() <= i32::MAX,
{
    let before = log.drop_last();
    assert(log.take(log.len() as int) =~= log);
    assert forall|k: int| 0 <= k <= before.len() implies present(#[trigger] before.take(k)).len()
        <= i32::MAX by {
        assert(before.take(k) =~= log.take(k));
    }
}

/// However the sessions of clients are interleaved and whatever the network
/// does, a task that started without clients and without a connection knows how
/// many clients are present, and has a connection open only while one is. So
/// the connection is closed when the last client leaves. All this as long as the
/// clients that are present at once can be counted; how many messages they send
/// does not matter.
pub proof fn law_connected_only_while_clients_are_present<S, R>(
    task: Receiving<S>,
    log: Seq<Sent<S, R>>,
)
    requires
        task.nb_clients == 0,
        task.device.stream is None,
        are_sessions(log),
        countable(log),
    ensures
        present(log).finite(),
        crate::task::state_after(task, received(log)).nb_clients == present(log).len(),
        present(log) == Set::<int>::empty() ==> crate::task::state_after(
            task,
            received(log),
        ).device.stream is None,
    decreases log.len(),
{
    if log.len() > 0 {
        let before = log.drop_last();
        lemma_sessions_before(log);
        lemma_countable_before(log);
        law_connected_only_while_clients_are_present(task, before);
        assert(received(log).drop_last() =~= received(before));
        assert(received(log).last() == log.last().1);
        lemma_sender(log);
        if log.last().1.0 is Packet {
            assert(present(before).contains(log.last().0));
            assert(present(log) != Set::<int>::empty());
        } else if log.last().1.0 is Connection {
            assert(present(log).contains(log.last().0));
        } else {
            assert(present(before).contains(log.last().0));
            assert(present(log).len() == present(before).len() - 1);
        }
    }
}

/// The task can take every message that comes: as long as the clients that are
/// present at once can be counted, the count never overflows.
pub proof fn law_every_message_can_be_taken<S, R>(task: Receiving<S>, log: Seq<Sent<S, R>>)
    requires
        task.nb_clients == 0,
        task.device.stream is None,
        are_sessions(log),
        log.len() > 0,
        countable(log),
    ensures
        crate::task::state_after(task, received(log.drop_last())).can_take(log.last().1.0),
{
    lemma_sessions_before(log);
    lemma_countable_before(log);
    lemma_sender(log);
    law_connected_only_while_clients_are_present(task, log.drop_last());
}

/// What the task of a device receives of any number of clients, as far as it has
/// received it, are sessions.
pub proof fn law_task_receives_sessions<S, R>(
    log: Seq<Sent<S, R>>,
    outcomes: spec_fn(int) -> Seq<Outcome>,
)
    requires
        forall|client: int|
            (#[trigger] sent_by(log, client)).is_prefix_of(crate::client::sent(outcomes(client))),
    ensures
        are_sessions(log),
{
    assert forall|client: int| crate::client::is_session(#[trigger] sent_by(log, client)) by {
        let kinds = crate::client::sent(outcomes(client));
        let received = sent_by(log, client);
        crate::client::law_session_is_announced_and_left(outcomes(client));
        assert forall|i: int| 0 <= i < received.len() implies {
            &&& (i == 0 <==> #[trigger] received[i] is Connection)
            &&& (received[i] is Disconnection ==> i == received.len() - 1)
        } by {
            assert(kinds[i] == received[i]);
        }
    }
}

/// The connection is reused while clients are present: once one is open, it
/// stays the same for as long as there is a client and no request fails on it,
/// whoever comes and goes.
pub proof fn law_connection_is_kept_while_clients_are_present<S, R>(
    task: Receiving<S>,
    log: Seq<Sent<S, R>>,
    opened: int,
)
    requires
        task.nb_clients == 0,
        task.device.stream is None,
        are_sessions(log),
        countable(log),
        0 <= opened <= log.len(),
        crate::task::state_after(task, received(log.take(opened))).device.stream is Some,
        forall|k: int|
            opened <= k <= log.len() ==> present(#[trigger] log.take(k)) != Set::<int>::empty(),
        forall|k: int|
            opened <= k < log.len() ==> ((#[trigger] log[k]).1.0 matches Message::Packet(frame, _)
                ==> crate::exchange::attempt(
                frame@,
                log[k].1.1.first_write,
                log[k].1.1.first_read,
            ) is Ok),
    ensures
        crate::task::state_after(task, received(log)).device == crate::task::state_after(
            task,
            received(log.take(opened)),
        ).device,
    decreases log.len(),
{
    if opened == log.len() {
        assert(log.take(opened) =~= log);
    } else {
        let before = log.drop_last();
        assert(log.take(log.len() as int) =~= log);
        assert(log[log.len() - 1] == log.last());
        lemma_sessions_before(log);
        lemma_countable_before(log);
        assert forall|k: int| opened <= k <= before.len() implies present(
            #[trigger] before.take(k),
        ) != Set::<int>::empty() by {
            assert(before.take(k) =~= log.take(k));
        }
        assert forall|k: int| opened <= k < before.len() implies ((#[trigger] before[k]).1.0 matches
            Message::Packet(frame, _) ==> crate::exchange::attempt(
            frame@,
            before[k].1.1.first_write,
            before[k].1.1.first_read,
        ) is Ok) by {
            assert(before[k] == log[k]);
        }
        assert(before.take(opened) =~= log.take(opened));
        law_connection_is_kept_while_clients_are_present(task, before, opened);
        law_connected_only_while_clients_are_present(task, before);
        lemma_sender(log);
        assert(received(log).drop_last() =~= received(before));
        assert(received(log).last() == log.last().1);
        if log.last().1.0 is Disconnection {
            let leaver = log.last().0;
            assert(present(before).contains(leaver));
            assert(present(log).len() == present(before).len() - 1);
            if present(log).len() == 0 {
                law_connected_only_while_clients_are_present(task, log);
                assert(present(log) =~= Set::<int>::empty());
            }
        }
    }
}

/// Where a reply is to go: which client asked, and how many requests it had
/// asked before.
pub type Channel = (int, int);

/// Whether each request that the task received is the one that its client asked
/// under that number.
pub open spec fn asked_by_clients<S>(
    log: Seq<Sent<S, Channel>>,
    outcomes: spec_fn(int) -> Seq<Outcome>,
) -> bool {
    forall|i: int|
        0 <= i < crate::task::requests(received(log)).len() ==> {
            let (frame, (client, number)) = #[trigger] crate::task::requests(received(log))[i];
            let asked = crate::client::asked(outcomes(client));
            0 <= number < asked.len() && frame@ == asked[number]@
        }
}

/// Whether each reply that a client learnt is an answer that the task gave to
/// the request of that number.
pub open spec fn learnt_from_task<S>(
    task: Receiving<S>,
    log: Seq<Sent<S, Channel>>,
    outcomes: spec_fn(int) -> Seq<Outcome>,
) -> bool {
    forall|client: int, number: int|
        0 <= number < crate::client::learnt(outcomes(client)).len()
            ==> crate::task::answers(task, received(log)).contains(
            (
                (client, number),
                Ok(#[trigger] crate::client::learnt(outcomes(client))[number]),
            ),
        )
}

/// Whether `reply` is a frame that the backend sent while the task served the
/// request of that client and number, and whether that request held `request`.
pub open spec fn replied_to<S>(
    entry: Entry<S, Channel>,
    client: int,
    number: int,
    request: Seq<u8>,
    reply: Frame,
) -> bool {
    &&& entry.0 matches Message::Packet(frame, reply_to)
    &&& frame@ == request
    &&& reply_to == (client, number)
    &&& crate::task::replied(entry, frame, reply_to, reply)
}

/// There is no cross-talk: where any number of clients send requests over one
/// task, interleaved in any way, each client gets replies to its own requests.
/// The replies that are written to it match the requests that were read from it,
/// one by one: the backend sent each of them while that very request of that
/// client was served, and it carries the request's transaction ID.
pub proof fn law_no_cross_talk<S>(
    task: Receiving<S>,
    log: Seq<Sent<S, Channel>>,
    outcomes: spec_fn(int) -> Seq<Outcome>,
    client: int,
)
    requires
        asked_by_clients(log, outcomes),
        learnt_from_task(task, log, outcomes),
    ensures
        crate::client::answered(outcomes(client)).len() <= crate::client::heard(
            outcomes(client),
        ).len(),
        forall|i: int|
            0 <= i < crate::client::answered(outcomes(client)).len() ==> {
                let reply = #[trigger] crate::client::answered(outcomes(client))[i];
                let request = crate::client::heard(outcomes(client))[i]@;
                &&& crate::device::transaction_id(reply@) == crate::device::transaction_id(request)
                &&& exists|k: int|
                    0 <= k < received(log).len() && replied_to(
                        #[trigger] received(log)[k],
                        client,
                        i,
                        request,
                        reply,
                    )
            },
{
    let learnt = crate::client::learnt(outcomes(client));
    let asked = crate::client::asked(outcomes(client));
    let heard = crate::client::heard(outcomes(client));
    let answered = crate::client::answered(outcomes(client));
    let entries = received(log);
    let requests = crate::task::requests(entries);
    let answers = crate::task::answers(task, entries);
    crate::task::law_first_come_first_served(task, entries);
    assert forall|number: int| 0 <= number < learnt.len() implies crate::device::transaction_id(
        #[trigger] learnt[number]@,
    ) == crate::device::transaction_id(asked[number]@) && exists|k: int|
        0 <= k < entries.len() && replied_to(
            #[trigger] entries[k],
            client,
            number,
            asked[number]@,
            learnt[number],
        ) by {
        let answer = ((client, number), Ok::<Frame, Error>(learnt[number]));
        assert(answers.contains(answer));
        let i = choose|i: int| 0 <= i < answers.len() && answers[i] == answer;
        assert(requests[i].1 == (client, number));
        let k = choose|k: int|
            0 <= k < entries.len() && crate::task::replied(
                #[trigger] entries[k],
                requests[i].0,
                requests[i].1,
                learnt[number],
            );
        assert(replied_to(entries[k], client, number, asked[number]@, learnt[number]));
    }
    crate::client::law_client_gets_replies_to_its_requests(outcomes(client));
    crate::client::law_session_is_transparent(outcomes(client));
    assert forall|i: int| 0 <= i < answered.len() implies exists|k: int|
        0 <= k < entries.len() && replied_to(
            #[trigger] entries[k],
            client,
            i,
            heard[i]@,
            #[trigger] answered[i],
        ) by {
        assert(answered[i] == learnt[i]);
        assert(asked[i] == heard[i]);
    }
}

} // verus!
