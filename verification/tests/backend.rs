use modbus_proxy_rs::{
    create_connection, Device, Dialed, Error, ExchangeStep, Frame, Message, Receiving, RunStep,
};

fn request(id: u8) -> Frame {
    vec![
        0x00, id, 0x00, 0x00, 0x00, 0x06, 0x01, 0x03, 0x00, 0x00, 0x00, 0x01,
    ]
}

fn io_error(text: &str) -> Error {
    Error::Outside(text.to_string())
}

/// A connection, known by a number.
type Stream = u32;

fn connected() -> Device<Stream> {
    let mut device = Device::new("plc1.acme.org:502", 0);
    device.connect(Ok(1)).unwrap();
    device
}

#[test]
fn test_transaction_id_mismatch() {
    let device = connected();
    let request_frame = request(0x01);
    // Reply with a wrong transaction ID (0x99, 0x99) instead of (0x00, 0x01).
    let wrong_reply: Frame = vec![
        0x99, 0x99, 0x00, 0x00, 0x00, 0x05, 0x01, 0x03, 0x02, 0x00, 0x00,
    ];

    let write = device.raw_write_read(&request_frame).unwrap();
    let read = write.resume(Ok(())).unwrap();
    let result = read.resume(Ok(wrong_reply));

    if result.is_err() {
        let err_msg = result.err().unwrap().message();
        assert!(
            err_msg.contains("transaction ID mismatch"),
            "Incorrect err: {}",
            err_msg
        );
    } else {
        panic!("Expected an error, but got success: {:?}", result);
    }
}

#[test]
fn test_valid_transaction_id() {
    let device = connected();
    let request_frame = request(0x01);
    let valid_reply: Frame = vec![
        0x00, 0x01, 0x00, 0x00, 0x00, 0x05, 0x01, 0x03, 0x02, 0x00, 0x00,
    ];

    let write = device.raw_write_read(&request_frame).unwrap();
    assert_eq!(write.frame, &request_frame);
    let read = write.resume(Ok(())).unwrap();
    let result = read.resume(Ok(valid_reply.clone()));
    assert!(result.is_ok(), "Expected success, got {:?}", result);
    let reply = result.unwrap();
    assert_eq!(reply[0..2], request_frame[0..2]);
    assert_eq!(reply, valid_reply);
}

#[test]
fn test_backend_timeout() {
    let device = connected();
    let request_frame = request(0x01);

    let write = device.raw_write_read(&request_frame).unwrap();
    let read = write.resume(Ok(())).unwrap();
    assert_eq!(read.timeout_secs, 5, "Should have taken 5s timeout");
    let result = read.resume(Err(Error::Timeout));

    assert!(result.is_err());
    let err_msg = result.unwrap_err().message();
    assert!(
        err_msg.contains("deadline has elapsed") || err_msg.contains("timeout"),
        "Got msg: {}",
        err_msg
    );
}

#[test]
fn test_multiplex_concurrency() {
    // Two clients send a request each; both go over one connection.
    let mut task: Receiving<Stream> = Device::launch("plc1.acme.org:502", 0);
    let mut dialed = 0;
    let mut replies = vec![];
    for (client, id) in [("client 1", 0x01), ("client 2", 0x02)] {
        let mut step = task.resume(Message::Packet(request(id), client));
        let mut written: Frame = vec![];
        task = loop {
            step = match step {
                RunStep::Connect(busy) => {
                    dialed += 1;
                    busy.resume(Ok(7))
                }
                RunStep::Write(busy) => {
                    assert_eq!(busy.pending.device.stream, Some(7));
                    written = busy.pending.request.clone();
                    busy.resume(Ok(()))
                }
                // Echo the request back.
                RunStep::Read(busy) => {
                    assert_eq!(busy.pending.device.stream, Some(7));
                    busy.resume(Ok(written.clone()))
                }
                RunStep::Reply(reply_to, reply, task) => {
                    replies.push((reply_to, reply));
                    break task;
                }
                other => panic!("unexpected {:?}", other),
            };
        };
    }
    assert_eq!(dialed, 1);
    assert_eq!(replies[0].0, "client 1");
    assert_eq!(replies[0].1[0..2], [0x00, 0x01], "Client 1 got wrong Transaction ID");
    assert_eq!(replies[1].0, "client 2");
    assert_eq!(replies[1].1[0..2], [0x00, 0x02], "Client 2 got wrong Transaction ID");
}

#[test]
fn test_connect_delay_waits_before_first_backend_request() {
    let dialing = create_connection("127.0.0.1:502", 100);
    assert_eq!(dialing.url, "127.0.0.1:502");
    let opened = dialing.resume(Ok(3)).unwrap();
    assert_eq!(opened.stream, 3);
    let stream = match opened.resume(Ok(())).unwrap() {
        Dialed::Settle(settling) => {
            assert_eq!(
                settling.connect_delay_ms, 100,
                "backend request arrived before configured connect delay"
            );
            settling.resume()
        }
        Dialed::Ready(_) => panic!("no delay"),
    };
    assert_eq!(stream, 3);

    let mut device: Device<Stream> = Device::new("127.0.0.1:502", 100);
    assert_eq!(device.connect_delay_ms, 100);
    device.connect(Ok(stream)).unwrap();
    let request_frame = request(0x01);
    let valid_reply: Frame = vec![
        0x00, 0x01, 0x00, 0x00, 0x00, 0x05, 0x01, 0x03, 0x02, 0x00, 0x00,
    ];
    let write = device.raw_write_read(&request_frame).unwrap();
    let reply = write.resume(Ok(())).unwrap().resume(Ok(valid_reply)).unwrap();
    assert_eq!(reply[0..2], request_frame[0..2]);
}

#[test]
fn no_delay_means_no_wait() {
    let opened = create_connection("a:1", 0).resume(Ok(5)).unwrap();
    match opened.resume(Ok(())).unwrap() {
        Dialed::Ready(stream) => assert_eq!(stream, 5),
        Dialed::Settle(_) => panic!("a wait without a delay"),
    }
}

#[test]
fn failures_to_open_are_passed_on() {
    let failed = create_connection("a:1", 10).resume::<Stream>(Err(io_error("refused")));
    assert_eq!(failed.unwrap_err().message(), "refused");
    let opened = create_connection("a:1", 10).resume(Ok(5)).unwrap();
    let failed = opened.resume(Err(io_error("bad option")));
    assert_eq!(failed.unwrap_err().message(), "bad option");
}

#[test]
fn a_device_starts_without_a_connection() {
    let mut device: Device<Stream> = Device::new("plc1.acme.org:502", 2000);
    assert_eq!(device.url, "plc1.acme.org:502");
    assert_eq!(device.connect_delay_ms, 2000);
    assert!(!device.is_connected());
    let failed = device.raw_write_read(&request(1)).map(|_| ());
    assert_eq!(failed.unwrap_err().message(), "no modbus connection");

    device.connect(Ok(4)).unwrap();
    assert!(device.is_connected());
    device.disconnect();
    assert!(!device.is_connected());
}

#[test]
fn a_failed_connect_gives_up_the_earlier_connection() {
    let mut device = connected();
    let failed = device.connect(Err(io_error("refused")));
    assert_eq!(failed.unwrap_err().message(), "refused");
    assert!(!device.is_connected());
    device.connect(Ok(8)).unwrap();
    device.connect(Ok(9)).unwrap();
    assert_eq!(device.stream, Some(9));
}

#[test]
fn a_failed_write_is_retried_over_a_fresh_connection() {
    let step = connected().write_read(request(1));
    let writing = match step {
        ExchangeStep::Write(writing) => writing,
        other => panic!("unexpected {:?}", other),
    };
    assert!(!writing.reconnected);
    let connecting = match writing.resume(Err(io_error("broken pipe"))) {
        ExchangeStep::Connect(connecting) => connecting,
        other => panic!("unexpected {:?}", other),
    };
    assert_eq!(connecting.cause.as_ref().unwrap().message(), "broken pipe");
    assert_eq!(connecting.device.stream, Some(1));
    let writing = match connecting.resume(Ok(2)) {
        ExchangeStep::Write(writing) => writing,
        other => panic!("unexpected {:?}", other),
    };
    assert!(writing.reconnected);
    assert_eq!(writing.request, request(1));
    assert_eq!(writing.device.stream, Some(2));
    let reading = match writing.resume(Ok(())) {
        ExchangeStep::Read(reading) => reading,
        other => panic!("unexpected {:?}", other),
    };
    match reading.resume(Ok(request(1))) {
        ExchangeStep::Done(device, Ok(reply)) => {
            assert_eq!(device.stream, Some(2));
            assert_eq!(reply, request(1));
        }
        other => panic!("unexpected {:?}", other),
    }
}

#[test]
fn a_silent_backend_is_tried_twice_and_no_more() {
    let mut step = connected().write_read(request(1));
    let mut seconds = 0;
    let mut waits = 0;
    let error = loop {
        waits += 1;
        step = match step {
            ExchangeStep::Connect(connecting) => connecting.resume(Ok(2)),
            ExchangeStep::Write(writing) => writing.resume(Ok(())),
            ExchangeStep::Read(reading) => {
                seconds += reading.raw.timeout_secs;
                reading.resume(Err(Error::Timeout))
            }
            ExchangeStep::Done(device, result) => {
                assert_eq!(device.stream, Some(2));
                break result.unwrap_err();
            }
        };
    };
    assert_eq!(error.message(), "deadline has elapsed");
    assert_eq!(seconds, 10);
    assert_eq!(waits, 6);
}

#[test]
fn without_a_connection_there_is_one_try() {
    let device: Device<Stream> = Device::new("a:1", 0);
    let connecting = match device.write_read(request(1)) {
        ExchangeStep::Connect(connecting) => connecting,
        other => panic!("unexpected {:?}", other),
    };
    assert!(connecting.cause.is_none());
    let writing = match connecting.resume(Ok(2)) {
        ExchangeStep::Write(writing) => writing,
        other => panic!("unexpected {:?}", other),
    };
    match writing.resume(Err(io_error("reset"))) {
        ExchangeStep::Done(device, Err(error)) => {
            assert_eq!(device.stream, Some(2));
            assert_eq!(error.message(), "reset");
        }
        other => panic!("unexpected {:?}", other),
    }
}

#[test]
fn a_failed_request_closes_the_connection_and_the_next_opens_one() {
    let task = connected().run();
    let busy = match task.resume(Message::Packet(request(1), "client")) {
        RunStep::Write(busy) => busy,
        other => panic!("unexpected {:?}", other),
    };
    let busy = match busy.resume(Err(io_error("broken pipe"))) {
        RunStep::Connect(busy) => busy,
        other => panic!("unexpected {:?}", other),
    };
    let task = match busy.resume(Err(io_error("refused"))) {
        RunStep::Abandon(reply_to, error, task) => {
            assert_eq!(reply_to, "client");
            assert_eq!(error.message(), "refused");
            task
        }
        other => panic!("unexpected {:?}", other),
    };
    assert!(!task.device.is_connected());
    match task.resume(Message::Packet(request(2), "client")) {
        RunStep::Connect(busy) => {
            assert!(busy.pending.cause.is_none());
            assert_eq!(busy.pending.request, request(2));
        }
        other => panic!("unexpected {:?}", other),
    }
}

#[test]
fn a_second_failure_closes_the_fresh_connection_too() {
    let task: Receiving<Stream> = Device::launch("a:1", 0);
    let busy = match task.resume(Message::Packet(request(1), 'c')) {
        RunStep::Connect(busy) => busy,
        other => panic!("unexpected {:?}", other),
    };
    let busy = match busy.resume(Ok(5)) {
        RunStep::Write(busy) => busy,
        other => panic!("unexpected {:?}", other),
    };
    let busy = match busy.resume(Ok(())) {
        RunStep::Read(busy) => busy,
        other => panic!("unexpected {:?}", other),
    };
    match busy.resume(Ok(request(2))) {
        RunStep::Abandon('c', error, task) => {
            assert_eq!(
                error.message(),
                "transaction ID mismatch: expected [0, 1], got [0, 2]"
            );
            assert_eq!(task.device.stream, None);
        }
        other => panic!("unexpected {:?}", other),
    }
}

/// Serves a message that is not a request.
fn notify(task: Receiving<Stream>, message: Message<()>) -> Receiving<Stream> {
    match task.resume(message) {
        RunStep::Receive(task) => task,
        other => panic!("unexpected {:?}", other),
    }
}

#[test]
fn the_connection_is_closed_with_the_last_client() {
    let mut task = connected().run();
    assert_eq!(task.nb_clients, 0);
    task = notify(task, Message::Connection);
    task = notify(task, Message::Connection);
    assert_eq!(task.nb_clients, 2);
    task = notify(task, Message::Disconnection);
    assert_eq!(task.nb_clients, 1);
    assert_eq!(task.device.stream, Some(1));
    task = notify(task, Message::Disconnection);
    assert_eq!(task.nb_clients, 0);
    assert_eq!(task.device.stream, None);
    task = notify(task, Message::Connection);
    assert_eq!(task.device.stream, None);
}

#[test]
fn a_client_that_was_never_counted_closes_nothing() {
    let task = notify(connected().run(), Message::Disconnection);
    assert_eq!(task.nb_clients, -1);
    assert_eq!(task.device.stream, Some(1));
}

/// Serves a request, over a fresh connection numbered `fresh` if one is opened,
/// and echoes it back.
fn echo(task: Receiving<Stream>, id: u8, fresh: Stream) -> Receiving<Stream> {
    let mut step = task.resume(Message::Packet(request(id), id));
    loop {
        step = match step {
            RunStep::Connect(busy) => busy.resume(Ok(fresh)),
            RunStep::Write(busy) => busy.resume(Ok(())),
            RunStep::Read(busy) => busy.resume(Ok(request(id))),
            RunStep::Reply(reply_to, reply, task) => {
                assert_eq!(reply_to, id);
                assert_eq!(reply, request(id));
                return task;
            }
            other => panic!("unexpected {:?}", other),
        };
    }
}

#[test]
fn interleaved_clients_share_a_connection_until_the_last_has_gone() {
    let mut task: Receiving<Stream> = Device::launch("plc1.acme.org:502", 0);
    task = notify(task, Message::Connection);
    assert_eq!(task.device.stream, None);
    task = echo(task, 1, 10);
    task = notify(task, Message::Connection);
    task = echo(task, 2, 11);
    assert_eq!(task.device.stream, Some(10));
    task = notify(task, Message::Disconnection);
    task = echo(task, 3, 12);
    assert_eq!(task.nb_clients, 1);
    assert_eq!(task.device.stream, Some(10));
    task = notify(task, Message::Disconnection);
    assert_eq!(task.nb_clients, 0);
    assert_eq!(task.device.stream, None);
    task = notify(task, Message::Connection);
    task = echo(task, 4, 13);
    assert_eq!(task.device.stream, Some(13));
}

#[test]
fn a_request_dials_its_own_device() {
    let device: Device<Stream> = Device::new("plc1.acme.org:502", 250);
    assert_eq!(device.dial().url, "plc1.acme.org:502");
    let connecting = match device.write_read(request(1)) {
        ExchangeStep::Connect(connecting) => connecting,
        other => panic!("unexpected {:?}", other),
    };
    let dialing = connecting.dial();
    assert_eq!(dialing.url, "plc1.acme.org:502");
    assert_eq!(dialing.connect_delay_ms, 250);
    let stream = match dialing.resume(Ok(6)).unwrap().resume(Ok(())).unwrap() {
        Dialed::Settle(settling) => {
            assert_eq!(settling.connect_delay_ms, 250);
            settling.resume()
        }
        Dialed::Ready(_) => panic!("no delay"),
    };
    match connecting.resume(Ok(stream)) {
        ExchangeStep::Write(writing) => assert_eq!(writing.device.stream, Some(6)),
        other => panic!("unexpected {:?}", other),
    }
}

#[test]
fn a_stopped_task_leaves_its_device_as_it_is() {
    let device = notify(connected().run(), Message::Connection).stop();
    assert_eq!(device.url, "plc1.acme.org:502");
    assert_eq!(device.stream, Some(1));
}

#[test]
fn clients_with_the_same_transaction_id_get_their_own_replies() {
    let mut task = connected().run();
    let mut replies = vec![];
    for (client, value) in [("client 1", 0x11), ("client 2", 0x22)] {
        let mut step = task.resume(Message::Packet(request(1), client));
        task = loop {
            step = match step {
                RunStep::Write(busy) => busy.resume(Ok(())),
                RunStep::Read(busy) => busy.resume(Ok(vec![0, 1, 0, 0, 0, 1, value])),
                RunStep::Reply(reply_to, reply, task) => {
                    replies.push((reply_to, reply[6]));
                    break task;
                }
                other => panic!("unexpected {:?}", other),
            };
        };
    }
    assert_eq!(replies, [("client 1", 0x11), ("client 2", 0x22)]);
}
