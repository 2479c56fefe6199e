use modbus_proxy_rs::{
    Bridge, BridgeTask, ClientStep, Error, Frame, Listen, Modbus, Server, QUEUE_LEN,
};

fn io_error(text: &str) -> Error {
    Error::Outside(text.to_string())
}

fn frame(id: u8) -> Frame {
    vec![0, id, 0, 0, 0, 1, 0x2A]
}

/// What one session does with scripted outcomes.
struct Script {
    requests: Vec<Frame>,
    replies: Vec<Result<Frame, Error>>,
    nodelay: Result<(), Error>,
    announce: Result<(), Error>,
    forward: Option<Error>,
    write: Option<Error>,
    leave: Result<(), Error>,
}

impl Script {
    fn new(requests: Vec<Frame>, replies: Vec<Result<Frame, Error>>) -> Self {
        Script {
            requests,
            replies,
            nodelay: Ok(()),
            announce: Ok(()),
            forward: None,
            write: None,
            leave: Ok(()),
        }
    }

    /// Runs the session: the messages that it sends, the replies that it
    /// writes, and its result.
    fn play(self) -> (Vec<String>, Vec<Frame>, Result<(), Error>) {
        let mut requests = self.requests.into_iter();
        let mut replies = self.replies.into_iter();
        let mut nodelay = Some(self.nodelay);
        let mut announce = Some(self.announce);
        let mut forward = self.forward;
        let mut write = self.write;
        let mut leave = Some(self.leave);
        let mut sent = vec![];
        let mut written = vec![];
        let mut step = Bridge::handle_client();
        loop {
            step = match step {
                ClientStep::SetNodelay(arriving) => arriving.resume(nodelay.take().unwrap()),
                ClientStep::Announce(announcing) => {
                    sent.push("Connection".to_string());
                    announcing.resume(announce.take().unwrap())
                }
                ClientStep::Listen(listening) => {
                    listening.resume(requests.next().ok_or(io_error("early eof")))
                }
                ClientStep::Forward(request, forwarding) => {
                    sent.push(format!("Packet {}", request[1]));
                    forwarding.resume(match forward.take() {
                        Some(error) => Err(error),
                        None => Ok(()),
                    })
                }
                ClientStep::Await(awaiting) => awaiting.resume(replies.next().unwrap()),
                ClientStep::Reply(reply, replying) => {
                    written.push(reply);
                    replying.resume(match write.take() {
                        Some(error) => Err(error),
                        None => Ok(()),
                    })
                }
                ClientStep::Leave(leaving) => {
                    sent.push("Disconnection".to_string());
                    leaving.resume(leave.take().unwrap())
                }
                ClientStep::Finished(result) => return (sent, written, result),
            };
        }
    }
}

#[test]
fn a_session_passes_requests_and_replies_on() {
    let script = Script::new(vec![frame(1), frame(2)], vec![Ok(frame(11)), Ok(frame(12))]);
    let (sent, written, result) = script.play();
    assert_eq!(sent, ["Connection", "Packet 1", "Packet 2", "Disconnection"]);
    assert_eq!(written, [frame(11), frame(12)]);
    assert!(result.is_ok());
}

#[test]
fn a_session_ends_without_a_reply() {
    let replies = vec![Ok(frame(11)), Err(io_error("channel closed"))];
    let script = Script::new(vec![frame(1), frame(2), frame(3)], replies);
    let (sent, written, result) = script.play();
    assert_eq!(sent, ["Connection", "Packet 1", "Packet 2", "Disconnection"]);
    assert_eq!(written, [frame(11)]);
    assert_eq!(result.unwrap_err().message(), "channel closed");
}

#[test]
fn a_client_that_cannot_be_set_up_is_not_announced() {
    let mut script = Script::new(vec![frame(1)], vec![]);
    script.nodelay = Err(io_error("bad socket"));
    let (sent, written, result) = script.play();
    assert!(sent.is_empty());
    assert!(written.is_empty());
    assert_eq!(result.unwrap_err().message(), "bad socket");
}

#[test]
fn a_client_that_cannot_be_announced_does_not_leave() {
    let mut script = Script::new(vec![frame(1)], vec![]);
    script.announce = Err(io_error("channel closed"));
    let (sent, _, result) = script.play();
    assert_eq!(sent, ["Connection"]);
    assert_eq!(result.unwrap_err().message(), "channel closed");
}

#[test]
fn a_request_that_cannot_be_forwarded_ends_the_session() {
    let mut script = Script::new(vec![frame(1), frame(2)], vec![]);
    script.forward = Some(io_error("channel closed"));
    let (sent, written, result) = script.play();
    assert_eq!(sent, ["Connection", "Packet 1", "Disconnection"]);
    assert!(written.is_empty());
    assert_eq!(result.unwrap_err().message(), "channel closed");
}

#[test]
fn a_reply_that_cannot_be_written_ends_the_session() {
    let mut script = Script::new(vec![frame(1), frame(2)], vec![Ok(frame(11))]);
    script.write = Some(io_error("broken pipe"));
    let (sent, _, result) = script.play();
    assert_eq!(sent, ["Connection", "Packet 1", "Disconnection"]);
    assert_eq!(result.unwrap_err().message(), "broken pipe");
}

#[test]
fn a_failed_leave_is_reported_in_place_of_the_result() {
    let mut script = Script::new(vec![frame(1)], vec![Err(io_error("no reply"))]);
    script.leave = Err(io_error("channel closed"));
    let (_, _, result) = script.play();
    assert_eq!(result.unwrap_err().message(), "channel closed");

    let mut script = Script::new(vec![], vec![]);
    script.leave = Err(io_error("channel closed"));
    let (sent, _, result) = script.play();
    assert_eq!(sent, ["Connection", "Disconnection"]);
    assert_eq!(result.unwrap_err().message(), "channel closed");
}

fn bridge(url: &str, connect_delay_ms: u64, bind: &str) -> Bridge {
    Bridge {
        listen: Listen {
            bind: bind.to_string(),
        },
        modbus: Modbus {
            url: url.to_string(),
            connect_delay_ms,
        },
    }
}

#[test]
fn each_device_gets_a_listener_and_a_task_of_its_own() {
    let devices = vec![
        bridge("plc1.acme.org:502", 0, "0.0.0.0:9000"),
        bridge("plc2.acme.org:502", 2000, "0.0.0.0:9001"),
    ];
    let tasks: Vec<BridgeTask<u32>> = Server::new(devices).run();
    assert_eq!(tasks.len(), 2);
    assert_eq!(tasks[0].bind, "0.0.0.0:9000");
    assert_eq!(tasks[0].device.device.url, "plc1.acme.org:502");
    assert_eq!(tasks[0].device.device.connect_delay_ms, 0);
    assert_eq!(tasks[1].bind, "0.0.0.0:9001");
    assert_eq!(tasks[1].device.device.url, "plc2.acme.org:502");
    assert_eq!(tasks[1].device.device.connect_delay_ms, 2000);
    for task in &tasks {
        assert_eq!(task.queue_len, 32);
        assert_eq!(QUEUE_LEN, 32);
        assert_eq!(task.device.nb_clients, 0);
        assert!(!task.device.device.is_connected());
    }
}

#[test]
fn a_server_without_devices_starts_nothing() {
    let tasks: Vec<BridgeTask<u32>> = Server::launch(vec![]);
    assert!(tasks.is_empty());
}
