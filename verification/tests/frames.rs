use modbus_proxy_rs::{frame_size, read_frame, Error, Frame, HEADER_LEN};

#[test]
fn test_frame_size_logic() {
    let valid_header = [0x00, 0x01, 0x00, 0x00, 0x00, 0x05];
    assert_eq!(frame_size(&valid_header).unwrap(), 5);

    let large_header = [0x00, 0x01, 0x00, 0x00, 0xFF, 0xFF];
    assert_eq!(frame_size(&large_header).unwrap(), 65535);
}

#[test]
fn frame_size_is_big_endian_and_ignores_the_payload() {
    let frame = [0xAA, 0xBB, 0xCC, 0xDD, 0x01, 0x02, 0xFF, 0xFF];
    assert_eq!(frame_size(&frame).unwrap(), 258);
    assert_eq!(frame_size(&[0, 0, 0, 0, 0, 0]).unwrap(), 0);
}

/// Reads frames off `stream` as far as its bytes reach.
fn read_all(mut stream: &[u8]) -> (Vec<Frame>, Vec<u8>) {
    let mut frames = vec![];
    loop {
        let start = stream;
        let header = read_frame();
        let wanted = header.wanted;
        if stream.len() < wanted {
            return (frames, start.to_vec());
        }
        let body = header.resume(Ok(stream[..wanted].to_vec())).unwrap();
        stream = &stream[wanted..];
        let wanted = body.wanted;
        if stream.len() < wanted {
            return (frames, start.to_vec());
        }
        frames.push(body.resume(Ok(stream[..wanted].to_vec())).unwrap());
        stream = &stream[wanted..];
    }
}

#[test]
fn frames_sent_back_to_back_are_read_back() {
    let sent: Vec<Frame> = vec![
        vec![0x00, 0x01, 0x00, 0x00, 0x00, 0x02, 0x11, 0x22],
        vec![0x00, 0x02, 0x00, 0x00, 0x00, 0x00],
        vec![0x00, 0x03, 0x00, 0x00, 0x00, 0x01, 0x33],
    ];
    let tail = [0x00, 0x04, 0x00, 0x00, 0x00, 0x09, 0x44];
    let mut stream = sent.concat();
    stream.extend_from_slice(&tail);
    let (frames, leftover) = read_all(&stream);
    assert_eq!(frames, sent);
    assert_eq!(leftover, tail);
}

#[test]
fn reading_asks_for_the_header_and_then_for_the_payload() {
    let header = read_frame();
    assert_eq!(header.wanted, 6);
    assert_eq!(HEADER_LEN, 6);
    let body = header.resume(Ok(vec![9, 8, 0, 0, 1, 4])).unwrap();
    assert_eq!(body.wanted, 260);
    let frame = body.resume(Ok(vec![7; 260])).unwrap();
    assert_eq!(frame.len(), 266);
    assert_eq!(frame[..7], [9, 8, 0, 0, 1, 4, 7]);
}

#[test]
fn failures_to_read_are_passed_on() {
    let failed = read_frame().resume(Err(Error::Outside("early eof".to_string())));
    assert_eq!(failed.unwrap_err().message(), "early eof");

    let body = read_frame().resume(Ok(vec![0, 1, 0, 0, 0, 5])).unwrap();
    let failed = body.resume(Err(Error::Outside("reset".to_string())));
    assert_eq!(failed.unwrap_err().message(), "reset");
}
