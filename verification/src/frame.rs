//! Modbus TCP frames: a header of six bytes, whose last two give the length of
//! the payload behind it.

use vstd::prelude::*;

use crate::error::Error;

verus! {

/// A whole frame, header and payload.
pub type Frame = Vec<u8>;

/// The length of a frame's header.
pub const HEADER_LEN: usize = 6;

/// The payload length that a header announces, big endian in its last two bytes.
pub open spec fn payload_len(header: Seq<u8>) -> nat {
    (header[4] as nat) * 256 + header[5] as nat
}

/// Whether `bytes` are one whole frame: as many as their header announces.
pub open spec fn is_frame(bytes: Seq<u8>) -> bool {
    HEADER_LEN <= bytes.len() && bytes.len() == HEADER_LEN + payload_len(bytes)
}

/// The payload length that a header announces.
pub fn frame_size(frame: &[u8]) -> (size: Result<usize, Error>)
    requires
        frame@.len() >= HEADER_LEN,
    ensures
        size == Ok::<usize, Error>(payload_len(frame@) as usize),
        payload_len(frame@) <= 0xffff,
{
    Ok(frame[4] as usize * 256 + frame[5] as usize)
}

/// A frame of which nothing has been read yet.
#[derive(Debug)]
pub struct HeaderRead {
    /// How many bytes to read now.
    pub wanted: usize,
}

/// A frame whose header has been read.
#[derive(Debug)]
pub struct BodyRead {
    /// The header.
    pub header: Vec<u8>,
    /// How many bytes to read now.
    pub wanted: usize,
}

/// Starts to read a frame.
pub fn read_frame() -> (read: HeaderRead)
    ensures
        read.wanted == HEADER_LEN,
{
    HeaderRead { wanted: HEADER_LEN }
}

impl HeaderRead {
    /// Goes on with the header, or with the failure to read it.
    pub fn resume(self, outcome: Result<Vec<u8>, Error>) -> (read: Result<BodyRead, Error>)
        requires
            outcome matches Ok(header) ==> header@.len() == HEADER_LEN,
        ensures
            read == match outcome {
                Ok(header) => Ok(
                    BodyRead { header, wanted: payload_len(header@) as usize },
                ),
                Err(error) => Err(error),
            },
            outcome matches Ok(header) ==> payload_len(header@) <= 0xffff,
    {
        let header = match outcome {
            Ok(header) => header,
            Err(error) => return Err(error),
        };
        match frame_size(header.as_slice()) {
            Ok(wanted) => Ok(BodyRead { header, wanted }),
            Err(error) => Err(error),
        }
    }
}

impl BodyRead {
    /// Whether the bytes to read are those that the header announces.
    pub open spec fn wf(self) -> bool {
        self.header@.len() == HEADER_LEN && self.wanted == payload_len(self.header@)
    }

    /// Goes on with the payload, or with the failure to read it.
    pub fn resume(self, outcome: Result<Vec<u8>, Error>) -> (frame: Result<Frame, Error>)
        requires
            outcome matches Ok(body) ==> body@.len() == self.wanted,
        ensures
            match outcome {
                Ok(body) => frame matches Ok(frame) && frame@ == self.header@ + body@,
                Err(error) => frame == Err::<Frame, Error>(error),
            },
            self.wf() ==> (frame matches Ok(frame) ==> is_frame(frame@)),
    {
        match outcome {
            Ok(body) => {
                let mut body = body;
                let mut frame = self.header;
                frame.append(&mut body);
                Ok(frame)
            },
            Err(error) => Err(error),
        }
    }
}

/// Whether a stream of bytes starts with a whole frame.
pub open spec fn starts_with_frame(stream: Seq<u8>) -> bool {
    HEADER_LEN <= stream.len() && HEADER_LEN + payload_len(stream) <= stream.len()
}

/// The frames that reads give, one after the other, until one fails for want of
/// bytes.
pub open spec fn frames(stream: Seq<u8>) -> Seq<Seq<u8>>
    decreases stream.len(),
{
    if starts_with_frame(stream) {
        let len = (HEADER_LEN + payload_len(stream)) as int;
        seq![stream.take(len)] + frames(stream.skip(len))
    } else {
        seq![]
    }
}

/// The bytes behind those frames.
pub open spec fn leftover(stream: Seq<u8>) -> Seq<u8>
    decreases stream.len(),
{
    if starts_with_frame(stream) {
        leftover(stream.skip(HEADER_LEN + payload_len(stream)))
    } else {
        stream
    }
}

/// A read takes exactly the first frame off a stream: the bytes that it asks
/// for, put together, are that frame.
pub proof fn law_read_takes_one_frame(stream: Seq<u8>, header: Seq<u8>, body: Seq<u8>)
    requires
        starts_with_frame(stream),
        header == stream.take(HEADER_LEN as int),
        body == stream.skip(HEADER_LEN as int).take(payload_len(header) as int),
    ensures
        header + body == frames(stream)[0],
        header + body == stream.take(HEADER_LEN + payload_len(stream)),
        is_frame(header + body),
{
    assert(header + body =~= stream.take(HEADER_LEN + payload_len(stream)));
}

/// Frames that are sent back to back are read back one by one, whatever
/// incomplete frame follows them.
pub proof fn law_frames_read_back(sent: Seq<Seq<u8>>, tail: Seq<u8>)
    requires
        forall|i: int| 0 <= i < sent.len() ==> is_frame(#[trigger] sent[i]),
        !starts_with_frame(tail),
    ensures
        frames(sent.flatten() + tail) == sent,
        leftover(sent.flatten() + tail) == tail,
    decreases sent.len(),
{
    if sent.len() == 0 {
        assert(sent.flatten() + tail =~= tail);
    } else {
        let first = sent.first();
        let stream = sent.flatten() + tail;
        let rest = sent.drop_first().flatten() + tail;
        assert(is_frame(sent[0]));
        assert(stream =~= first + rest);
        assert(stream.take(first.len() as int) =~= first);
        assert(stream.skip(first.len() as int) =~= rest);
        law_frames_read_back(sent.drop_first(), tail);
        assert(seq![first] + sent.drop_first() =~= sent);
    }
}

/// Reads lose nothing and make nothing up: the frames that they give and the
/// bytes behind them are the stream.
pub proof fn law_frames_cover_stream(stream: Seq<u8>)
    ensures
        frames(stream).flatten() + leftover(stream) == stream,
        forall|i: int| 0 <= i < frames(stream).len() ==> is_frame(#[trigger] frames(stream)[i]),
        !starts_with_frame(leftover(stream)),
    decreases stream.len(),
{
    if starts_with_frame(stream) {
        let len = (HEADER_LEN + payload_len(stream)) as int;
        let rest = stream.skip(len);
        law_frames_cover_stream(rest);
        assert(frames(stream).drop_first() =~= frames(rest));
        assert(frames(stream).first() == stream.take(len));
        assert(stream =~= stream.take(len) + rest);
        assert(frames(stream).flatten() + leftover(stream) =~= stream.take(len) + (frames(
            rest,
        ).flatten() + leftover(rest)));
        assert forall|i: int| 0 <= i < frames(stream).len() implies is_frame(
            #[trigger] frames(stream)[i],
        ) by {
            if i > 0 {
                assert(frames(stream)[i] == frames(rest)[i - 1]);
            }
        }
    } else {
        assert(frames(stream).flatten() + leftover(stream) =~= stream);
    }
}

/// The last two bytes of a header are the payload length, big endian: every
/// length from 0 to 65535 is announced by its two bytes, whatever stands before
/// and behind them.
pub proof fn law_length_is_big_endian(n: u16, frame: &[u8], size: Result<usize, Error>)
    requires
        frame@.len() >= 6,
        frame@[4] == n / 256,
        frame@[5] == n % 256,
        call_ensures(frame_size, (frame,), size),
    ensures
        size == Ok::<usize, Error>(n as usize),
        payload_len(frame@) == n,
        call_requires(frame_size, (frame,)),
{
}

/// Two headers announce the same length only if their last two bytes agree.
pub proof fn law_lengths_tell_headers_apart(
    one: &[u8],
    other: &[u8],
    size: Result<usize, Error>,
)
    requires
        one@.len() >= 6,
        other@.len() >= 6,
        call_ensures(frame_size, (one,), size),
        call_ensures(frame_size, (other,), size),
    ensures
        one@[4] == other@[4],
        one@[5] == other@[5],
{
}

/// A header that announces `n` bytes, followed by exactly `n` bytes, is a whole
/// frame, and nothing else is.
pub proof fn law_whole_frames(n: u16, bytes: Seq<u8>)
    requires
        bytes.len() >= 6,
        bytes[4] == n / 256,
        bytes[5] == n % 256,
    ensures
        is_frame(bytes) <==> bytes.len() == 6 + n,
        starts_with_frame(bytes) <==> bytes.len() >= 6 + n,
{
}

/// Reading a frame asks for six bytes, then for as many as those announce, and
/// gives all of them in their order.
pub proof fn law_frame_is_what_was_read(
    n: u16,
    header: Vec<u8>,
    body: Vec<u8>,
    first: HeaderRead,
    second: Result<BodyRead, Error>,
    frame: Result<Frame, Error>,
)
    requires
        header@.len() == 6,
        header@[4] == n / 256,
        header@[5] == n % 256,
        body@.len() == n,
        call_ensures(read_frame, (), first),
        call_ensures(HeaderRead::resume, (first, Ok(header)), second),
        call_ensures(BodyRead::resume, (second->Ok_0, Ok(body)), frame),
    ensures
        first.wanted == 6,
        call_requires(HeaderRead::resume, (first, Ok(header))),
        second matches Ok(second) && second.wanted == n && call_requires(
            BodyRead::resume,
            (second, Ok(body)),
        ),
        frame matches Ok(frame) && frame@.len() == 6 + n && frame@.take(6) == header@
            && frame@.skip(6) == body@,
{
    let whole = header@ + body@;
    assert(whole.take(6) =~= header@);
    assert(whole.skip(6) =~= body@);
}

/// Where either part of a frame cannot be read, the reader is told why.
pub proof fn law_failed_reads_are_reported(
    error: Error,
    first: HeaderRead,
    header: Result<BodyRead, Error>,
    second: BodyRead,
    frame: Result<Frame, Error>,
)
    requires
        call_ensures(HeaderRead::resume, (first, Err(error)), header),
        call_ensures(BodyRead::resume, (second, Err(error)), frame),
    ensures
        header == Err::<BodyRead, Error>(error),
        frame == Err::<Frame, Error>(error),
        call_requires(HeaderRead::resume, (first, Err(error))),
        call_requires(BodyRead::resume, (second, Err(error))),
{
}

} // verus!
