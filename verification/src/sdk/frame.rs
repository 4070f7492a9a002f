//! Frames with a length before their contents, and the sending of packets.
use vstd::prelude::*;

verus! {

/// Four bytes of a number, the most significant first.
pub open spec fn big_endian(n: int) -> Seq<u8> {
    seq![
        (n / 16777216 % 256) as u8,
        (n / 65536 % 256) as u8,
        (n / 256 % 256) as u8,
        (n % 256) as u8,
    ]
}

/// The number of four bytes, the most significant first.
pub open spec fn big_endian_value(bytes: Seq<u8>) -> int {
    bytes[0] * 16777216 + bytes[1] * 65536 + bytes[2] * 256 + bytes[3]
}

/// The length that a frame may have.
pub open spec fn valid_length(length: int, max_frame: usize) -> bool {
    0 < length <= max_frame
}

/// What a packet is as a frame: its contents, or the length that is wrong.
pub open spec fn frame_contents(packet: Seq<u8>, max_frame: usize) -> Result<Seq<u8>, int> {
    if packet.len() < 4 {
        Err(packet.len() as int)
    } else {
        let length = big_endian_value(packet);
        if valid_length(length, max_frame) && packet.len() == length + 4 {
            Ok(packet.skip(4))
        } else {
            Err(length)
        }
    }
}

/// The frame with the given contents.
pub open spec fn frame_of(contents: Seq<u8>) -> Seq<u8> {
    big_endian(contents.len() as int) + contents
}

/// The length that the first four bytes of a frame announce, where a frame may
/// have it.
pub fn announced_length(header: &[u8], max_frame: usize) -> (r: Result<usize, usize>)
    requires
        header@.len() >= 4,
        max_frame <= u32::MAX,
    ensures
        match r {
            Ok(length) => length == big_endian_value(header@) && valid_length(
                length as int,
                max_frame,
            ),
            Err(length) => length == big_endian_value(header@) && !valid_length(
                length as int,
                max_frame,
            ),
        },
{
    let length: u32 = header[0] as u32 * 16777216 + header[1] as u32 * 65536 + header[2] as u32
        * 256 + header[3] as u32;
    let length: usize = length as usize;
    if length == 0 || length > max_frame {
        Err(length)
    } else {
        Ok(length)
    }
}

/// The contents of a packet that is one frame, or the length that is wrong.
pub fn decode_frame(packet: &[u8], max_frame: usize) -> (r: Result<Vec<u8>, usize>)
    requires
        max_frame <= u32::MAX - 4,
    ensures
        match r {
            Ok(contents) => frame_contents(packet@, max_frame) == Ok::<Seq<u8>, int>(contents@),
            Err(length) => frame_contents(packet@, max_frame) == Err::<Seq<u8>, int>(length as int),
        },
{
    let size: usize = packet.len();
    if size < 4 {
        return Err(size);
    }
    let length: usize = match announced_length(packet, max_frame) {
        Ok(length) => length,
        Err(length) => return Err(length),
    };
    if size != length + 4 {
        return Err(length);
    }
    let mut contents: Vec<u8> = Vec::new();
    let mut i: usize = 4;
    while i < size
        invariant
            4 <= i <= size,
            size == packet@.len(),
            contents@ == packet@.subrange(4, i as int),
        decreases size - i,
    {
        contents.push(packet[i]);
        assert(packet@.subrange(4, i + 1) =~= packet@.subrange(4, i as int).push(packet@[i as int]));
        i = i + 1;
    }
    assert(packet@.subrange(4, i as int) =~= packet@.skip(4));
    Ok(contents)
}

/// The frame with the given contents, or their length where none may have it.
pub fn encode_frame(contents: &[u8], max_frame: usize) -> (r: Result<Vec<u8>, usize>)
    requires
        max_frame <= u32::MAX - 4,
    ensures
        match r {
            Ok(packet) => valid_length(contents@.len() as int, max_frame) && packet@ == frame_of(
                contents@,
            ),
            Err(length) => length == contents@.len() && !valid_length(length as int, max_frame),
        },
{
    let length: usize = contents.len();
    if length == 0 || length > max_frame {
        return Err(length);
    }
    let n: u32 = length as u32;
    let mut packet: Vec<u8> = Vec::new();
    packet.push((n / 16777216) as u8);
    packet.push(((n / 65536) % 256) as u8);
    packet.push(((n / 256) % 256) as u8);
    packet.push((n % 256) as u8);
    assert(packet@ =~= big_endian(length as int));
    let mut i: usize = 0;
    while i < length
        invariant
            i <= length,
            length == contents@.len(),
            packet@ == big_endian(length as int) + contents@.take(i as int),
        decreases length - i,
    {
        packet.push(contents[i]);
        assert(big_endian(length as int) + contents@.take(i + 1) =~= (big_endian(length as int)
            + contents@.take(i as int)).push(contents@[i as int]));
        i = i + 1;
    }
    assert(contents@.take(i as int) =~= contents@);
    Ok(packet)
}

/// A frame that may be sent is read back as what was written.
pub proof fn frames_round_trip(contents: Seq<u8>, max_frame: usize)
    requires
        valid_length(contents.len() as int, max_frame),
        max_frame <= u32::MAX - 4,
    ensures
        frame_contents(frame_of(contents), max_frame) == Ok::<Seq<u8>, int>(contents),
{
    let n = contents.len() as int;
    let packet = frame_of(contents);
    assert(packet.skip(4) =~= contents);
    assert(big_endian_value(packet) == n) by {
        assert(n / 16777216 % 256 == n / 16777216);
        assert(n == (n / 16777216) * 16777216 + (n / 65536 % 256) * 65536 + (n / 256 % 256) * 256
            + n % 256);
    }
}

/// How an attempt to send a packet ended.
#[derive(Clone, Copy, Debug, PartialEq, Eq, Structural)]
pub enum SendAttempt {
    /// So many bytes were taken.
    Sent(usize),
    /// The call was interrupted.
    Interrupted,
    /// The peer takes nothing at present; it did, or did not, become ready in
    /// time.
    WouldBlock { ready: bool },
    /// The call failed otherwise.
    Failed,
}

/// What to do after an attempt to send a packet.
#[derive(Clone, Copy, Debug, PartialEq, Eq, Structural)]
pub enum SendStep {
    Done,
    Short(usize),
    Retry,
    Fail,
}

/// What to do after an attempt to send a packet of a given length. Packets are
/// sent whole or not at all.
pub open spec fn next_send_step(attempt: SendAttempt, length: usize) -> SendStep {
    match attempt {
        SendAttempt::Sent(n) => if n == length {
            SendStep::Done
        } else {
            SendStep::Short(n)
        },
        SendAttempt::Interrupted => SendStep::Retry,
        SendAttempt::WouldBlock { ready } => if ready {
            SendStep::Retry
        } else {
            SendStep::Fail
        },
        SendAttempt::Failed => SendStep::Fail,
    }
}

/// What to do after an attempt to send a packet of a given length.
pub fn send_step(attempt: SendAttempt, length: usize) -> (r: SendStep)
    ensures
        r == next_send_step(attempt, length),
{
    match attempt {
        SendAttempt::Sent(n) => if n == length {
            SendStep::Done
        } else {
            SendStep::Short(n)
        },
        SendAttempt::Interrupted => SendStep::Retry,
        SendAttempt::WouldBlock { ready } => if ready {
            SendStep::Retry
        } else {
            SendStep::Fail
        },
        SendAttempt::Failed => SendStep::Fail,
    }
}

/// How long to wait for a peer with so many milliseconds left: not at all
/// where none are left, and otherwise at least one of them.
pub fn wait_milliseconds(remaining_ms: u64, any_left: bool) -> (r: Option<i32>)
    ensures
        match r {
            Some(ms) => any_left && ms == (if remaining_ms == 0 {
                1
            } else if remaining_ms > i32::MAX {
                i32::MAX as int
            } else {
                remaining_ms as int
            }),
            None => !any_left,
        },
{
    if !any_left {
        None
    } else if remaining_ms == 0 {
        Some(1)
    } else if remaining_ms > 2147483647 {
        Some(2147483647)
    } else {
        Some(remaining_ms as i32)
    }
}

/// A frame begins with the length of its contents in four bytes, the highest first, and goes on
/// with the contents.
pub proof fn frames_begin_with_their_length(contents: Seq<u8>)
    requires
        contents.len() <= u32::MAX,
    ensures
        frame_of(contents).len() == contents.len() + 4,
        frame_of(contents).skip(4) == contents,
        frame_of(contents)[0] * 0x100_0000 + frame_of(contents)[1] * 0x1_0000 + frame_of(contents)[2]
            * 0x100 + frame_of(contents)[3] == contents.len(),
{
    let n = contents.len() as int;
    assert(frame_of(contents).skip(4) =~= contents);
    assert(frame_of(contents)[0] == (n / 16777216 % 256) as u8);
    assert(frame_of(contents)[1] == (n / 65536 % 256) as u8);
    assert(frame_of(contents)[2] == (n / 256 % 256) as u8);
    assert(frame_of(contents)[3] == (n % 256) as u8);
    assert(n == (n / 16777216 % 256) * 16777216 + (n / 65536 % 256) * 65536 + (n / 256 % 256) * 256
        + n % 256);
}

/// A packet is taken exactly where the length that it announces is the length of what follows,
/// and is neither nothing nor more than is allowed; its contents are what follows.
pub proof fn packets_are_taken_whole(packet: Seq<u8>, max_frame: usize)
    ensures
        frame_contents(packet, max_frame) is Ok <==> {
            &&& packet.len() > 4
            &&& packet.len() - 4 <= max_frame
            &&& packet[0] * 0x100_0000 + packet[1] * 0x1_0000 + packet[2] * 0x100 + packet[3]
                == packet.len() - 4
        },
        frame_contents(packet, max_frame) is Ok ==> frame_contents(packet, max_frame)->Ok_0
            == packet.skip(4),
{
}

/// Sending is over when everything was taken, goes on after an interruption or when the peer has
/// become ready, and fails otherwise.
pub proof fn sending_ends_when_everything_was_taken(attempt: SendAttempt, length: usize)
    ensures
        next_send_step(attempt, length) == SendStep::Done <==> attempt == SendAttempt::Sent(length),
        next_send_step(attempt, length) is Short <==> attempt is Sent && attempt->Sent_0 != length,
        next_send_step(attempt, length) == SendStep::Retry <==> attempt == SendAttempt::Interrupted
            || attempt == (SendAttempt::WouldBlock { ready: true }),
        next_send_step(attempt, length) == SendStep::Fail <==> attempt == SendAttempt::Failed
            || attempt == (SendAttempt::WouldBlock { ready: false }),
        next_send_step(attempt, length) is Short ==> next_send_step(attempt, length)->Short_0
            == attempt->Sent_0,
{
}

} // verus!
