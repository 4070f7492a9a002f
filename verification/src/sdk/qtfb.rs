//! Packets of the QTFB v1 protocol.
use vstd::prelude::*;
use crate::device::DeviceDisplayProfile;
use crate::text::decimal_text;
use crate::text::decimal;

verus! {

pub const MESSAGE_INITIALIZE: u8 = 0;

pub const MESSAGE_UPDATE: u8 = 1;

pub const MESSAGE_TERMINATE: u8 = 3;

pub const MESSAGE_USERINPUT: u8 = 4;

pub const MESSAGE_SET_REFRESH_MODE: u8 = 5;

pub const MESSAGE_REQUEST_FULL_REFRESH: u8 = 6;

pub const UPDATE_ALL: i32 = 0;

pub const UPDATE_PARTIAL: i32 = 1;

/// How many events are taken in one go.
pub const MAX_EVENTS_PER_PUMP: usize = 256;

pub const REFRESH_FAST: i32 = 1;

pub const REFRESH_UI: i32 = 4;

/// What a finger does.
#[derive(Clone, Copy, Debug, PartialEq, Eq, Structural)]
pub enum TouchPhase {
    Press,
    Move,
    Release,
}

/// One input event.
#[derive(Clone, Copy, Debug, PartialEq, Eq, Structural)]
pub struct InputEvent {
    pub phase: TouchPhase,
    pub finger: i32,
    pub x: i32,
    pub y: i32,
}

/// Why an exchange with the display host fails.
#[derive(Debug, PartialEq, Eq)]
pub enum QtfbError {
    InvalidSocketPath,
    InitializationRejected,
    SurfaceOverflow,
    SurfaceTooSmall { length: usize, required: usize },
    Disconnected,
    ShortWrite(usize),
    Io(String),
}

/// Four bytes of a number, the least significant first.
pub open spec fn little_endian(n: u32) -> Seq<u8> {
    seq![
        (n % 256) as u8,
        (n / 256 % 256) as u8,
        (n / 65536 % 256) as u8,
        (n / 16777216) as u8,
    ]
}

/// The number of four bytes from a place on, the least significant first.
pub open spec fn little_endian_value(bytes: Seq<u8>, at: int) -> u32 {
    (bytes[at] + bytes[at + 1] * 256 + bytes[at + 2] * 65536 + bytes[at + 3] * 16777216) as u32
}

/// A number is read back as it was written.
pub proof fn numbers_round_trip(n: u32)
    ensures
        little_endian_value(little_endian(n), 0) == n,
{
}

/// Zero bytes.
pub open spec fn zeros(n: nat) -> Seq<u8> {
    Seq::new(n, |i: int| 0u8)
}

/// A message of 24 bytes: its kind, and numbers from the fourth byte on.
pub open spec fn message(kind: u8, fields: Seq<u8>) -> Seq<u8> {
    seq![kind, 0u8, 0u8, 0u8] + fields + zeros((20 - fields.len()) as nat)
}

/// Appends a number.
fn push_number(bytes: &mut Vec<u8>, value: i32)
    ensures
        final(bytes)@ == old(bytes)@ + little_endian(value as u32),
{
    let n: u32 = value as u32;
    bytes.push((n % 256) as u8);
    bytes.push(((n / 256) % 256) as u8);
    bytes.push(((n / 65536) % 256) as u8);
    bytes.push((n / 16777216) as u8);
    assert(bytes@ =~= old(bytes)@ + little_endian(value as u32));
}

/// The beginning of a message.
fn begin(kind: u8) -> (bytes: Vec<u8>)
    ensures
        bytes@ == seq![kind, 0u8, 0u8, 0u8],
{
    let mut bytes: Vec<u8> = Vec::new();
    bytes.push(kind);
    bytes.push(0);
    bytes.push(0);
    bytes.push(0);
    assert(bytes@ =~= seq![kind, 0u8, 0u8, 0u8]);
    bytes
}

/// Fills a message up to its 24 bytes.
fn finish(bytes: &mut Vec<u8>)
    requires
        old(bytes)@.len() <= 24,
    ensures
        final(bytes)@ == old(bytes)@ + zeros((24 - old(bytes)@.len()) as nat),
{
    let ghost before = bytes@;
    while bytes.len() < 24
        invariant
            before.len() <= bytes@.len() <= 24,
            bytes@ == before + zeros((bytes@.len() - before.len()) as nat),
        decreases 24 - bytes@.len(),
    {
        bytes.push(0);
        assert(bytes@ =~= before + zeros((bytes@.len() - before.len()) as nat));
    }
}

/// Asks the host for a surface.
pub fn initialize_message(key: i32, format: u8) -> (r: Vec<u8>)
    ensures
        r@ == message(MESSAGE_INITIALIZE, little_endian(key as u32).push(format)),
        r@.len() == 24,
{
    let mut bytes = begin(MESSAGE_INITIALIZE);
    push_number(&mut bytes, key);
    bytes.push(format);
    finish(&mut bytes);
    assert(bytes@ =~= message(MESSAGE_INITIALIZE, little_endian(key as u32).push(format)));
    bytes
}

/// Asks the host to show the whole surface.
pub fn update_all_message() -> (r: Vec<u8>)
    ensures
        r@ == message(MESSAGE_UPDATE, little_endian(UPDATE_ALL as u32)),
        r@.len() == 24,
{
    let mut bytes = begin(MESSAGE_UPDATE);
    push_number(&mut bytes, UPDATE_ALL);
    finish(&mut bytes);
    assert(bytes@ =~= message(MESSAGE_UPDATE, little_endian(UPDATE_ALL as u32)));
    bytes
}

/// Asks the host to show a part of the surface.
pub fn update_partial_message(x: i32, y: i32, width: i32, height: i32) -> (r: Vec<u8>)
    ensures
        r@ == message(
            MESSAGE_UPDATE,
            little_endian(UPDATE_PARTIAL as u32) + little_endian(x as u32) + little_endian(
                y as u32,
            ) + little_endian(width as u32) + little_endian(height as u32),
        ),
        r@.len() == 24,
{
    let mut bytes = begin(MESSAGE_UPDATE);
    push_number(&mut bytes, UPDATE_PARTIAL);
    push_number(&mut bytes, x);
    push_number(&mut bytes, y);
    push_number(&mut bytes, width);
    push_number(&mut bytes, height);
    assert(bytes@ =~= message(
        MESSAGE_UPDATE,
        little_endian(UPDATE_PARTIAL as u32) + little_endian(x as u32) + little_endian(y as u32)
            + little_endian(width as u32) + little_endian(height as u32),
    ));
    bytes
}

/// Tells the host how to refresh the display.
pub fn refresh_mode_message(mode: i32) -> (r: Vec<u8>)
    ensures
        r@ == message(MESSAGE_SET_REFRESH_MODE, little_endian(mode as u32)),
        r@.len() == 24,
{
    let mut bytes = begin(MESSAGE_SET_REFRESH_MODE);
    push_number(&mut bytes, mode);
    finish(&mut bytes);
    assert(bytes@ =~= message(MESSAGE_SET_REFRESH_MODE, little_endian(mode as u32)));
    bytes
}

/// Asks the host to refresh the whole panel.
pub fn full_refresh_message() -> (r: Vec<u8>)
    ensures
        r@ == message(MESSAGE_REQUEST_FULL_REFRESH, Seq::empty()),
        r@.len() == 24,
{
    let mut bytes = begin(MESSAGE_REQUEST_FULL_REFRESH);
    finish(&mut bytes);
    assert(bytes@ =~= message(MESSAGE_REQUEST_FULL_REFRESH, Seq::empty()));
    bytes
}

/// Tells the host that the application leaves.
pub fn terminate_message() -> (r: Vec<u8>)
    ensures
        r@ == message(MESSAGE_TERMINATE, Seq::empty()),
        r@.len() == 24,
{
    let mut bytes = begin(MESSAGE_TERMINATE);
    finish(&mut bytes);
    assert(bytes@ =~= message(MESSAGE_TERMINATE, Seq::empty()));
    bytes
}

/// The message to send before an update where the refresh mode changes.
pub fn refresh_change(current: i32, wanted: i32) -> (r: Option<Vec<u8>>)
    ensures
        match r {
            Some(bytes) => current != wanted && bytes@ == message(
                MESSAGE_SET_REFRESH_MODE,
                little_endian(wanted as u32),
            ),
            None => current == wanted,
        },
{
    if current == wanted {
        None
    } else {
        Some(refresh_mode_message(wanted))
    }
}

/// The number of four bytes from a place on.
pub fn number_at(bytes: &[u8], at: usize) -> (n: u32)
    requires
        at + 4 <= bytes@.len(),
    ensures
        n == little_endian_value(bytes@, at as int),
{
    let size: usize = bytes.len();
    bytes[at] as u32 + bytes[at + 1] as u32 * 256 + bytes[at + 2] as u32 * 65536 + bytes[at + 3]
        as u32 * 16777216
}

/// What a kind of input event means.
pub open spec fn touch_phase(kind: u32) -> Option<TouchPhase> {
    if kind == 0x10 {
        Some(TouchPhase::Press)
    } else if kind == 0x11 {
        Some(TouchPhase::Release)
    } else if kind == 0x12 {
        Some(TouchPhase::Move)
    } else {
        None
    }
}

/// The touch event that a packet of 32 bytes holds, of which so many were
/// received.
pub open spec fn packet_event(packet: Seq<u8>, received: int) -> Option<InputEvent> {
    if packet[0] == MESSAGE_USERINPUT && received >= 28 {
        match touch_phase(little_endian_value(packet, 8)) {
            Some(phase) => Some(
                InputEvent {
                    phase,
                    finger: little_endian_value(packet, 12) as i32,
                    x: little_endian_value(packet, 16) as i32,
                    y: little_endian_value(packet, 20) as i32,
                },
            ),
            None => None,
        }
    } else {
        None
    }
}

/// The touch event that a packet of 32 bytes holds.
pub fn decode_touch(packet: &[u8], received: usize) -> (r: Option<InputEvent>)
    requires
        packet@.len() == 32,
    ensures
        r == packet_event(packet@, received as int),
{
    let size: usize = packet.len();
    if packet[0] != MESSAGE_USERINPUT || received < 28 {
        return None;
    }
    let kind: u32 = number_at(packet, 8);
    let phase = if kind == 0x10 {
        TouchPhase::Press
    } else if kind == 0x11 {
        TouchPhase::Release
    } else if kind == 0x12 {
        TouchPhase::Move
    } else {
        return None;
    };
    Some(
        InputEvent {
            phase,
            finger: number_at(packet, 12) as i32,
            x: number_at(packet, 16) as i32,
            y: number_at(packet, 20) as i32,
        },
    )
}

/// The key and the length of the surface that the host offers.
pub open spec fn offered_surface(reply: Seq<u8>) -> (i32, u64) {
    (
        little_endian_value(reply, 8) as i32,
        (little_endian_value(reply, 16) + little_endian_value(reply, 20) * 0x1_0000_0000) as u64,
    )
}

/// Reads the host's reply of 32 bytes, of which so many were received.
pub fn decode_initialize_reply(reply: &[u8], received: usize) -> (r: Result<(i32, u64), QtfbError>)
    requires
        reply@.len() == 32,
    ensures
        match r {
            Ok(surface) => received >= 24 && surface == offered_surface(reply@),
            Err(e) => received < 24 && e == QtfbError::InitializationRejected,
        },
{
    if received < 24 {
        return Err(QtfbError::InitializationRejected);
    }
    let low: u64 = number_at(reply, 16) as u64;
    let high: u64 = number_at(reply, 20) as u64;
    Ok((number_at(reply, 8) as i32, low + high * 0x1_0000_0000))
}

/// The bytes that a display needs.
pub fn required_surface(display: &DeviceDisplayProfile) -> (r: Result<usize, QtfbError>)
    ensures
        match r {
            Ok(required) => required == display.stride * (display.logical_height as usize),
            Err(e) => display.stride * (display.logical_height as usize) > usize::MAX && e
                == QtfbError::SurfaceOverflow,
        },
{
    match display.stride.checked_mul(display.logical_height as usize) {
        Some(required) => Ok(required),
        None => Err(QtfbError::SurfaceOverflow),
    }
}

/// Checks that a shared surface is large enough.
pub fn check_surface(length: usize, required: usize) -> (r: Result<(), QtfbError>)
    ensures
        match r {
            Ok(_) => length >= required,
            Err(e) => length < required && e == (QtfbError::SurfaceTooSmall { length, required }),
        },
{
    if length < required {
        Err(QtfbError::SurfaceTooSmall { length, required })
    } else {
        Ok(())
    }
}

impl QtfbError {
    /// The reason in words.
    pub open spec fn text(self) -> Seq<char> {
        match self {
            QtfbError::InvalidSocketPath => "invalid QTFB socket path"@,
            QtfbError::InitializationRejected => "QTFB host rejected surface initialization"@,
            QtfbError::SurfaceOverflow => "surface size overflows usize"@,
            QtfbError::SurfaceTooSmall { length, required } => "QTFB shared surface is too small: "@ + decimal(length as nat) + " < "@ + decimal(required as nat),
            QtfbError::Disconnected => "QTFB socket disconnected"@,
            QtfbError::ShortWrite(a) => "QTFB packet made a short write of "@ + decimal(a as nat) + " bytes"@,
            QtfbError::Io(a) => a@,
        }
    }

    /// The reason in words.
    pub fn message(&self) -> (r: String)
        ensures
            r@ == self.text(),
    {
        match self {
            QtfbError::InvalidSocketPath => "invalid QTFB socket path".to_owned(),
            QtfbError::InitializationRejected => "QTFB host rejected surface initialization".to_owned(),
            QtfbError::SurfaceOverflow => "surface size overflows usize".to_owned(),
            QtfbError::SurfaceTooSmall { length, required } => {
                let mut message = "QTFB shared surface is too small: ".to_owned();
                message.append(decimal_text(*length as u64).as_str());
                message.append(" < ");
                message.append(decimal_text(*required as u64).as_str());
                message
            },
            QtfbError::Disconnected => "QTFB socket disconnected".to_owned(),
            QtfbError::ShortWrite(a) => {
                let mut message = "QTFB packet made a short write of ".to_owned();
                message.append(decimal_text(*a as u64).as_str());
                message.append(" bytes");
                message
            },
            QtfbError::Io(a) => {
                let mut message = String::new();
                message.append(a.as_str());
                message
            },
        }
    }
}

/// A message has twenty-four bytes: its kind first, its fields from the fourth place on, and zeros
/// elsewhere.
pub proof fn messages_have_their_fields_in_place(kind: u8, fields: Seq<u8>, i: int)
    requires
        fields.len() <= 20,
        0 <= i < 24,
    ensures
        message(kind, fields).len() == 24,
        message(kind, fields)[i] == (if i == 0 {
            kind
        } else if 4 <= i < 4 + fields.len() {
            fields[i - 4]
        } else {
            0u8
        }),
{
}

/// The numbers of a message are read back from the places where they stand, whatever stands around
/// them.
pub proof fn numbers_are_read_where_they_stand(before: Seq<u8>, n: i32, after: Seq<u8>)
    ensures
        little_endian_value(before + little_endian(n as u32) + after, before.len() as int) as i32
            == n,
        little_endian(n as u32)[0] == (n as u32) % 256,
{
    let all = before + little_endian(n as u32) + after;
    let at = before.len() as int;
    numbers_round_trip(n as u32);
    assert(all[at] == little_endian(n as u32)[0]);
    assert(all[at + 1] == little_endian(n as u32)[1]);
    assert(all[at + 2] == little_endian(n as u32)[2]);
    assert(all[at + 3] == little_endian(n as u32)[3]);
    assert((n as u32) as i32 == n) by (bit_vector);
}

/// A touch is decoded with its phase, finger and place from a packet that was received as far as
/// they reach.
pub proof fn touches_are_decoded(
    device: i32,
    kind: u32,
    finger: i32,
    x: i32,
    y: i32,
    rest: Seq<u8>,
    received: int,
)
    requires
        received >= 28,
    ensures
        ({
            let packet = seq![4u8, 0u8, 0u8, 0u8] + little_endian(device as u32) + little_endian(kind)
                + little_endian(finger as u32) + little_endian(x as u32) + little_endian(y as u32)
                + rest;
            let event = packet_event(packet, received);
            &&& event is Some <==> kind == 16 || kind == 17 || kind == 18
            &&& kind == 16 ==> event == Some(
                InputEvent { phase: TouchPhase::Press, finger, x, y },
            )
            &&& kind == 17 ==> event == Some(
                InputEvent { phase: TouchPhase::Release, finger, x, y },
            )
            &&& kind == 18 ==> event == Some(InputEvent { phase: TouchPhase::Move, finger, x, y })
        }),
{
    let head = seq![4u8, 0u8, 0u8, 0u8];
    let a = head + little_endian(device as u32);
    let b = a + little_endian(kind);
    let c = b + little_endian(finger as u32);
    let d = c + little_endian(x as u32);
    let packet = d + little_endian(y as u32) + rest;
    assert(packet =~= b + little_endian(finger as u32) + (little_endian(x as u32) + little_endian(
        y as u32,
    ) + rest));
    assert(packet =~= c + little_endian(x as u32) + (little_endian(y as u32) + rest));
    assert(b.len() == 12 && c.len() == 16 && d.len() == 20);
    numbers_are_read_where_they_stand(
        b,
        finger,
        little_endian(x as u32) + little_endian(y as u32) + rest,
    );
    numbers_are_read_where_they_stand(c, x, little_endian(y as u32) + rest);
    numbers_are_read_where_they_stand(d, y, rest);
    numbers_round_trip(kind);
    assert(packet[8] == little_endian(kind)[0]);
    assert(packet[9] == little_endian(kind)[1]);
    assert(packet[10] == little_endian(kind)[2]);
    assert(packet[11] == little_endian(kind)[3]);
    assert(little_endian_value(packet, 8) == kind);
    assert(packet[0] == 4);
}

/// Packets that are too short, or of another kind, are no touches.
pub proof fn other_packets_are_no_touches(packet: Seq<u8>, received: int)
    ensures
        received < 28 || packet[0] != 4 ==> packet_event(packet, received) is None,
{
}

/// The host's reply names the shared memory and then its size, the lower half first.
pub proof fn replies_name_the_surface(
    before: Seq<u8>,
    key: i32,
    between: Seq<u8>,
    low: u32,
    high: u32,
    rest: Seq<u8>,
)
    requires
        before.len() == 8,
        between.len() == 4,
    ensures
        offered_surface(
            before + little_endian(key as u32) + between + little_endian(low) + little_endian(high)
                + rest,
        ) == (key, (low + high * 0x1_0000_0000) as u64),
{
    let reply = before + little_endian(key as u32) + between + little_endian(low) + little_endian(
        high,
    ) + rest;
    assert(reply =~= before + little_endian(key as u32) + (between + little_endian(low)
        + little_endian(high) + rest));
    numbers_are_read_where_they_stand(
        before,
        key,
        between + little_endian(low) + little_endian(high) + rest,
    );
    numbers_round_trip(low);
    numbers_round_trip(high);
    assert(reply[16] == little_endian(low)[0]);
    assert(reply[17] == little_endian(low)[1]);
    assert(reply[18] == little_endian(low)[2]);
    assert(reply[19] == little_endian(low)[3]);
    assert(reply[20] == little_endian(high)[0]);
    assert(reply[21] == little_endian(high)[1]);
    assert(reply[22] == little_endian(high)[2]);
    assert(reply[23] == little_endian(high)[3]);
    assert(little_endian_value(reply, 16) == low);
    assert(little_endian_value(reply, 20) == high);
}

} // verus!
