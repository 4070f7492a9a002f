//! What the platform tells the home surface, and the fingers on it.
use vstd::prelude::*;
use vstd::utf8::{decode_utf8, valid_utf8};
use crate::home::view::{button_at, button_contains, Button};
use crate::home::view::measurable;
use crate::manifest::id::valid_id;
use crate::manifest::AppId;
use crate::path::FilePath;
use crate::path::{joined, parent_of};
use crate::sdk::qtfb::{number_at, MESSAGE_INITIALIZE, MESSAGE_USERINPUT};
use crate::sdk::qtfb::{little_endian_value, offered_surface};
use crate::text::{decimal_text, split_once, text_eq, trim_end_text, utf8_text, Trim};
use crate::text::{cut_at, decimal, texts_are_cut_at_the_first_occurrence, trim_end};

verus! {

/// What the platform tells the home surface.
#[derive(Debug, PartialEq, Eq)]
pub enum Event {
    AutoSleep,
    CoverSleep { app_id: Option<AppId> },
    ResumeUnlock { app_id: Option<AppId> },
    WallpapersChanged,
}

/// What the platform tells, over texts.
pub enum EventView {
    AutoSleep,
    CoverSleep(Option<Seq<char>>),
    ResumeUnlock(Option<Seq<char>>),
    WallpapersChanged,
}

impl View for Event {
    type V = EventView;

    open spec fn view(&self) -> EventView {
        match self {
            Event::AutoSleep => EventView::AutoSleep,
            Event::CoverSleep { app_id } => EventView::CoverSleep(
                match app_id {
                    Some(app_id) => Some(app_id@),
                    None => None,
                },
            ),
            Event::ResumeUnlock { app_id } => EventView::ResumeUnlock(
                match app_id {
                    Some(app_id) => Some(app_id@),
                    None => None,
                },
            ),
            Event::WallpapersChanged => EventView::WallpapersChanged,
        }
    }
}

/// The event about an application that a text tells: a command, a space and
/// the application.
pub open spec fn application_event(text: Seq<char>) -> Option<EventView> {
    match cut_at(trim_end(text, Trim::LineFeed), ' ') {
        Some((command, app_id)) => if !valid_id(app_id) {
            None
        } else if command == "cover_sleep_app"@ {
            Some(EventView::CoverSleep(Some(app_id)))
        } else if command == "cover_open_app"@ || command == "resume_unlock_app"@ {
            Some(EventView::ResumeUnlock(Some(app_id)))
        } else {
            None
        },
        None => None,
    }
}

/// The event that a packet tells.
pub open spec fn packet_event(packet: Seq<u8>) -> Option<EventView> {
    if !valid_utf8(packet) {
        None
    } else {
        let text = decode_utf8(packet);
        if text == "auto_sleep\n"@ {
            Some(EventView::AutoSleep)
        } else if text == "resume_unlock\n"@ || text == "cover_open\n"@ {
            Some(EventView::ResumeUnlock(None))
        } else if text == "cover_sleep\n"@ {
            Some(EventView::CoverSleep(None))
        } else if text == "wallpapers_changed\n"@ {
            Some(EventView::WallpapersChanged)
        } else {
            application_event(text)
        }
    }
}

/// The event about an application that a text tells.
pub fn parse_event(text: &str) -> (r: Option<Event>)
    ensures
        match r {
            Some(event) => application_event(text@) == Some(event@),
            None => application_event(text@) is None,
        },
{
    let line = trim_end_text(text, Trim::LineFeed);
    let (command, value) = match split_once(line.as_str(), ' ') {
        Some(parts) => parts,
        None => return None,
    };
    let app_id = match AppId::new(value.as_str()) {
        Ok(app_id) => app_id,
        Err(_) => return None,
    };
    if text_eq(command.as_str(), "cover_sleep_app") {
        Some(Event::CoverSleep { app_id: Some(app_id) })
    } else if text_eq(command.as_str(), "cover_open_app") || text_eq(
        command.as_str(),
        "resume_unlock_app",
    ) {
        Some(Event::ResumeUnlock { app_id: Some(app_id) })
    } else {
        None
    }
}

/// The event that a packet tells.
pub fn event_of(packet: Vec<u8>) -> (r: Option<Event>)
    ensures
        match r {
            Some(event) => packet_event(packet@) == Some(event@),
            None => packet_event(packet@) is None,
        },
{
    let text = match utf8_text(packet) {
        Ok(text) => text,
        Err(_) => return None,
    };
    let text = text.as_str();
    if text_eq(text, "auto_sleep\n") {
        Some(Event::AutoSleep)
    } else if text_eq(text, "resume_unlock\n") || text_eq(text, "cover_open\n") {
        Some(Event::ResumeUnlock { app_id: None })
    } else if text_eq(text, "cover_sleep\n") {
        Some(Event::CoverSleep { app_id: None })
    } else if text_eq(text, "wallpapers_changed\n") {
        Some(Event::WallpapersChanged)
    } else {
        parse_event(text)
    }
}

/// How long a poll waits, in milliseconds: at least one, and without end where
/// no time is given.
pub fn poll_timeout(wait_ms: Option<u64>) -> (r: i32)
    ensures
        r == (match wait_ms {
            Some(ms) => if ms == 0 {
                1
            } else if ms > i32::MAX {
                i32::MAX as int
            } else {
                ms as int
            },
            None => -1,
        }),
{
    match wait_ms {
        Some(ms) => if ms == 0 {
            1
        } else if ms > i32::MAX as u64 {
            i32::MAX
        } else {
            ms as i32
        },
        None => -1,
    }
}

/// What the one finger that counts does.
#[derive(Clone, Copy, Debug, PartialEq, Eq, Structural)]
pub enum TouchEvent {
    Press { x: i32, y: i32 },
    Release { x: i32, y: i32 },
}

/// Follows the first finger that touches the surface until it leaves it.
#[derive(Clone, Copy, Debug, PartialEq, Eq, Structural)]
pub struct TouchTracker {
    pub primary: Option<i32>,
}

/// A packet about a finger: what it does, which one it is, and where.
pub open spec fn finger_packet(packet: Seq<u8>, received: int) -> Option<(u32, i32, i32, i32)> {
    if received == 32 && packet[0] == MESSAGE_USERINPUT {
        Some(
            (
                little_endian_value(packet, 8),
                little_endian_value(packet, 12) as i32,
                little_endian_value(packet, 16) as i32,
                little_endian_value(packet, 20) as i32,
            ),
        )
    } else {
        None
    }
}

impl TouchTracker {
    /// What a packet about a finger means, and which finger then counts.
    pub open spec fn after(self, packet: Option<(u32, i32, i32, i32)>) -> (
        TouchTracker,
        Option<TouchEvent>,
    ) {
        match packet {
            Some((kind, finger, x, y)) => if kind == 0x10 && self.primary is None {
                (
                    TouchTracker { primary: Some(finger) },
                    Some(TouchEvent::Press { x, y }),
                )
            } else if kind == 0x11 && self.primary == Some(finger) {
                (TouchTracker { primary: None }, Some(TouchEvent::Release { x, y }))
            } else {
                (self, None)
            },
            None => (self, None),
        }
    }

    /// No finger touches the surface.
    pub fn new() -> (r: TouchTracker)
        ensures
            r.primary is None,
    {
        TouchTracker { primary: None }
    }

    /// Follows a packet of 32 bytes, of which so many were received.
    pub fn follow(&mut self, packet: &[u8], received: usize) -> (r: Option<TouchEvent>)
        requires
            packet@.len() == 32,
        ensures
            (*final(self), r) == old(self).after(finger_packet(packet@, received as int)),
    {
        let size: usize = packet.len();
        if received != 32 || packet[0] != MESSAGE_USERINPUT {
            return None;
        }
        let kind: u32 = number_at(packet, 8);
        let finger: i32 = number_at(packet, 12) as i32;
        let x: i32 = number_at(packet, 16) as i32;
        let y: i32 = number_at(packet, 20) as i32;
        let ours = match self.primary {
            Some(primary) => primary == finger,
            None => false,
        };
        if kind == 0x10 && self.primary.is_none() {
            self.primary = Some(finger);
            Some(TouchEvent::Press { x, y })
        } else if kind == 0x11 && ours {
            self.primary = None;
            Some(TouchEvent::Release { x, y })
        } else {
            None
        }
    }
}

/// The surface that the display host offers for the home surface, in a reply
/// of 32 bytes of which so many were received.
pub fn offered_home_surface(reply: &[u8], received: usize) -> (r: Option<(i32, u64)>)
    requires
        reply@.len() == 32,
    ensures
        r == (if received == 32 && reply@[0] == MESSAGE_INITIALIZE {
            Some(offered_surface(reply@))
        } else {
            None
        }),
{
    let size: usize = reply.len();
    if received != 32 || reply[0] != MESSAGE_INITIALIZE {
        return None;
    }
    let low: u64 = number_at(reply, 16) as u64;
    let high: u64 = number_at(reply, 20) as u64;
    Some((number_at(reply, 8) as i32, low + high * 0x1_0000_0000))
}

/// The button that a finger goes down on, where none is held yet.
pub fn handle_press(buttons: &[Button], held: bool, x: i32, y: i32) -> (r: Option<usize>)
    requires
        forall|i: int| 0 <= i < buttons@.len() ==> measurable(#[trigger] buttons@[i]),
    ensures
        held ==> r is None,
        !held ==> match r {
            Some(i) => {
                &&& i < buttons@.len()
                &&& buttons@[i as int]@.covers(x as int, y as int)
                &&& forall|j: int|
                    0 <= j < i ==> !(#[trigger] buttons@[j])@.covers(x as int, y as int)
            },
            None => forall|j: int|
                0 <= j < buttons@.len() ==> !(#[trigger] buttons@[j])@.covers(x as int, y as int),
        },
{
    if held {
        None
    } else {
        button_at(buttons, x, y)
    }
}

/// Whether a button that was held acts when the finger leaves the surface: it
/// does where the finger is still on it.
pub fn handle_release(held: Option<&Button>, x: i32, y: i32) -> (r: bool)
    requires
        held is Some ==> measurable(*held->0),
    ensures
        r == (held is Some && held->0@.covers(x as int, y as int)),
{
    match held {
        Some(button) => button_contains(button, x, y),
        None => false,
    }
}

/// Where it is noted that the user was greeted.
pub fn marker_path(wanted: Option<String>) -> (r: FilePath)
    ensures
        r@ == (match wanted {
            Some(path) => path@,
            None => "/home/root/.local/state/remagic/welcome-v1"@,
        }),
{
    match wanted {
        Some(path) => FilePath::new(path.as_str()),
        None => FilePath::new("/home/root/.local/state/remagic/welcome-v1"),
    }
}

/// The directory of the mark and the file that is written before it becomes
/// the mark, where the mark has a place.
pub fn marker_places(marker: &FilePath, process: u32) -> (r: Option<(FilePath, FilePath)>)
    ensures
        match r {
            Some((parent, temporary)) => {
                &&& parent_of(marker@) == Some(parent@)
                &&& temporary@ == joined(parent@, ".welcome-v1."@ + decimal(process as nat))
            },
            None => parent_of(marker@) is None,
        },
{
    match marker.parent() {
        Some(parent) => {
            let mut name = ".welcome-v1.".to_owned();
            let number = decimal_text(process as u64);
            name.append(number.as_str());
            let temporary = parent.join(name.as_str());
            Some((parent, temporary))
        },
        None => None,
    }
}

/// While a finger is followed, another one does nothing.
pub proof fn one_finger_counts(
    tracker: TouchTracker,
    kind: u32,
    finger: i32,
    x: i32,
    y: i32,
)
    requires
        tracker.primary is Some,
        tracker.primary->0 != finger,
    ensures
        tracker.after(Some((kind, finger, x, y))) == (tracker, None::<TouchEvent>),
{
}

/// A finger that goes down while none is down presses there; when the same finger goes up again it
/// is released there. Nothing else is a press or a release.
pub proof fn presses_and_releases_come_in_pairs(
    tracker: TouchTracker,
    kind: u32,
    finger: i32,
    x: i32,
    y: i32,
)
    ensures
        ({
            let (next, event) = tracker.after(Some((kind, finger, x, y)));
            &&& event is Some && event->0 is Press <==> kind == 16 && tracker.primary is None
            &&& event is Some && event->0 is Release <==> kind == 17 && tracker.primary == Some(
                finger,
            )
            &&& event is Some && event->0 is Press ==> event == Some(TouchEvent::Press { x, y })
                && next.primary == Some(finger)
            &&& event is Some && event->0 is Release ==> event == Some(
                TouchEvent::Release { x, y },
            ) && next.primary is None
            &&& event is None ==> next == tracker
        }),
        tracker.after(None) == (tracker, None::<TouchEvent>),
{
}

/// A touch packet gives its kind, finger and place from where they stand.
pub proof fn touch_packets_are_read(packet: Seq<u8>, received: int)
    ensures
        finger_packet(packet, received) is Some <==> received == 32 && packet[0] == 4,
        finger_packet(packet, received) is Some ==> {
            let (kind, finger, x, y) = finger_packet(packet, received)->0;
            &&& kind == little_endian_value(packet, 8)
            &&& finger == little_endian_value(packet, 12) as i32
            &&& x == little_endian_value(packet, 16) as i32
            &&& y == little_endian_value(packet, 20) as i32
        },
{
}

/// The messages about the cover, about waking and about sleep that concern an application name it
/// after a space.
pub proof fn messages_name_their_application(app_id: Seq<char>, text: Seq<char>, command: Seq<char>)
    requires
        valid_id(app_id),
        app_id.len() > 0,
        app_id.last() != '\n',
        !command.contains(' '),
        text == command.push(' ') + app_id.push('\n'),
    ensures
        command == "cover_sleep_app"@ ==> application_event(text) == Some(
            EventView::CoverSleep(Some(app_id)),
        ),
        command == "cover_open_app"@ || command == "resume_unlock_app"@ ==> application_event(text)
            == Some(EventView::ResumeUnlock(Some(app_id))),
        command != "cover_sleep_app"@ && command != "cover_open_app"@ && command
            != "resume_unlock_app"@ ==> application_event(text) is None,
{
    reveal_strlit("cover_sleep_app");
    reveal_strlit("cover_open_app");
    reveal_strlit("resume_unlock_app");
    assert("cover_sleep_app"@.len() == 15 && "cover_open_app"@.len() == 14
        && "resume_unlock_app"@.len() == 17);
    let line = command.push(' ') + app_id;
    assert(text.drop_last() =~= line);
    assert(text.last() == '\n');
    assert(line.last() == app_id.last());
    assert(trim_end(line, Trim::LineFeed) == line);
    assert(trim_end(text, Trim::LineFeed) == line);
    texts_are_cut_at_the_first_occurrence(line, ' ');
    assert(line[command.len() as int] == ' ');
    let (before, after) = cut_at(line, ' ')->0;
    assert(before.len() == command.len()) by {
        if before.len() < command.len() {
            assert(line[before.len() as int] == ' ');
            assert(command[before.len() as int] == ' ');
        } else if before.len() > command.len() {
            assert(before[command.len() as int] == line[command.len() as int]);
            assert(before.contains(' '));
        }
    }
    assert(before =~= command) by {
        assert forall|i: int| 0 <= i < command.len() implies before[i] == command[i] by {
            assert(line[i] == before[i] && line[i] == command[i]);
        }
    }
    assert(after =~= app_id) by {
        assert forall|i: int| 0 <= i < app_id.len() implies after[i] == app_id[i] by {
            assert(line[command.len() + 1 + i] == after[i]);
        }
    }
}

/// The messages that concern no application are whole lines; what is no text is no message.
pub proof fn messages_are_whole_lines(packet: Seq<u8>)
    ensures
        !valid_utf8(packet) ==> packet_event(packet) is None,
        valid_utf8(packet) && decode_utf8(packet) == "auto_sleep\n"@ ==> packet_event(packet)
            == Some(EventView::AutoSleep),
        valid_utf8(packet) && (decode_utf8(packet) == "resume_unlock\n"@ || decode_utf8(packet)
            == "cover_open\n"@) ==> packet_event(packet) == Some(EventView::ResumeUnlock(None)),
        valid_utf8(packet) && decode_utf8(packet) == "cover_sleep\n"@ ==> packet_event(packet)
            == Some(EventView::CoverSleep(None)),
        valid_utf8(packet) && decode_utf8(packet) == "wallpapers_changed\n"@ ==> packet_event(packet)
            == Some(EventView::WallpapersChanged),
{
    reveal_strlit("auto_sleep\n");
    reveal_strlit("resume_unlock\n");
    reveal_strlit("cover_open\n");
    reveal_strlit("cover_sleep\n");
    reveal_strlit("wallpapers_changed\n");
    assert("auto_sleep\n"@.len() == 11 && "resume_unlock\n"@.len() == 14 && "cover_open\n"@.len()
        == 11 && "cover_sleep\n"@.len() == 12 && "wallpapers_changed\n"@.len() == 19);
    assert("auto_sleep\n"@[0] != "cover_open\n"@[0]);
}

} // verus!
