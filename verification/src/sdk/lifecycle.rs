//! The application's side of the fenced lifecycle.
use vstd::prelude::*;
use crate::manifest::AppId;
use crate::sdk::frame::{decode_frame, encode_frame};
use crate::sdk::frame::{frame_contents, frame_of, valid_length};
use crate::state::model::AppToken;
use crate::state::model::TokenView;
use crate::text::decimal_text;
use crate::text::decimal;
use crate::text::signed_decimal_text;
use crate::text::signed_decimal;

verus! {

/// Why a lifecycle exchange fails.
#[derive(Debug, PartialEq, Eq)]
pub enum LifecycleError {
    InvalidDescriptor(i32),
    Disconnected,
    WrongSocketType,
    InvalidFrame(usize),
    ShortWrite(usize),
    StartRequired,
    InvalidToken,
    StaleToken,
    ZeroFrameSequence,
    Io(String),
    Json(String),
    Header(String),
    Validation(String),
}

/// What an application reports.
#[derive(Clone, Debug, PartialEq, Eq)]
pub enum LifecycleEvent {
    Ready { first_frame_sequence: Option<u64> },
    StateSaved,
    BackgroundReady { title: String, subtitle: String },
    ShutdownComplete { exit_code: i32 },
    Failed { stage: String, message: String, retryable: bool },
}

/// An event with the identity that it is sent under.
#[derive(Debug, PartialEq, Eq)]
pub struct OutgoingEvent {
    pub request_id: String,
    pub token: AppToken,
    pub event: LifecycleEvent,
}

/// Accepts only commands for the present process and its present foreground
/// work, and stamps what the application reports.
#[derive(Debug)]
pub struct LifecycleFence {
    app_id: AppId,
    active_token: Option<AppToken>,
    request_sequence: u64,
}

/// The state of a fence.
pub struct FenceView {
    pub app_id: Seq<char>,
    pub active: Option<TokenView>,
    pub sequence: u64,
}

/// The token of a fence, over texts.
pub open spec fn token_view(token: Option<AppToken>) -> Option<TokenView> {
    match token {
        Some(token) => Some(token@),
        None => None,
    }
}

impl View for LifecycleFence {
    type V = FenceView;

    closed spec fn view(&self) -> FenceView {
        FenceView {
            app_id: self.app_id@,
            active: token_view(self.active_token),
            sequence: self.request_sequence,
        }
    }
}

impl FenceView {
    /// Why a command is refused.
    pub open spec fn refusal(self, token: TokenView, is_start: bool) -> Option<LifecycleError> {
        if token.app_id != self.app_id || token.generation == 0 || token.lease_id == Some(0u64) {
            Some(LifecycleError::InvalidToken)
        } else {
            match self.active {
                None => if is_start && token.foreground_epoch > 0 && token.lease_id is Some {
                    None
                } else {
                    Some(LifecycleError::StartRequired)
                },
                Some(active) => if token.generation != active.generation || token.foreground_epoch
                    < active.foreground_epoch {
                    Some(LifecycleError::StaleToken)
                } else {
                    None
                },
            }
        }
    }

    /// The number of the next event.
    pub open spec fn next_sequence(self) -> u64 {
        if self.sequence == u64::MAX {
            u64::MAX
        } else {
            (self.sequence + 1) as u64
        }
    }

    /// The id of the next event at a given time.
    pub open spec fn next_id(self, stamp_ms: u64) -> Seq<char> {
        self.app_id + "-"@ + decimal(stamp_ms as nat) + "-"@ + decimal(self.next_sequence() as nat)
    }
}

impl LifecycleFence {
    /// The fence of an application that has not been started.
    pub fn new(app_id: AppId) -> (r: LifecycleFence)
        ensures
            r@ == (FenceView { app_id: app_id@, active: None, sequence: 0 }),
    {
        LifecycleFence { app_id, active_token: None, request_sequence: 0 }
    }

    /// The token of the last accepted command.
    pub fn active_token(&self) -> (r: Option<&AppToken>)
        ensures
            match r {
                Some(token) => self@.active == Some(token@),
                None => self@.active is None,
            },
    {
        self.active_token.as_ref()
    }

    /// Accepts the token of a command, or refuses the command.
    pub fn accept_token(&mut self, token: &AppToken, is_start: bool) -> (r: Result<
        (),
        LifecycleError,
    >)
        ensures
            match r {
                Ok(_) => old(self)@.refusal(token@, is_start) is None && final(self)@ == (
                FenceView { active: Some(token@), ..old(self)@ }),
                Err(e) => old(self)@.refusal(token@, is_start) == Some(e) && final(self)@
                    == old(self)@,
            },
    {
        let zero_lease = match token.lease_id {
            Some(lease) => lease == 0,
            None => false,
        };
        if token.app_id != self.app_id || token.generation == 0 || zero_lease {
            return Err(LifecycleError::InvalidToken);
        }
        match &self.active_token {
            None => {
                if !(is_start && token.foreground_epoch > 0 && token.lease_id.is_some()) {
                    return Err(LifecycleError::StartRequired);
                }
            },
            Some(active) => {
                if token.generation != active.generation || token.foreground_epoch
                    < active.foreground_epoch {
                    return Err(LifecycleError::StaleToken);
                }
            },
        }
        self.active_token = Some(token.clone());
        Ok(())
    }

    /// Stamps an event with the current token and the next id.
    pub fn stamp(&mut self, event: LifecycleEvent, stamp_ms: u64) -> (r: Result<
        OutgoingEvent,
        LifecycleError,
    >)
        ensures
            match r {
                Ok(outgoing) => {
                    &&& old(self)@.active == Some(outgoing.token@)
                    &&& outgoing.request_id@ == old(self)@.next_id(stamp_ms)
                    &&& outgoing.event == event
                    &&& final(self)@ == (FenceView {
                        sequence: old(self)@.next_sequence(),
                        ..old(self)@
                    })
                },
                Err(e) => old(self)@.active is None && e == LifecycleError::StartRequired
                    && final(self)@ == old(self)@,
            },
    {
        let token = match &self.active_token {
            Some(token) => token.clone(),
            None => return Err(LifecycleError::StartRequired),
        };
        self.request_sequence = self.request_sequence.saturating_add(1);
        let mut request_id = self.app_id.to_text();
        request_id.append("-");
        request_id.append(decimal_text(stamp_ms).as_str());
        request_id.append("-");
        request_id.append(decimal_text(self.request_sequence).as_str());
        Ok(OutgoingEvent { request_id, token, event })
    }

    /// Reports the first frame.
    pub fn ready(&mut self, first_frame_sequence: u64, stamp_ms: u64) -> (r: Result<
        OutgoingEvent,
        LifecycleError,
    >)
        ensures
            match r {
                Ok(outgoing) => {
                    &&& first_frame_sequence != 0
                    &&& old(self)@.active == Some(outgoing.token@)
                    &&& outgoing.request_id@ == old(self)@.next_id(stamp_ms)
                    &&& outgoing.event == (LifecycleEvent::Ready {
                        first_frame_sequence: Some(first_frame_sequence),
                    })
                    &&& final(self)@ == (FenceView {
                        sequence: old(self)@.next_sequence(),
                        ..old(self)@
                    })
                },
                Err(e) => final(self)@ == old(self)@ && e == (if first_frame_sequence == 0 {
                    LifecycleError::ZeroFrameSequence
                } else {
                    LifecycleError::StartRequired
                }) && (first_frame_sequence == 0 || old(self)@.active is None),
            },
    {
        if first_frame_sequence == 0 {
            return Err(LifecycleError::ZeroFrameSequence);
        }
        self.stamp(
            LifecycleEvent::Ready { first_frame_sequence: Some(first_frame_sequence) },
            stamp_ms,
        )
    }

    /// Reports that the state is saved, and then that the application is ready
    /// in the background.
    pub fn background_ready(&mut self, title: String, subtitle: String, stamp_ms: u64) -> (r:
        Result<(OutgoingEvent, OutgoingEvent), LifecycleError>)
        ensures
            match r {
                Ok((saved, ready)) => {
                    let between = FenceView { sequence: old(self)@.next_sequence(), ..old(self)@ };
                    &&& old(self)@.active == Some(saved.token@)
                    &&& old(self)@.active == Some(ready.token@)
                    &&& saved.event == LifecycleEvent::StateSaved
                    &&& ready.event == (LifecycleEvent::BackgroundReady { title, subtitle })
                    &&& saved.request_id@ == old(self)@.next_id(stamp_ms)
                    &&& ready.request_id@ == between.next_id(stamp_ms)
                    &&& final(self)@ == (FenceView {
                        sequence: between.next_sequence(),
                        ..old(self)@
                    })
                },
                Err(e) => old(self)@.active is None && e == LifecycleError::StartRequired
                    && final(self)@ == old(self)@,
            },
    {
        let saved = match self.stamp(LifecycleEvent::StateSaved, stamp_ms) {
            Ok(saved) => saved,
            Err(e) => return Err(e),
        };
        let ready = match self.stamp(LifecycleEvent::BackgroundReady { title, subtitle }, stamp_ms) {
            Ok(ready) => ready,
            Err(e) => return Err(e),
        };
        Ok((saved, ready))
    }
}

impl LifecycleFence {
    /// Reports the end of a shutdown.
    pub fn shutdown_complete(&mut self, exit_code: i32, stamp_ms: u64) -> (r: Result<
        OutgoingEvent,
        LifecycleError,
    >)
        ensures
            match r {
                Ok(outgoing) => {
                    &&& old(self)@.active == Some(outgoing.token@)
                    &&& outgoing.request_id@ == old(self)@.next_id(stamp_ms)
                    &&& outgoing.event == (LifecycleEvent::ShutdownComplete { exit_code })
                    &&& final(self)@ == (FenceView {
                        sequence: old(self)@.next_sequence(),
                        ..old(self)@
                    })
                },
                Err(e) => old(self)@.active is None && e == LifecycleError::StartRequired
                    && final(self)@ == old(self)@,
            },
    {
        self.stamp(LifecycleEvent::ShutdownComplete { exit_code }, stamp_ms)
    }

    /// Reports a failure.
    pub fn failed(
        &mut self,
        stage: String,
        message: String,
        retryable: bool,
        stamp_ms: u64,
    ) -> (r: Result<OutgoingEvent, LifecycleError>)
        ensures
            match r {
                Ok(outgoing) => {
                    &&& old(self)@.active == Some(outgoing.token@)
                    &&& outgoing.request_id@ == old(self)@.next_id(stamp_ms)
                    &&& outgoing.event == (LifecycleEvent::Failed { stage, message, retryable })
                    &&& final(self)@ == (FenceView {
                        sequence: old(self)@.next_sequence(),
                        ..old(self)@
                    })
                },
                Err(e) => old(self)@.active is None && e == LifecycleError::StartRequired
                    && final(self)@ == old(self)@,
            },
    {
        self.stamp(LifecycleEvent::Failed { stage, message, retryable }, stamp_ms)
    }
}

/// The contents of a packet that is one command.
pub fn decode_command_packet(packet: &[u8], max_frame: usize) -> (r: Result<
    Vec<u8>,
    LifecycleError,
>)
    requires
        max_frame <= u32::MAX - 4,
    ensures
        match r {
            Ok(contents) => frame_contents(packet@, max_frame) == Ok::<Seq<u8>, int>(contents@),
            Err(LifecycleError::InvalidFrame(length)) => frame_contents(packet@, max_frame)
                == Err::<Seq<u8>, int>(length as int),
            Err(_) => false,
        },
{
    match decode_frame(packet, max_frame) {
        Ok(contents) => Ok(contents),
        Err(length) => Err(LifecycleError::InvalidFrame(length)),
    }
}

/// The packet of an event with the given encoding.
pub fn encode_event_packet(contents: &[u8], max_frame: usize) -> (r: Result<
    Vec<u8>,
    LifecycleError,
>)
    requires
        max_frame <= u32::MAX - 4,
    ensures
        match r {
            Ok(packet) => valid_length(contents@.len() as int, max_frame) && packet@ == frame_of(
                contents@,
            ),
            Err(LifecycleError::InvalidFrame(length)) => length == contents@.len()
                && !valid_length(length as int, max_frame),
            Err(_) => false,
        },
{
    match encode_frame(contents, max_frame) {
        Ok(packet) => Ok(packet),
        Err(length) => Err(LifecycleError::InvalidFrame(length)),
    }
}

/// Once an application was started, no command of another process or of
/// earlier foreground work is accepted.
pub proof fn stale_commands_are_refused(fence: FenceView, token: TokenView, is_start: bool)
    requires
        fence.active is Some,
        token.generation != fence.active->0.generation || token.foreground_epoch
            < fence.active->0.foreground_epoch,
    ensures
        fence.refusal(token, is_start) is Some,
{
}

/// The first command that is accepted is a start with a foreground epoch and
/// a lease, for this application.
pub proof fn the_first_command_is_a_fenced_start(
    fence: FenceView,
    token: TokenView,
    is_start: bool,
)
    requires
        fence.active is None,
        fence.refusal(token, is_start) is None,
    ensures
        is_start,
        token.app_id == fence.app_id,
        token.generation > 0,
        token.foreground_epoch > 0,
        token.lease_id is Some && token.lease_id != Some(0u64),
{
}

impl LifecycleError {
    /// The reason in words.
    pub open spec fn text(self) -> Seq<char> {
        match self {
            LifecycleError::InvalidDescriptor(a) => "invalid lifecycle descriptor "@ + signed_decimal(a as int),
            LifecycleError::Disconnected => "lifecycle channel disconnected"@,
            LifecycleError::WrongSocketType => "lifecycle descriptor is not a SOCK_SEQPACKET socket"@,
            LifecycleError::InvalidFrame(a) => "invalid lifecycle frame length "@ + decimal(a as nat),
            LifecycleError::ShortWrite(a) => "lifecycle channel made a short packet write of "@ + decimal(a as nat) + " bytes"@,
            LifecycleError::StartRequired => "lifecycle must begin with a fenced start command"@,
            LifecycleError::InvalidToken => "lifecycle token is invalid for this application"@,
            LifecycleError::StaleToken => "stale lifecycle token"@,
            LifecycleError::ZeroFrameSequence => "first frame sequence must be non-zero"@,
            LifecycleError::Io(a) => a@,
            LifecycleError::Json(a) => a@,
            LifecycleError::Header(a) => a@,
            LifecycleError::Validation(a) => a@,
        }
    }

    /// The reason in words.
    pub fn message(&self) -> (r: String)
        ensures
            r@ == self.text(),
    {
        match self {
            LifecycleError::InvalidDescriptor(a) => {
                let mut message = "invalid lifecycle descriptor ".to_owned();
                message.append(signed_decimal_text(*a as i64).as_str());
                message
            },
            LifecycleError::Disconnected => "lifecycle channel disconnected".to_owned(),
            LifecycleError::WrongSocketType => "lifecycle descriptor is not a SOCK_SEQPACKET socket".to_owned(),
            LifecycleError::InvalidFrame(a) => {
                let mut message = "invalid lifecycle frame length ".to_owned();
                message.append(decimal_text(*a as u64).as_str());
                message
            },
            LifecycleError::ShortWrite(a) => {
                let mut message = "lifecycle channel made a short packet write of ".to_owned();
                message.append(decimal_text(*a as u64).as_str());
                message.append(" bytes");
                message
            },
            LifecycleError::StartRequired => "lifecycle must begin with a fenced start command".to_owned(),
            LifecycleError::InvalidToken => "lifecycle token is invalid for this application".to_owned(),
            LifecycleError::StaleToken => "stale lifecycle token".to_owned(),
            LifecycleError::ZeroFrameSequence => "first frame sequence must be non-zero".to_owned(),
            LifecycleError::Io(a) => {
                let mut message = String::new();
                message.append(a.as_str());
                message
            },
            LifecycleError::Json(a) => {
                let mut message = String::new();
                message.append(a.as_str());
                message
            },
            LifecycleError::Header(a) => {
                let mut message = String::new();
                message.append(a.as_str());
                message
            },
            LifecycleError::Validation(a) => {
                let mut message = String::new();
                message.append(a.as_str());
                message
            },
        }
    }
}

/// A command is taken exactly where it is for this application and names a generation and, where
/// it names one, a lease; the first one has to start the application in the foreground, and the
/// later ones have to be of the same generation and of no earlier foreground.
pub proof fn commands_are_taken_in_turn(fence: FenceView, token: TokenView, is_start: bool)
    ensures
        fence.refusal(token, is_start) is None <==> {
            &&& token.app_id == fence.app_id
            &&& token.generation > 0
            &&& token.lease_id != Some(0u64)
            &&& fence.active is None ==> is_start && token.foreground_epoch > 0
                && token.lease_id is Some
            &&& fence.active is Some ==> token.generation == fence.active->0.generation
                && token.foreground_epoch >= fence.active->0.foreground_epoch
        },
        token.app_id != fence.app_id ==> fence.refusal(token, is_start) == Some(
            LifecycleError::InvalidToken,
        ),
        fence.refusal(token, is_start) == Some(LifecycleError::StartRequired)
            ==> fence.active is None,
        fence.refusal(token, is_start) == Some(LifecycleError::StaleToken)
            ==> fence.active is Some,
{
}

/// What was taken once is taken again, and so is anything later of the same generation; a token
/// that has been overtaken is not.
pub proof fn taken_commands_fence_off_earlier_ones(
    fence: FenceView,
    token: TokenView,
    other: TokenView,
    is_start: bool,
    later_start: bool,
)
    requires
        fence.refusal(token, is_start) is None,
    ensures
        ({
            let next = FenceView { active: Some(token), ..fence };
            &&& next.refusal(token, later_start) is None
            &&& other.app_id == token.app_id && other.lease_id == token.lease_id
                && other.generation == token.generation && other.foreground_epoch
                >= token.foreground_epoch ==> next.refusal(other, later_start) is None
            &&& other.app_id == token.app_id && other.lease_id == token.lease_id
                && other.generation == token.generation && other.foreground_epoch
                < token.foreground_epoch ==> next.refusal(other, later_start) == Some(
                LifecycleError::StaleToken,
            )
            &&& other.app_id == token.app_id && other.lease_id == token.lease_id
                && other.generation > 0 && other.generation != token.generation ==> next.refusal(
                other,
                later_start,
            ) == Some(LifecycleError::StaleToken)
        }),
{
}

/// Messages are numbered one after the other, and their names say whose they are, when they were
/// sent and which number they have.
pub proof fn messages_are_numbered(fence: FenceView, stamp_ms: u64)
    ensures
        fence.sequence < u64::MAX ==> fence.next_sequence() == fence.sequence + 1,
        fence.next_id(stamp_ms) == fence.app_id + "-"@ + decimal(stamp_ms as nat) + "-"@ + decimal(
            fence.next_sequence() as nat,
        ),
{
}

} // verus!
