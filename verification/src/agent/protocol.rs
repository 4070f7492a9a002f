//! What applications and the assistant service say to each other.
use vstd::prelude::*;
use crate::device::DeviceProfile;
use crate::manifest::AppId;
use crate::text::text_eq;

verus! {

/// Why and how urgently a turn is asked for.
#[derive(Clone, Copy, Debug, PartialEq, Eq, Structural)]
pub enum AgentLane {
    Interactive,
    Scheduled,
    Speculative,
}

/// Why a request fails.
#[derive(Clone, Copy, Debug, PartialEq, Eq, Structural)]
pub enum AgentErrorCode {
    InvalidRequest,
    Unavailable,
    Busy,
    BackendFailed,
    Cancelled,
    TurnNotFound,
    ToolNotPending,
}

/// Where the runtime comes from.
#[derive(Clone, Copy, Debug, PartialEq, Eq, Structural)]
pub enum AgentRuntimeSource {
    Missing,
    Packaged,
    Legacy,
    Override,
}

/// Which model answers, and how.
#[derive(Debug, Eq)]
pub struct AgentProfile {
    pub provider: String,
    pub model: String,
    pub thinking: String,
    pub tools: bool,
}

/// A profile over texts.
pub struct ProfileView {
    pub provider: Seq<char>,
    pub model: Seq<char>,
    pub thinking: Seq<char>,
    pub tools: bool,
}

impl View for AgentProfile {
    type V = ProfileView;

    open spec fn view(&self) -> ProfileView {
        ProfileView {
            provider: self.provider@,
            model: self.model@,
            thinking: self.thinking@,
            tools: self.tools,
        }
    }
}

impl Clone for AgentProfile {
    fn clone(&self) -> (r: AgentProfile)
        ensures
            r == *self,
    {
        AgentProfile {
            provider: self.provider.clone(),
            model: self.model.clone(),
            thinking: self.thinking.clone(),
            tools: self.tools,
        }
    }
}

impl PartialEq for AgentProfile {
    fn eq(&self, other: &AgentProfile) -> (r: bool) {
        text_eq(self.provider.as_str(), other.provider.as_str()) && text_eq(
            self.model.as_str(),
            other.model.as_str(),
        ) && text_eq(self.thinking.as_str(), other.thinking.as_str()) && self.tools == other.tools
    }
}

impl vstd::std_specs::cmp::PartialEqSpecImpl for AgentProfile {
    open spec fn obeys_eq_spec() -> bool {
        true
    }

    open spec fn eq_spec(&self, other: &AgentProfile) -> bool {
        self@ == other@
    }
}

/// The profile of an application that may have none, over texts.
pub open spec fn profile_view(profile: Option<AgentProfile>) -> Option<ProfileView> {
    match profile {
        Some(profile) => Some(profile@),
        None => None,
    }
}

/// An earlier exchange of the conversation.
#[derive(Clone, Debug, PartialEq, Eq)]
pub struct AgentHistoryTurn {
    pub user: String,
    pub assistant: String,
}

/// What the service knows of one application and of itself.
#[derive(Clone, Debug, PartialEq, Eq)]
pub struct AgentStatus {
    pub available: bool,
    pub provider_configured: bool,
    pub runtime_source: AgentRuntimeSource,
    pub busy: bool,
    pub active_turn_id: Option<String>,
    pub profile: Option<AgentProfile>,
    pub device: DeviceProfile,
}

/// What the service tells an application.
#[derive(Clone, Debug, PartialEq, Eq)]
pub enum AgentEvent {
    Accepted { request_id: String, app_id: AppId, turn_id: String },
    TextDelta { request_id: String, app_id: AppId, turn_id: String, text: String },
    Complete { request_id: String, app_id: AppId, turn_id: String },
    Error {
        request_id: String,
        app_id: AppId,
        turn_id: Option<String>,
        code: AgentErrorCode,
        message: String,
        retryable: bool,
    },
    Status { request_id: String, app_id: AppId, status: AgentStatus },
}

/// An event over texts.
pub enum EventView {
    Accepted(Seq<char>, Seq<char>, Seq<char>),
    TextDelta(Seq<char>, Seq<char>, Seq<char>, Seq<char>),
    Complete(Seq<char>, Seq<char>, Seq<char>),
    Error(Seq<char>, Seq<char>, Option<Seq<char>>, AgentErrorCode, Seq<char>, bool),
    Status(Seq<char>, Seq<char>, AgentStatus),
}

impl View for AgentEvent {
    type V = EventView;

    open spec fn view(&self) -> EventView {
        match self {
            AgentEvent::Accepted { request_id, app_id, turn_id } => EventView::Accepted(
                request_id@,
                app_id@,
                turn_id@,
            ),
            AgentEvent::TextDelta { request_id, app_id, turn_id, text } => EventView::TextDelta(
                request_id@,
                app_id@,
                turn_id@,
                text@,
            ),
            AgentEvent::Complete { request_id, app_id, turn_id } => EventView::Complete(
                request_id@,
                app_id@,
                turn_id@,
            ),
            AgentEvent::Error { request_id, app_id, turn_id, code, message, retryable } => {
                EventView::Error(
                    request_id@,
                    app_id@,
                    match turn_id {
                        Some(turn_id) => Some(turn_id@),
                        None => None,
                    },
                    *code,
                    message@,
                    *retryable,
                )
            },
            AgentEvent::Status { request_id, app_id, status } => EventView::Status(
                request_id@,
                app_id@,
                *status,
            ),
        }
    }
}

/// One turn of a conversation.
#[derive(Clone, Debug, PartialEq, Eq)]
pub struct TurnInput {
    pub request_id: String,
    pub app_id: AppId,
    pub turn_id: String,
    pub input: String,
    pub history: Vec<AgentHistoryTurn>,
}

impl TurnInput {
    /// The event of an error in this turn.
    pub open spec fn error_view(
        &self,
        code: AgentErrorCode,
        message: Seq<char>,
        retryable: bool,
    ) -> EventView {
        EventView::Error(
            self.request_id@,
            self.app_id@,
            Some(self.turn_id@),
            code,
            message,
            retryable,
        )
    }

    /// Reports a failure of the backend in this turn.
    pub fn error(&self, message: String, retryable: bool) -> (r: AgentEvent)
        ensures
            r@ == self.error_view(AgentErrorCode::BackendFailed, message@, retryable),
    {
        AgentEvent::Error {
            request_id: self.request_id.clone(),
            app_id: self.app_id.clone(),
            turn_id: Some(self.turn_id.clone()),
            code: AgentErrorCode::BackendFailed,
            message,
            retryable,
        }
    }

    /// Reports that this turn was cancelled.
    pub fn cancelled(&self) -> (r: AgentEvent)
        ensures
            r@ == self.error_view(AgentErrorCode::Cancelled, "turn cancelled"@, false),
    {
        AgentEvent::Error {
            request_id: self.request_id.clone(),
            app_id: self.app_id.clone(),
            turn_id: Some(self.turn_id.clone()),
            code: AgentErrorCode::Cancelled,
            message: "turn cancelled".to_owned(),
            retryable: false,
        }
    }
}

} // verus!
