//! What the service does with the requests of an application.
use vstd::prelude::*;
use crate::agent::protocol::{
    AgentErrorCode, AgentEvent, AgentHistoryTurn, AgentLane, AgentProfile,
};
use crate::agent::protocol::{profile_view, EventView};
use crate::agent::state::{AgentState, ClientIdentity};
use crate::agent::state::{state_of, AppView, TurnView};
use crate::manifest::AppId;
use crate::text::text_eq;

verus! {

/// A request of an application.
#[derive(Debug)]
pub enum AgentClientMessage {
    Status { request_id: String, app_id: AppId, client_token: String },
    StartTurn {
        request_id: String,
        app_id: AppId,
        client_token: String,
        profile: AgentProfile,
        lane: AgentLane,
        system_prompt: String,
        input: String,
        history: Vec<AgentHistoryTurn>,
        /// The names of the platform tools that the application defines.
        tools: Vec<String>,
    },
    CancelTurn { request_id: String, app_id: AppId, client_token: String, turn_id: String },
    ToolResult { request_id: String, app_id: AppId, client_token: String, turn_id: String },
    ReloadProfile {
        request_id: String,
        app_id: AppId,
        client_token: String,
        profile: Option<AgentProfile>,
    },
    NewSession { request_id: String, app_id: AppId, client_token: String },
}

impl AgentClientMessage {
    /// The id of the request.
    pub open spec fn id(&self) -> Seq<char> {
        match self {
            AgentClientMessage::Status { request_id, .. } => request_id@,
            AgentClientMessage::StartTurn { request_id, .. } => request_id@,
            AgentClientMessage::CancelTurn { request_id, .. } => request_id@,
            AgentClientMessage::ToolResult { request_id, .. } => request_id@,
            AgentClientMessage::ReloadProfile { request_id, .. } => request_id@,
            AgentClientMessage::NewSession { request_id, .. } => request_id@,
        }
    }

    /// The application that the request is for.
    pub open spec fn app(&self) -> Seq<char> {
        match self {
            AgentClientMessage::Status { app_id, .. } => app_id@,
            AgentClientMessage::StartTurn { app_id, .. } => app_id@,
            AgentClientMessage::CancelTurn { app_id, .. } => app_id@,
            AgentClientMessage::ToolResult { app_id, .. } => app_id@,
            AgentClientMessage::ReloadProfile { app_id, .. } => app_id@,
            AgentClientMessage::NewSession { app_id, .. } => app_id@,
        }
    }

    /// The token that the request is made with.
    pub open spec fn token(&self) -> Seq<char> {
        match self {
            AgentClientMessage::Status { client_token, .. } => client_token@,
            AgentClientMessage::StartTurn { client_token, .. } => client_token@,
            AgentClientMessage::CancelTurn { client_token, .. } => client_token@,
            AgentClientMessage::ToolResult { client_token, .. } => client_token@,
            AgentClientMessage::ReloadProfile { client_token, .. } => client_token@,
            AgentClientMessage::NewSession { client_token, .. } => client_token@,
        }
    }

    /// The id of the request.
    pub fn request_id(&self) -> (r: &str)
        ensures
            r@ == self.id(),
    {
        match self {
            AgentClientMessage::Status { request_id, .. } => request_id.as_str(),
            AgentClientMessage::StartTurn { request_id, .. } => request_id.as_str(),
            AgentClientMessage::CancelTurn { request_id, .. } => request_id.as_str(),
            AgentClientMessage::ToolResult { request_id, .. } => request_id.as_str(),
            AgentClientMessage::ReloadProfile { request_id, .. } => request_id.as_str(),
            AgentClientMessage::NewSession { request_id, .. } => request_id.as_str(),
        }
    }

    /// The application that the request is for.
    pub fn app_id(&self) -> (r: &AppId)
        ensures
            r@ == self.app(),
    {
        match self {
            AgentClientMessage::Status { app_id, .. } => app_id,
            AgentClientMessage::StartTurn { app_id, .. } => app_id,
            AgentClientMessage::CancelTurn { app_id, .. } => app_id,
            AgentClientMessage::ToolResult { app_id, .. } => app_id,
            AgentClientMessage::ReloadProfile { app_id, .. } => app_id,
            AgentClientMessage::NewSession { app_id, .. } => app_id,
        }
    }

    /// The token that the request is made with.
    pub fn client_token(&self) -> (r: &str)
        ensures
            r@ == self.token(),
    {
        match self {
            AgentClientMessage::Status { client_token, .. } => client_token.as_str(),
            AgentClientMessage::StartTurn { client_token, .. } => client_token.as_str(),
            AgentClientMessage::CancelTurn { client_token, .. } => client_token.as_str(),
            AgentClientMessage::ToolResult { client_token, .. } => client_token.as_str(),
            AgentClientMessage::ReloadProfile { client_token, .. } => client_token.as_str(),
            AgentClientMessage::NewSession { client_token, .. } => client_token.as_str(),
        }
    }
}

/// A turn that an application asks for.
#[derive(Debug)]
pub struct StartArguments {
    pub request_id: String,
    pub app_id: AppId,
    pub profile: AgentProfile,
    pub lane: AgentLane,
    pub system_prompt: String,
    pub input: String,
    pub history: Vec<AgentHistoryTurn>,
}

/// What is done for a request.
#[derive(Debug)]
pub enum RequestStep {
    /// The application is told this.
    Reply(AgentEvent),
    /// A process is shut down, where there is one, and the application is told
    /// its status.
    SendStatus { request_id: String, app_id: AppId, shutdown: Option<u64> },
    /// The turn is started.
    Start(StartArguments),
    /// The turn is cancelled.
    Cancel { request_id: String, app_id: AppId, turn_id: String },
    /// The session of a process is reset.
    ResetSession { request_id: String, app_id: AppId, worker: u64 },
}

/// What is done for a request, over texts.
pub enum StepView {
    Reply(EventView),
    SendStatus(Seq<char>, Seq<char>, Option<u64>),
    Start(StartArguments),
    Cancel(Seq<char>, Seq<char>, Seq<char>),
    ResetSession(Seq<char>, Seq<char>, u64),
}

impl View for RequestStep {
    type V = StepView;

    open spec fn view(&self) -> StepView {
        match self {
            RequestStep::Reply(event) => StepView::Reply(event@),
            RequestStep::SendStatus { request_id, app_id, shutdown } => StepView::SendStatus(
                request_id@,
                app_id@,
                *shutdown,
            ),
            RequestStep::Start(arguments) => StepView::Start(*arguments),
            RequestStep::Cancel { request_id, app_id, turn_id } => StepView::Cancel(
                request_id@,
                app_id@,
                turn_id@,
            ),
            RequestStep::ResetSession { request_id, app_id, worker } => StepView::ResetSession(
                request_id@,
                app_id@,
                *worker,
            ),
        }
    }
}

/// An error without a turn.
pub open spec fn refusal(
    request_id: Seq<char>,
    app_id: Seq<char>,
    code: AgentErrorCode,
    message: Seq<char>,
    retryable: bool,
) -> EventView {
    EventView::Error(request_id, app_id, None, code, message, retryable)
}

/// Reports an error.
pub fn error_event(
    request_id: &str,
    app_id: &AppId,
    turn_id: Option<String>,
    code: AgentErrorCode,
    message: &str,
    retryable: bool,
) -> (r: AgentEvent)
    ensures
        r@ == EventView::Error(
            request_id@,
            app_id@,
            match turn_id {
                Some(turn_id) => Some(turn_id@),
                None => None,
            },
            code,
            message@,
            retryable,
        ),
{
    AgentEvent::Error {
        request_id: request_id.to_owned(),
        app_id: app_id.clone(),
        turn_id,
        code,
        message: message.to_owned(),
        retryable,
    }
}

/// What is done for a request, and what is then known of its application.
/// Nothing means that nothing changes.
pub open spec fn request_step(message: AgentClientMessage, state: AppView) -> (
    StepView,
    Option<AppView>,
) {
    match message {
        AgentClientMessage::Status { request_id, app_id, .. } => (
            StepView::SendStatus(request_id@, app_id@, None),
            None,
        ),
        AgentClientMessage::StartTurn {
            request_id,
            app_id,
            profile,
            lane,
            system_prompt,
            input,
            history,
            tools,
            ..
        } => (
            if tools@.len() > 0 {
                StepView::Reply(
                    refusal(
                        request_id@,
                        app_id@,
                        AgentErrorCode::InvalidRequest,
                        "platform tool definitions are unavailable in this build"@,
                        false,
                    ),
                )
            } else {
                StepView::Start(
                    StartArguments {
                        request_id,
                        app_id,
                        profile,
                        lane,
                        system_prompt,
                        input,
                        history,
                    },
                )
            },
            None,
        ),
        AgentClientMessage::CancelTurn { request_id, app_id, turn_id, .. } => (
            if state.runs(turn_id@) {
                StepView::Cancel(request_id@, app_id@, turn_id@)
            } else {
                StepView::Reply(
                    EventView::Error(
                        request_id@,
                        app_id@,
                        Some(turn_id@),
                        AgentErrorCode::TurnNotFound,
                        "turn is not active"@,
                        false,
                    ),
                )
            },
            None,
        ),
        AgentClientMessage::ToolResult { request_id, app_id, turn_id, .. } => (
            StepView::Reply(
                EventView::Error(
                    request_id@,
                    app_id@,
                    Some(turn_id@),
                    AgentErrorCode::ToolNotPending,
                    "the safe Pi backend has no pending platform tool"@,
                    false,
                ),
            ),
            None,
        ),
        AgentClientMessage::ReloadProfile { request_id, app_id, profile, .. } => {
            let next = state.reloaded(profile_view(profile));
            if state.active is Some {
                (
                    StepView::Reply(
                        refusal(
                            request_id@,
                            app_id@,
                            AgentErrorCode::Busy,
                            "profile cannot change during an active turn"@,
                            true,
                        ),
                    ),
                    None,
                )
            } else {
                (
                    StepView::SendStatus(
                        request_id@,
                        app_id@,
                        if next.worker == state.worker {
                            None
                        } else {
                            state.worker
                        },
                    ),
                    Some(next),
                )
            }
        },
        AgentClientMessage::NewSession { request_id, app_id, .. } => (
            if state.active is Some {
                StepView::Reply(
                    refusal(
                        request_id@,
                        app_id@,
                        AgentErrorCode::Busy,
                        "Pi session could not be reset"@,
                        true,
                    ),
                )
            } else {
                match state.worker {
                    Some(worker) => StepView::ResetSession(request_id@, app_id@, worker),
                    None => StepView::SendStatus(request_id@, app_id@, None),
                }
            },
            None,
        ),
    }
}

/// Decides what is done for a request.
pub fn dispatch(message: AgentClientMessage, state: &mut AgentState) -> (r: RequestStep)
    ensures
        ({
            let (step, next) = request_step(message, state_of(old(state)@, message.app()));
            &&& r@ == step
            &&& final(state)@ == (match next {
                Some(app) => old(state)@.insert(message.app(), app),
                None => old(state)@,
            })
            &&& final(state).same_host(old(state))
        }),
{
    match message {
        AgentClientMessage::Status { request_id, app_id, .. } => RequestStep::SendStatus {
            request_id,
            app_id,
            shutdown: None,
        },
        AgentClientMessage::StartTurn {
            request_id,
            app_id,
            profile,
            lane,
            system_prompt,
            input,
            history,
            tools,
            ..
        } => {
            if tools.len() > 0 {
                return RequestStep::Reply(
                    error_event(
                        request_id.as_str(),
                        &app_id,
                        None,
                        AgentErrorCode::InvalidRequest,
                        "platform tool definitions are unavailable in this build",
                        false,
                    ),
                );
            }
            RequestStep::Start(
                StartArguments {
                    request_id,
                    app_id,
                    profile,
                    lane,
                    system_prompt,
                    input,
                    history,
                },
            )
        },
        AgentClientMessage::CancelTurn { request_id, app_id, turn_id, .. } => {
            if state.cancel(&app_id, turn_id.as_str()) {
                return RequestStep::Cancel { request_id, app_id, turn_id };
            }
            RequestStep::Reply(turn_not_active(request_id.as_str(), &app_id, turn_id))
        },
        AgentClientMessage::ToolResult { request_id, app_id, turn_id, .. } => RequestStep::Reply(
            error_event(
                request_id.as_str(),
                &app_id,
                Some(turn_id),
                AgentErrorCode::ToolNotPending,
                "the safe Pi backend has no pending platform tool",
                false,
            ),
        ),
        AgentClientMessage::ReloadProfile { request_id, app_id, profile, .. } => {
            match state.reload_profile(&app_id, profile) {
                Ok(shutdown) => RequestStep::SendStatus { request_id, app_id, shutdown },
                Err(code) => RequestStep::Reply(
                    error_event(
                        request_id.as_str(),
                        &app_id,
                        None,
                        code,
                        "profile cannot change during an active turn",
                        true,
                    ),
                ),
            }
        },
        AgentClientMessage::NewSession { request_id, app_id, .. } => {
            match state.new_session(&app_id) {
                Ok(Some(worker)) => RequestStep::ResetSession { request_id, app_id, worker },
                Ok(None) => RequestStep::SendStatus { request_id, app_id, shutdown: None },
                Err(code) => RequestStep::Reply(
                    session_not_reset(request_id.as_str(), &app_id, code),
                ),
            }
        },
    }
}

/// Reports that a turn does not run, or that its cancellation reached nobody.
pub fn turn_not_active(request_id: &str, app_id: &AppId, turn_id: String) -> (r: AgentEvent)
    ensures
        r@ == EventView::Error(
            request_id@,
            app_id@,
            Some(turn_id@),
            AgentErrorCode::TurnNotFound,
            "turn is not active"@,
            false,
        ),
{
    error_event(
        request_id,
        app_id,
        Some(turn_id),
        AgentErrorCode::TurnNotFound,
        "turn is not active",
        false,
    )
}

/// Reports that a session was not reset.
pub fn session_not_reset(request_id: &str, app_id: &AppId, code: AgentErrorCode) -> (r: AgentEvent)
    ensures
        r@ == refusal(request_id@, app_id@, code, "Pi session could not be reset"@, true),
{
    error_event(request_id, app_id, None, code, "Pi session could not be reset", true)
}

/// Why a turn did not start, in words.
pub open spec fn start_complaint(code: AgentErrorCode) -> Seq<char> {
    match code {
        AgentErrorCode::Unavailable => "Pi runtime is not installed"@,
        AgentErrorCode::Busy => "this application already has an active turn"@,
        _ => "turn could not start"@,
    }
}

/// Reports that a turn did not start.
pub fn start_refused(request_id: &str, app_id: &AppId, code: AgentErrorCode) -> (r: AgentEvent)
    ensures
        r@ == refusal(request_id@, app_id@, code, start_complaint(code), true),
{
    let message = match code {
        AgentErrorCode::Unavailable => "Pi runtime is not installed",
        AgentErrorCode::Busy => "this application already has an active turn",
        _ => "turn could not start",
    };
    error_event(request_id, app_id, None, code, message, true)
}

/// What a start that was claimed comes to: the turn that the connection now
/// owns and what the application is told, or the refusal.
pub fn start_turn(
    state: &mut AgentState,
    identity: &ClientIdentity,
    connection_turn: &mut Option<(AppId, String)>,
    request: &StartArguments,
    ready: Result<u64, AgentErrorCode>,
) -> (r: (AgentEvent, Option<String>))
    ensures
        ({
            let app_id = request.app_id@;
            let turn_id = app_id + ":"@ + request.request_id@;
            let app = state_of(old(state)@, app_id);
            let refused = match ready {
                Ok(_) => if app.active is Some {
                    Some(AgentErrorCode::Busy)
                } else {
                    None
                },
                Err(code) => Some(code),
            };
            &&& match refused {
                Some(code) => {
                    &&& r.0@ == refusal(
                        request.request_id@,
                        app_id,
                        code,
                        start_complaint(code),
                        true,
                    )
                    &&& r.1 is None
                    &&& final(state)@ == old(state)@
                    &&& *final(connection_turn) == *old(connection_turn)
                },
                None => {
                    &&& r.0@ == EventView::Accepted(request.request_id@, app_id, turn_id)
                    &&& r.1 is Some && r.1->0@ == turn_id
                    &&& owned_turn(*final(connection_turn)) == Some((app_id, turn_id))
                    &&& state_of(final(state)@, app_id).runs(turn_id)
                    &&& final(state)@ == old(state)@.insert(
                        app_id,
                        app.running(
                            TurnView {
                                id: turn_id,
                                lane: request.lane,
                                principal: identity.principal@,
                            },
                            request.profile@,
                            request.system_prompt@,
                            ready->Ok_0,
                        ),
                    )
                },
            }
            &&& final(state).same_host(old(state))
        }),
{
    let worker = match ready {
        Ok(worker) => worker,
        Err(code) => return (
            start_refused(request.request_id.as_str(), &request.app_id, code),
            None,
        ),
    };
    match state.claim(
        &request.app_id,
        request.request_id.as_str(),
        request.profile.clone(),
        request.system_prompt.clone(),
        request.lane,
        identity.principal.clone(),
        worker,
    ) {
        Some(turn_id) => {
            *connection_turn = Some((request.app_id.clone(), turn_id.clone()));
            (
                AgentEvent::Accepted {
                    request_id: request.request_id.clone(),
                    app_id: request.app_id.clone(),
                    turn_id: turn_id.clone(),
                },
                Some(turn_id),
            )
        },
        None => (
            start_refused(request.request_id.as_str(), &request.app_id, AgentErrorCode::Busy),
            None,
        ),
    }
}

/// The turn that a connection owns, over texts.
pub open spec fn owned_turn(owned: Option<(AppId, String)>) -> Option<(Seq<char>, Seq<char>)> {
    match owned {
        Some((app_id, turn_id)) => Some((app_id@, turn_id@)),
        None => None,
    }
}

/// Ends a turn: the application is free again, and the connection no longer
/// owns it. A process that failed to run it is reported.
pub fn turn_ended(
    state: &mut AgentState,
    connection_turn: &mut Option<(AppId, String)>,
    request_id: &str,
    app_id: &AppId,
    turn_id: &str,
    failure: Option<String>,
) -> (r: Option<AgentEvent>)
    ensures
        ({
            let app = state_of(old(state)@, app_id@);
            &&& match failure {
                Some(message) => r is Some && r->0@ == EventView::Error(
                    request_id@,
                    app_id@,
                    Some(turn_id@),
                    AgentErrorCode::BackendFailed,
                    message@,
                    true,
                ),
                None => r is None,
            }
            &&& final(state)@ == (if app.runs(turn_id@) {
                old(state)@.insert(app_id@, AppView { active: None, ..app })
            } else {
                old(state)@
            })
            &&& final(state).same_host(old(state))
            &&& owned_turn(*final(connection_turn)) == (if owned_turn(*old(connection_turn)) == Some(
                (app_id@, turn_id@),
            ) {
                None
            } else {
                owned_turn(*old(connection_turn))
            })
        }),
{
    state.finish(app_id, turn_id);
    clear_owned_turn(connection_turn, app_id, turn_id);
    match failure {
        Some(message) => Some(
            error_event(
                request_id,
                app_id,
                Some(turn_id.to_owned()),
                AgentErrorCode::BackendFailed,
                message.as_str(),
                true,
            ),
        ),
        None => None,
    }
}

/// Forgets the turn that a connection owns, where it is this one.
pub fn clear_owned_turn(owned: &mut Option<(AppId, String)>, app_id: &AppId, turn_id: &str)
    ensures
        *final(owned) == (if owned_turn(*old(owned)) == Some((app_id@, turn_id@)) {
            None
        } else {
            *old(owned)
        }),
{
    let this_one = match &*owned {
        Some((app, turn)) => text_eq(app.as_str(), app_id.as_str()) && text_eq(
            turn.as_str(),
            turn_id,
        ),
        None => false,
    };
    if this_one {
        *owned = None;
    }
}

/// The turn that is cancelled when a connection ends: the one it owns, where
/// it runs. The connection owns nothing afterwards.
pub fn cancel_connection_turn(state: &AgentState, owned: &mut Option<(AppId, String)>) -> (r:
    Option<(AppId, String)>)
    ensures
        *final(owned) is None,
        owned_turn(r) == (match owned_turn(*old(owned)) {
            Some((app_id, turn_id)) => if state_of(state@, app_id).runs(turn_id) {
                Some((app_id, turn_id))
            } else {
                None
            },
            None => None,
        }),
{
    match owned.take() {
        Some((app_id, turn_id)) => if state.cancel(&app_id, turn_id.as_str()) {
            Some((app_id, turn_id))
        } else {
            None
        },
        None => None,
    }
}

/// A request that is answered at once changes nothing that is known of its
/// application.
pub proof fn answered_requests_change_nothing(message: AgentClientMessage, state: AppView)
    requires
        request_step(message, state).0 is Reply,
    ensures
        request_step(message, state).1 is None,
{
}

/// Whatever a request leads to names the request and the application that asked.
pub proof fn requests_are_answered_to_their_sender(message: AgentClientMessage, state: AppView)
    ensures
        match request_step(message, state).0 {
            StepView::Reply(event) => event is Error && event->Error_0 == message.id()
                && event->Error_1 == message.app(),
            StepView::SendStatus(request_id, app_id, _) => request_id == message.id() && app_id
                == message.app(),
            StepView::Start(arguments) => arguments.request_id@ == message.id()
                && arguments.app_id@ == message.app(),
            StepView::Cancel(request_id, app_id, _) => request_id == message.id() && app_id
                == message.app(),
            StepView::ResetSession(request_id, app_id, _) => request_id == message.id() && app_id
                == message.app(),
        },
{
}

/// A turn starts exactly as it was asked for; one that brings its own tools is refused for good.
pub proof fn turns_start_as_they_were_asked_for(message: AgentClientMessage, state: AppView)
    requires
        message is StartTurn,
    ensures
        message->tools@.len() == 0 ==> {
            &&& request_step(message, state).0 is Start
            &&& request_step(message, state).0->Start_0.profile
                == message->StartTurn_profile
            &&& request_step(message, state).0->Start_0.lane == message->lane
            &&& request_step(message, state).0->Start_0.system_prompt == message->system_prompt
            &&& request_step(message, state).0->Start_0.input == message->input
            &&& request_step(message, state).0->Start_0.history == message->history
        },
        message->tools@.len() > 0 ==> {
            &&& request_step(message, state).0 is Reply
            &&& request_step(message, state).0->Reply_0 is Error
            &&& request_step(message, state).0->Reply_0->Error_2 is None
            &&& request_step(message, state).0->Reply_0->Error_3 == AgentErrorCode::InvalidRequest
            &&& !request_step(message, state).0->Reply_0->Error_5
        },
{
}

/// The turn that an application runs can be cancelled by its name; a turn that is not running is
/// not found, and a tool never has a result to wait for.
pub proof fn running_turns_can_be_cancelled(message: AgentClientMessage, state: AppView)
    ensures
        message is CancelTurn ==> (request_step(message, state).0 is Cancel <==> state.active is Some
            && state.active->0.id == message->CancelTurn_turn_id@),
        message is CancelTurn && request_step(message, state).0 is Cancel ==> request_step(
            message,
            state,
        ).0->Cancel_2 == message->CancelTurn_turn_id@,
        message is CancelTurn && !(request_step(message, state).0 is Cancel) ==> request_step(
            message,
            state,
        ).0 is Reply && request_step(message, state).0->Reply_0->Error_2 == Some(
            message->CancelTurn_turn_id@,
        ) && request_step(message, state).0->Reply_0->Error_3 == AgentErrorCode::TurnNotFound,
        message is ToolResult ==> request_step(message, state).0 is Reply && request_step(
            message,
            state,
        ).0->Reply_0->Error_2 == Some(message->ToolResult_turn_id@) && request_step(
            message,
            state,
        ).0->Reply_0->Error_3 == AgentErrorCode::ToolNotPending,
        request_step(message, state).0 is Cancel ==> message is CancelTurn,
{
}

/// The profile changes only between turns. The one that is already in use keeps the backend; any
/// other request to reload shuts the backend down, and it is no longer recorded.
pub proof fn profiles_change_between_turns(message: AgentClientMessage, state: AppView)
    requires
        message is ReloadProfile,
    ensures
        state.active is Some ==> request_step(message, state).1 is None && request_step(
            message,
            state,
        ).0 is Reply && request_step(message, state).0->Reply_0->Error_3 == AgentErrorCode::Busy
            && request_step(message, state).0->Reply_0->Error_5,
        state.active is None ==> request_step(message, state).0 is SendStatus && request_step(
            message,
            state,
        ).1 is Some,
        state.active is None && message->ReloadProfile_profile is Some
            && message->ReloadProfile_profile->0@ == state.profile->0 && state.profile is Some ==> {
            &&& request_step(message, state).0->SendStatus_2 is None
            &&& request_step(message, state).1 == Some(state)
        },
        state.active is None && message->ReloadProfile_profile is Some && state.profile != Some(
            message->ReloadProfile_profile->0@,
        ) ==> {
            &&& request_step(message, state).0->SendStatus_2 == state.worker
            &&& request_step(message, state).1->0.worker is None
            &&& request_step(message, state).1->0.profile == Some(
                message->ReloadProfile_profile->0@,
            )
            &&& request_step(message, state).1->0.system_prompt == state.system_prompt
            &&& request_step(message, state).1->0.principals == state.principals
            &&& request_step(message, state).1->0.active is None
        },
        state.active is None && message->ReloadProfile_profile is None ==> {
            &&& request_step(message, state).0->SendStatus_2 == state.worker
            &&& request_step(message, state).1->0.worker is None
            &&& request_step(message, state).1->0.profile == state.profile
        },
{
}

/// A session is reset only between turns and only where there is a backend; the status asks for
/// nothing to be shut down.
pub proof fn sessions_are_reset_between_turns(message: AgentClientMessage, state: AppView)
    ensures
        message is NewSession && state.active is Some ==> request_step(message, state).0 is Reply
            && request_step(message, state).0->Reply_0->Error_3 == AgentErrorCode::Busy,
        message is NewSession && state.active is None && state.worker is Some ==> request_step(
            message,
            state,
        ).0 == StepView::ResetSession(message.id(), message.app(), state.worker->0),
        message is NewSession && state.active is None && state.worker is None ==> request_step(
            message,
            state,
        ).0 == StepView::SendStatus(message.id(), message.app(), None),
        message is Status ==> request_step(message, state).0 == StepView::SendStatus(
            message.id(),
            message.app(),
            None,
        ),
        request_step(message, state).1 is Some ==> message is ReloadProfile,
{
}

/// A turn that does not start says why: there is no runtime, or another turn is under way.
pub proof fn refused_starts_say_why()
    ensures
        start_complaint(AgentErrorCode::Unavailable) == "Pi runtime is not installed"@,
        start_complaint(AgentErrorCode::Busy) == "this application already has an active turn"@,
        start_complaint(AgentErrorCode::Unavailable) != start_complaint(AgentErrorCode::Busy),
{
    reveal_strlit("Pi runtime is not installed");
    reveal_strlit("this application already has an active turn");
    assert("Pi runtime is not installed"@[0] == 'P');
    assert("this application already has an active turn"@[0] == 't');
}

} // verus!
