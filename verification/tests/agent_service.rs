use remagic::agent::config::FileFacts;
use remagic::agent::protocol::{
    AgentErrorCode, AgentEvent, AgentLane, AgentProfile, AgentRuntimeSource,
};
use remagic::agent::requests::{
    cancel_connection_turn, dispatch, start_turn, turn_ended, AgentClientMessage, RequestStep,
    StartArguments,
};
use remagic::agent::server::{
    cgroup_contains_unit, listen_step, peer_identity, pin_application, principal_unit,
    process_environment, resolve_pi_binary, run_step, systemd_socket_available, validate_message,
    ListenStep, ServerEvent, ServerStep, SocketPath,
};
use remagic::agent::state::{
    pi_available, runtime_source, AgentState, ClientIdentity, PreemptStep, RuntimeFiles, StartStep,
    LEGACY_PI, PACKAGED_PI,
};
use remagic::path::FilePath;
use remagic::{AppId, DeviceProduct, DeviceProfile};

fn fixture() -> (AgentState, AppId) {
    (
        AgentState::new(
            DeviceProfile::for_product(DeviceProduct::PaperPro, "test"),
            FilePath::new("/tmp/remagic-agentd-pi"),
        ),
        AppId::new("magicpaper").unwrap(),
    )
}

fn profile() -> AgentProfile {
    AgentProfile {
        provider: "deepseek".into(),
        model: "deepseek-v4-flash".into(),
        thinking: "off".into(),
        tools: false,
    }
}

fn identity(app: &AppId, generation: u64, principal: &str) -> ClientIdentity {
    ClientIdentity {
        app_id: app.clone(),
        generation,
        principal: principal.into(),
    }
}

fn ask(state: &mut AgentState, app: &AppId, lane: AgentLane) -> StartStep {
    state.start(app, &profile(), "system", lane, true, false)
}

fn begin(
    state: &mut AgentState,
    app: &AppId,
    request: &str,
    lane: AgentLane,
    principal: &str,
) -> Result<String, AgentErrorCode> {
    match ask(state, app, lane) {
        StartStep::Refused(code) => Err(code),
        StartStep::Preempt(_) => Err(AgentErrorCode::Busy),
        StartStep::Spawn { .. } | StartStep::Reuse(_) => Ok(state
            .claim(
                app,
                request,
                profile(),
                "system".into(),
                lane,
                principal.into(),
                1,
            )
            .unwrap()),
    }
}

#[test]
fn status_exposes_runtime_source_and_provider_configuration() {
    let (mut state, app) = fixture();
    let status = state.status(&app, true, false);
    assert!(status.available);
    assert_eq!(status.runtime_source, AgentRuntimeSource::Override);
    assert!(!status.provider_configured);
    state.reload_profile(&app, Some(profile())).unwrap();
    assert_eq!(state.provider(&app).as_deref(), Some("deepseek"));
    assert!(!state.status(&app, true, false).provider_configured);
}

#[test]
fn new_session_is_idempotent_before_the_first_worker_exists() {
    let (mut state, app) = fixture();
    assert_eq!(state.new_session(&app), Ok(None));
    state.reload_profile(&app, Some(profile())).unwrap();
    assert_eq!(state.new_session(&app), Ok(None));
}

#[test]
fn checking_an_unchanged_profile_preserves_the_warm_worker() {
    let (mut state, app) = fixture();
    let turn = begin(&mut state, &app, "r1", AgentLane::Interactive, "foreground").unwrap();
    state.finish(&app, &turn);
    assert_eq!(state.new_session(&app), Ok(Some(1)));
    assert_eq!(state.reload_profile(&app, Some(profile())), Ok(None));
    assert_eq!(state.new_session(&app), Ok(Some(1)));
    let mut other = profile();
    other.model = "deepseek-chat".into();
    assert_eq!(state.reload_profile(&app, Some(other)), Ok(Some(1)));
}

#[test]
fn each_application_has_an_independent_turn_slot() {
    let (mut state, first) = fixture();
    let second = AppId::new("other-app").unwrap();
    let turn = begin(&mut state, &first, "r1", AgentLane::Interactive, "foreground").unwrap();
    assert_eq!(
        begin(&mut state, &first, "r2", AgentLane::Interactive, "foreground").unwrap_err(),
        AgentErrorCode::Busy
    );
    assert!(begin(&mut state, &second, "r3", AgentLane::Interactive, "foreground").is_ok());
    assert!(state.cancel(&first, &turn));
    state.finish(&first, &turn);
    assert!(!state.status(&first, true, false).busy);
}

#[test]
fn concurrent_starts_cannot_both_claim_one_application_slot() {
    let (mut state, app) = fixture();
    let lane = AgentLane::Scheduled;
    assert!(matches!(
        ask(&mut state, &app, lane),
        StartStep::Spawn { .. }
    ));
    assert!(matches!(
        ask(&mut state, &app, lane),
        StartStep::Spawn { .. }
    ));
    let mut claim = |request: &str| {
        state.claim(
            &app,
            request,
            profile(),
            "system".into(),
            lane,
            "background".into(),
            1,
        )
    };
    let first = claim("r1");
    let second = claim("r2");
    assert_eq!(
        usize::from(first.is_some()) + usize::from(second.is_some()),
        1
    );
    state.finish(&app, &first.unwrap());
}

#[test]
fn token_is_bound_to_cgroup_identity_and_generation() {
    let (mut state, app) = fixture();
    let first = identity(&app, 7, "foreground");
    let token = "a".repeat(64);
    assert!(state.authorize(&first, &app, &token));
    assert!(!state.authorize(&first, &app, &"b".repeat(64)));
    let other = AppId::new("other-app").unwrap();
    assert!(!state.authorize(&first, &other, &token));
    let stale = identity(&app, 6, "foreground");
    assert!(!state.authorize(&stale, &app, &token));
    let next = identity(&app, 8, "foreground");
    assert!(state.authorize(&next, &app, &"c".repeat(64)));
}

#[test]
fn foreground_and_background_principals_authenticate_independently() {
    let (mut state, app) = fixture();
    let foreground = identity(&app, 11, "foreground");
    let background = identity(&app, 12, "background");
    let foreground_token = "a".repeat(64);
    let background_token = "b".repeat(64);
    assert!(state.authorize(&foreground, &app, &foreground_token));
    assert!(state.authorize(&background, &app, &background_token));
    assert!(!state.authorize(&foreground, &app, &background_token));
    assert!(!state.authorize(&background, &app, &foreground_token));
}

#[test]
fn interactive_preempts_scheduled_but_scheduled_cannot_preempt_interactive() {
    let (mut state, app) = fixture();
    let scheduled = begin(
        &mut state,
        &app,
        "scheduled",
        AgentLane::Scheduled,
        "background",
    )
    .unwrap();
    assert_eq!(
        ask(&mut state, &app, AgentLane::Interactive),
        StartStep::Preempt(scheduled.clone())
    );
    assert_eq!(state.preempt_step(&app, 0), PreemptStep::Wait);
    assert!(matches!(
        state.preempt_step(&app, 60_000),
        PreemptStep::Refused(_)
    ));
    state.finish(&app, &scheduled);
    assert_eq!(state.preempt_step(&app, 0), PreemptStep::Ended);
    let interactive = begin(
        &mut state,
        &app,
        "interactive",
        AgentLane::Interactive,
        "foreground",
    )
    .unwrap();
    assert_eq!(
        begin(
            &mut state,
            &app,
            "late-scheduled",
            AgentLane::Scheduled,
            "background"
        )
        .unwrap_err(),
        AgentErrorCode::Busy
    );
    state.finish(&app, &interactive);
}

#[test]
fn interactive_also_preempts_speculative_work() {
    let (mut state, app) = fixture();
    let speculative = begin(
        &mut state,
        &app,
        "speculative",
        AgentLane::Speculative,
        "background",
    )
    .unwrap();
    assert_eq!(
        ask(&mut state, &app, AgentLane::Interactive),
        StartStep::Preempt(speculative.clone())
    );
    state.finish(&app, &speculative);
    let interactive = begin(
        &mut state,
        &app,
        "interactive",
        AgentLane::Interactive,
        "foreground",
    )
    .unwrap();
    state.finish(&app, &interactive);
}

#[test]
fn disconnect_cancels_only_an_owned_active_turn() {
    let (mut state, app) = fixture();
    let started = begin(&mut state, &app, "r1", AgentLane::Interactive, "foreground").unwrap();
    let mut owned = Some((app.clone(), started.clone()));
    let cancelled = cancel_connection_turn(&state, &mut owned).unwrap();
    assert_eq!(cancelled, (app.clone(), started.clone()));
    assert!(owned.is_none());
    state.finish(&app, &started);
    assert!(cancel_connection_turn(&state, &mut owned).is_none());
    let mut ended = Some((app, started));
    assert!(cancel_connection_turn(&state, &mut ended).is_none());
}

#[test]
fn managed_environment_fields_are_nul_delimited() {
    let environment = b"A=x\0REMAGIC_APP_ID=magicpaper\0REMAGIC_APP_GENERATION=17\0";
    assert_eq!(
        process_environment(environment, "REMAGIC_APP_ID").as_deref(),
        Some("magicpaper")
    );
    assert!(process_environment(environment, "MISSING").is_none());
}

#[test]
fn foreground_and_background_units_are_distinct() {
    let app = AppId::new("magicpaper").unwrap();
    assert_eq!(
        principal_unit(&app, "foreground").as_deref(),
        Some("remagic-app@magicpaper.service")
    );
    assert_eq!(
        principal_unit(&app, "background").as_deref(),
        Some("remagic-background-magicpaper.service")
    );
    assert!(principal_unit(&app, "unknown").is_none());
}

#[test]
fn cgroup_unit_match_requires_an_exact_path_component() {
    let cgroup = "0::/system.slice/remagic-app@magicpaper.service\n";
    assert!(cgroup_contains_unit(
        cgroup,
        "remagic-app@magicpaper.service"
    ));
    assert!(!cgroup_contains_unit(cgroup, "remagic-app@magic.service"));
    assert!(!cgroup_contains_unit(
        "0::/system.slice/remagic-app@magicpaper.service-shadow\n",
        "remagic-app@magicpaper.service"
    ));
}

#[test]
fn clients_are_known_by_their_environment_and_unit() {
    let environment =
        b"REMAGIC_APP_ID=magicpaper\0REMAGIC_APP_GENERATION=17\0REMAGIC_AGENT_PRINCIPAL=foreground\0";
    let cgroup = "0::/system.slice/remagic-app@magicpaper.service\n";
    let known = |same_user: bool, cgroup: &str| {
        peer_identity(same_user, Some(environment.to_vec()), Some(cgroup.into()))
    };
    let app = AppId::new("magicpaper").unwrap();
    assert_eq!(known(true, cgroup), Some(identity(&app, 17, "foreground")));
    assert!(known(false, cgroup).is_none());
    assert!(known(true, "0::/user.slice\n").is_none());
    assert!(peer_identity(true, None, None).is_none());
}

#[test]
fn the_backend_program_is_known_by_its_place() {
    assert_eq!(
        runtime_source(&FilePath::new(PACKAGED_PI), true),
        AgentRuntimeSource::Packaged
    );
    assert_eq!(
        runtime_source(&FilePath::new(LEGACY_PI), true),
        AgentRuntimeSource::Legacy
    );
    assert_eq!(
        runtime_source(&FilePath::new("/x/pi"), true),
        AgentRuntimeSource::Override
    );
    assert_eq!(
        runtime_source(&FilePath::new("/x/pi"), false),
        AgentRuntimeSource::Missing
    );
    assert_eq!(
        resolve_pi_binary(Some("/x/pi".into())),
        FilePath::new("/x/pi")
    );
    let file = FileFacts {
        symlink: false,
        regular: true,
        owner: 0,
        mode: 0o755,
    };
    let files = RuntimeFiles {
        program: Some(file),
        target: Some(file),
        node: Some(file),
        settings: Some(file),
    };
    assert!(pi_available(&FilePath::new("/x/pi"), &files, 0));
    let missing = RuntimeFiles {
        program: None,
        target: None,
        node: None,
        settings: None,
    };
    assert!(!pi_available(&FilePath::new("/x/pi"), &missing, 0));
    assert!(!pi_available(&FilePath::new(PACKAGED_PI), &missing, 0));
}

#[test]
fn sockets_of_the_service_manager_are_used_when_they_are_meant_for_this_process() {
    assert!(systemd_socket_available(
        Some("42".into()),
        Some("1".into()),
        42
    ));
    assert!(!systemd_socket_available(
        Some("41".into()),
        Some("1".into()),
        42
    ));
    assert!(!systemd_socket_available(None, None, 42));
    assert_eq!(
        listen_step(true, SocketPath::Other),
        ListenStep::UseActivated
    );
    assert_eq!(
        listen_step(false, SocketPath::Socket),
        ListenStep::RemoveAndBind
    );
    assert_eq!(listen_step(false, SocketPath::Free), ListenStep::Bind);
    assert_eq!(listen_step(false, SocketPath::Other), ListenStep::Refuse);
}

#[test]
fn the_service_ends_when_nobody_needs_it() {
    let quiet = |clients: usize, idle_secs: u64| run_step(ServerEvent::Quiet { clients, idle_secs });
    assert!(matches!(quiet(0, 600), ServerStep::Exit));
    assert!(matches!(quiet(1, 600), ServerStep::Wait));
    assert!(matches!(quiet(0, 59), ServerStep::Wait));
    assert!(matches!(
        run_step(ServerEvent::Accepted(None)),
        ServerStep::Reject
    ));
    assert!(matches!(run_step(ServerEvent::Failed), ServerStep::Fail));
    let app = AppId::new("magicpaper").unwrap();
    let known = ServerEvent::Accepted(Some(identity(&app, 1, "foreground")));
    assert!(matches!(run_step(known), ServerStep::Serve(_)));
}

fn status_message(app: &AppId, token: &str) -> AgentClientMessage {
    AgentClientMessage::Status {
        request_id: "q1".into(),
        app_id: app.clone(),
        client_token: token.into(),
    }
}

#[test]
fn unauthorized_messages_are_refused() {
    let (mut state, app) = fixture();
    let who = identity(&app, 3, "foreground");
    let token = "a".repeat(64);
    let message = status_message(&app, &token);
    assert!(validate_message(&message, Ok(()), &mut state, &who).is_none());
    let forged = status_message(&app, &"b".repeat(64));
    assert!(matches!(
        validate_message(&forged, Ok(()), &mut state, &who),
        Some(AgentEvent::Error { .. })
    ));
    assert!(matches!(
        validate_message(&message, Err("bad form".into()), &mut state, &who),
        Some(AgentEvent::Error {
            code: AgentErrorCode::InvalidRequest,
            ..
        })
    ));
}

#[test]
fn a_connection_speaks_for_one_application() {
    let app = AppId::new("magicpaper").unwrap();
    let other = AppId::new("other-app").unwrap();
    let mut pinned = None;
    assert!(pin_application(&mut pinned, &status_message(&app, "t")).is_none());
    assert_eq!(pinned, Some(app.clone()));
    assert!(pin_application(&mut pinned, &status_message(&app, "t")).is_none());
    assert!(pin_application(&mut pinned, &status_message(&other, "t")).is_some());
    assert_eq!(pinned, Some(app));
}

fn start_arguments(app: &AppId, request: &str) -> StartArguments {
    StartArguments {
        request_id: request.into(),
        app_id: app.clone(),
        profile: profile(),
        lane: AgentLane::Interactive,
        system_prompt: "system".into(),
        input: "hello".into(),
        history: Vec::new(),
    }
}

#[test]
fn requests_are_answered_or_turned_into_work() {
    let (mut state, app) = fixture();
    assert!(matches!(
        dispatch(status_message(&app, "t"), &mut state),
        RequestStep::SendStatus { shutdown: None, .. }
    ));
    let cancel = AgentClientMessage::CancelTurn {
        request_id: "q2".into(),
        app_id: app.clone(),
        client_token: "t".into(),
        turn_id: "magicpaper:r1".into(),
    };
    assert!(matches!(
        dispatch(cancel, &mut state),
        RequestStep::Reply(AgentEvent::Error {
            code: AgentErrorCode::TurnNotFound,
            ..
        })
    ));
    let result = AgentClientMessage::ToolResult {
        request_id: "q3".into(),
        app_id: app.clone(),
        client_token: "t".into(),
        turn_id: "magicpaper:r1".into(),
    };
    assert!(matches!(
        dispatch(result, &mut state),
        RequestStep::Reply(AgentEvent::Error {
            code: AgentErrorCode::ToolNotPending,
            ..
        })
    ));
    let who = identity(&app, 1, "foreground");
    let mut connection = None;
    let (event, started) = start_turn(
        &mut state,
        &who,
        &mut connection,
        &start_arguments(&app, "r1"),
        Ok(4),
    );
    assert!(matches!(event, AgentEvent::Accepted { .. }));
    let turn_id = started.unwrap();
    assert_eq!(turn_id, "magicpaper:r1");
    assert_eq!(connection, Some((app.clone(), turn_id.clone())));
    let (event, started) = start_turn(
        &mut state,
        &who,
        &mut connection,
        &start_arguments(&app, "r2"),
        Ok(4),
    );
    assert!(matches!(
        event,
        AgentEvent::Error {
            code: AgentErrorCode::Busy,
            ..
        }
    ));
    assert!(started.is_none());
    let ended = turn_ended(
        &mut state,
        &mut connection,
        "r1",
        &app,
        &turn_id,
        Some("lost".into()),
    );
    assert!(matches!(
        ended,
        Some(AgentEvent::Error {
            code: AgentErrorCode::BackendFailed,
            ..
        })
    ));
    assert!(connection.is_none());
    assert!(!state.status(&app, true, true).busy);
}
