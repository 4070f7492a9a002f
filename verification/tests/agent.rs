use remagic::agent::config::{
    app_data_root, configure_tools, configured_command, models_config, private_secret_file,
    provider_configured, provider_entry, provider_secret, provider_secret_from,
    remove_owned_config, secure_packaged_file, secure_regular_file, valid_base_url,
    valid_secret_value, FileFacts, FoundConfig, ModelsConfig, ProviderSecret, SecretFile,
    MAX_PROVIDER_FILE_BYTES, SAFE_TOOLS_EXTENSION,
};
use remagic::agent::events::{
    assistant_text, process_line, response_matches, rpc_error, streaming_text_delta,
    update_candidate, AbortProgress, LineOutcome, MAX_PUBLISHED_OUTPUT,
};
use remagic::agent::protocol::{
    AgentErrorCode, AgentEvent, AgentHistoryTurn, AgentProfile, TurnInput,
};
use remagic::agent::wire::{LineBuffer, LineFeed, MAX_RPC_LINE_BYTES, RPC_LINE_TOO_LONG};
use remagic::agent::worker::{
    abort_id, abort_turn, command_line, compose_prompt, prompt_line, retries_spawn, wait_response,
    AbortEvent, ResponseEvent, TurnProgress, TurnRun, TurnStep, WorkerSession,
};
use remagic::path::FilePath;
use remagic::AppId;

fn json(text: &str) -> serde_json::Value {
    serde_json::from_str(text).unwrap()
}

fn profile(tools: bool) -> AgentProfile {
    AgentProfile {
        provider: "deepseek".into(),
        model: "deepseek-chat".into(),
        thinking: "off".into(),
        tools,
    }
}

fn turn(request_id: &str, input: &str) -> TurnInput {
    TurnInput {
        request_id: request_id.into(),
        app_id: AppId::new("magicpaper").unwrap(),
        turn_id: format!("magicpaper:{request_id}"),
        input: input.into(),
        history: Vec::new(),
    }
}

fn facts(mode: u32) -> FileFacts {
    FileFacts {
        symlink: false,
        regular: true,
        owner: 1000,
        mode,
    }
}

const EXTENSION: &str = "/tmp/remagic-tools.js";

#[test]
fn tools_off_disables_every_pi_tool_source() {
    let mut arguments = Vec::new();
    configure_tools(
        &mut arguments,
        &profile(false),
        &FilePath::new(EXTENSION),
        true,
    )
    .unwrap();
    assert_eq!(arguments, ["--no-tools", "--no-extensions"]);
}

#[test]
fn tools_on_loads_only_the_fixed_safe_extension() {
    let mut arguments = Vec::new();
    configure_tools(
        &mut arguments,
        &profile(true),
        &FilePath::new(EXTENSION),
        true,
    )
    .unwrap();
    assert_eq!(
        arguments,
        [
            "--no-builtin-tools",
            "--no-extensions",
            "--extension",
            EXTENSION,
        ]
    );
}

#[test]
fn tools_on_fails_closed_without_a_safe_extension() {
    let mut arguments = Vec::new();
    assert!(configure_tools(
        &mut arguments,
        &profile(true),
        &FilePath::new("/definitely/missing/remagic-tools.js"),
        secure_regular_file(None, 1000),
    )
    .is_err());
    assert!(arguments.is_empty());
}

#[test]
fn provider_secret_permissions_are_private() {
    assert!(private_secret_file(
        Some(facts(0o600)),
        Some(facts(0o600)),
        1000
    ));
    assert!(!private_secret_file(
        Some(facts(0o640)),
        Some(facts(0o640)),
        1000
    ));
}

#[test]
fn controlled_base_url_never_writes_the_api_key_to_models_json() {
    let secret = provider_secret_from(
        "DEEPSEEK_API_KEY=secret-value\nBASE_URL=https://proxy.example/v1\n",
        "DEEPSEEK_API_KEY",
    )
    .unwrap()
    .unwrap();
    let ModelsConfig::Write(bytes) = models_config("deepseek", Some(&secret)) else {
        panic!("no models file");
    };
    let models = String::from_utf8(bytes).unwrap();
    assert!(models.contains("https://proxy.example/v1"));
    assert!(models.contains("$DEEPSEEK_API_KEY"));
    assert!(!models.contains("secret-value"));
}

#[test]
fn unsafe_provider_base_url_is_rejected() {
    assert!(provider_secret_from(
        "DEEPSEEK_API_KEY=secret-value\nBASE_URL=file:///etc/passwd\n",
        "DEEPSEEK_API_KEY"
    )
    .is_err());
}

#[test]
fn oversized_provider_configuration_is_rejected_before_parsing() {
    let text = "x".repeat(MAX_PROVIDER_FILE_BYTES + 1);
    let Err(error) = provider_secret_from(&text, "DEEPSEEK_API_KEY") else {
        panic!("oversized provider configuration was accepted");
    };
    assert!(error.contains("64 KiB"));
}

#[test]
fn assistant_content_excludes_reasoning() {
    let event = json(
        r#"{"message": {"role":"assistant", "content":[
        {"type":"thinking", "thinking":"secret"},
        {"type":"text", "text":"paper answer"}
    ]}}"#,
    );
    assert_eq!(assistant_text(&event).as_deref(), Some("paper answer"));
}

#[test]
fn official_rpc_streaming_delta_is_available_as_a_fallback() {
    let event = json(
        r#"{
        "type": "message_update",
        "message": {"role":"assistant", "content":[{"type":"text", "text":"Hello"}]},
        "assistantMessageEvent": {"type":"text_delta", "contentIndex":0, "delta":"lo"}
    }"#,
    );
    assert_eq!(streaming_text_delta(&event), Some("lo"));
}

#[test]
fn response_requires_matching_id_command_and_success_is_separate() {
    let response = json(r#"{"id":"t1","type":"response","command":"prompt","success":true}"#);
    assert!(response_matches(&response, "t1", "prompt"));
    assert!(!response_matches(&response, "t2", "prompt"));
}

fn feed_turn(session: &mut WorkerSession, turn: TurnInput, lines: &[&str]) -> Vec<AgentEvent> {
    let mut run = TurnRun::new(turn);
    let mut all = Vec::new();
    for line in lines {
        let (events, step) = session.run_turn(&mut run, TurnProgress::Line(line.to_string()));
        all.extend(events);
        if step != TurnStep::Continue {
            assert_eq!(step, TurnStep::Finish { keep_running: true });
        }
    }
    all
}

#[test]
fn one_worker_handles_multiple_rpc_turns_and_new_session() {
    let mut session = WorkerSession::new();
    let expected_answers = [("r1", "first"), ("r2", "second")];
    for (request_id, expected) in expected_answers {
        let turn = turn(request_id, "hello");
        assert!(session.turn_line(&turn).is_some());
        let response = format!(
            r#"{{"id":"magicpaper:{request_id}","type":"response","command":"prompt","success":true}}"#
        );
        let update = format!(
            r#"{{"type":"message_update","message":{{"role":"assistant","content":[{{"type":"text","text":"{expected}"}}]}}}}"#
        );
        let events = feed_turn(
            &mut session,
            turn,
            &[&response, &update, r#"{"type":"agent_end"}"#],
        );
        assert!(matches!(&events[0], AgentEvent::TextDelta { text, .. } if text == expected));
        assert!(matches!(events[1], AgentEvent::Complete { .. }));
    }
    let id = session.new_session_id();
    assert_eq!(id, "new-session:2");
    let reply = r#"{"id":"new-session:2","type":"response","command":"new_session","success":true,"data":{"cancelled":false}}"#;
    let verdict = wait_response(ResponseEvent::Line(reply.to_string()), &id, "new_session");
    assert_eq!(verdict, Some(Ok(())));
    session.advance();
    let mut fresh = turn("r3", "fresh");
    fresh.history = vec![AgentHistoryTurn {
        user: "old-user".into(),
        assistant: "old-assistant".into(),
    }];
    let line = String::from_utf8(session.turn_line(&fresh).unwrap()).unwrap();
    assert!(line.contains("magicpaper:r3"));
    assert!(!line.contains("old-user"));
    let events = feed_turn(
        &mut session,
        fresh,
        &[
            r#"{"id":"magicpaper:r3","type":"response","command":"prompt","success":true}"#,
            r#"{"type":"message_update","message":{"role":"assistant","content":[{"type":"text","text":"clean"}]}}"#,
            r#"{"type":"agent_end"}"#,
        ],
    );
    assert!(matches!(&events[0], AgentEvent::TextDelta { text, .. } if text == "clean"));
}

#[test]
fn local_history_is_hydrated_only_when_requested() {
    let turn = TurnInput {
        request_id: "r1".into(),
        app_id: AppId::new("magicpaper").unwrap(),
        turn_id: "magicpaper:r1".into(),
        input: "current".into(),
        history: vec![AgentHistoryTurn {
            user: "old-user".into(),
            assistant: "old-assistant".into(),
        }],
    };
    assert!(compose_prompt(&turn, true).contains("old-user"));
    assert_eq!(compose_prompt(&turn, false), "User: current");
}

#[test]
fn cumulative_published_output_is_bounded() {
    let mut published = "a".repeat(MAX_PUBLISHED_OUTPUT);
    let event = json(r#"{"assistantMessageEvent": {"type":"text_delta", "delta":"b"}}"#);
    assert!(update_candidate(&event, &mut published).is_err());
    assert_eq!(published.len(), MAX_PUBLISHED_OUTPUT);
}

#[test]
fn a_new_full_assistant_message_replaces_tool_narration() {
    let mut published = "first answer".to_owned();
    let event = json(
        r#"{"message": {"role":"assistant", "content":[{"type":"text", "text":"rewritten"}]}}"#,
    );
    update_candidate(&event, &mut published).unwrap();
    assert_eq!(published, "rewritten");
}

#[test]
fn only_the_post_tool_final_answer_is_published_to_the_application() {
    let turn = turn("r1", "current");
    let mut candidate = "I will search now".to_owned();
    let mut accepted = true;
    let (outcome, events) = process_line(
        r#"{"type":"tool_execution_start"}"#,
        &turn,
        &mut candidate,
        &mut accepted,
    );
    assert!(matches!(outcome, LineOutcome::Continue));
    assert!(events.is_empty());
    assert!(candidate.is_empty());
    process_line(
        r#"{"type":"message_end","message":{"role":"assistant","content":[{"type":"text","text":"最终答案"}]}}"#,
        &turn,
        &mut candidate,
        &mut accepted,
    );
    let (outcome, events) = process_line(
        r#"{"type":"agent_end"}"#,
        &turn,
        &mut candidate,
        &mut accepted,
    );
    assert!(matches!(outcome, LineOutcome::Complete));
    assert!(matches!(&events[0], AgentEvent::TextDelta { text, .. } if text == "最终答案"));
    assert!(matches!(events[1], AgentEvent::Complete { .. }));
}

#[test]
fn cancellation_sends_abort_and_waits_for_response_and_agent_end() {
    let mut session = WorkerSession::new();
    let mut run = TurnRun::new(turn("r1", "hello"));
    let (events, step) = session.run_turn(&mut run, TurnProgress::CancelChanged(true));
    assert!(events.is_empty());
    assert_eq!(step, TurnStep::Abort);
    let abort = abort_id(&run.turn.turn_id);
    assert_eq!(abort, "abort:magicpaper:r1");
    let line = String::from_utf8(command_line(&abort, "abort").unwrap()).unwrap();
    assert_eq!(json(line.trim_end())["id"], "abort:magicpaper:r1");
    let mut progress = AbortProgress::new();
    let started = AbortEvent::Line(r#"{"type":"message_update"}"#.into());
    assert!(abort_turn(&run.turn, &mut progress, started).is_none());
    let response = AbortEvent::Line(
        r#"{"id":"abort:magicpaper:r1","type":"response","command":"abort","success":true}"#.into(),
    );
    assert!(abort_turn(&run.turn, &mut progress, response).is_none());
    let ended = AbortEvent::Line(r#"{"type":"agent_end"}"#.into());
    let (event, keep_running) = abort_turn(&run.turn, &mut progress, ended).unwrap();
    assert!(matches!(
        event,
        AgentEvent::Error {
            code: AgentErrorCode::Cancelled,
            ..
        }
    ));
    assert!(keep_running);
}

fn next_line(input: &mut &[u8], capacity: usize) -> Option<Result<String, String>> {
    let mut buffer = LineBuffer::new();
    loop {
        let available = &input[..input.len().min(capacity)];
        if available.is_empty() {
            if buffer.is_empty() {
                return None;
            }
            return Some(buffer.finish());
        }
        match buffer.feed(available) {
            LineFeed::TooLong => return Some(Err(RPC_LINE_TOO_LONG.to_owned())),
            LineFeed::More => *input = &input[available.len()..],
            LineFeed::Ended(taken) => {
                *input = &input[taken..];
                return Some(buffer.finish());
            }
        }
    }
}

#[test]
fn fragmented_crlf_and_final_unterminated_lines_are_decoded() {
    let mut input: &[u8] = b"{\"one\":1}\r\n{\"two\":2}";
    assert_eq!(
        next_line(&mut input, 3).unwrap().unwrap(),
        "{\"one\":1}"
    );
    assert_eq!(
        next_line(&mut input, 3).unwrap().unwrap(),
        "{\"two\":2}"
    );
    assert!(next_line(&mut input, 3).is_none());
}

#[test]
fn oversized_pi_line_fails_before_allocating_an_unbounded_message() {
    let input = vec![b'x'; MAX_RPC_LINE_BYTES + 1];
    let mut rest = &input[..];
    assert_eq!(
        next_line(&mut rest, 8192),
        Some(Err("Pi RPC line exceeds 1 MiB".to_owned()))
    );
}

#[test]
fn lines_of_any_fragmentation_read_the_same() {
    let text = b"{\"a\":\"\xe6\x9c\x80\"}\nrest\n";
    for capacity in 1..20 {
        let mut input: &[u8] = text;
        assert_eq!(
            next_line(&mut input, capacity).unwrap().unwrap(),
            "{\"a\":\"最\"}"
        );
        assert_eq!(next_line(&mut input, capacity).unwrap().unwrap(), "rest");
        assert!(next_line(&mut input, capacity).is_none());
    }
    let mut broken: &[u8] = b"ok\xff\n";
    assert_eq!(
        next_line(&mut broken, 9),
        Some(Err("invalid utf-8 sequence of 1 bytes from index 2".to_owned()))
    );
}

#[test]
fn provider_files_are_read_line_by_line() {
    let read = |text: &str| provider_secret_from(text, "DEEPSEEK_API_KEY");
    assert_eq!(
        read("# a comment\nOTHER=1\nDEEPSEEK_API_KEY='quoted'\n").unwrap(),
        Some(ProviderSecret {
            key_name: "DEEPSEEK_API_KEY",
            value: "quoted".into(),
            base_url: None,
        })
    );
    assert_eq!(read("OTHER=1\n").unwrap(), None);
    assert_eq!(
        provider_entry("deepseek"),
        Some(("DEEPSEEK_API_KEY", "deepseek.env"))
    );
    assert_eq!(provider_entry("nobody"), None);
    assert!(!provider_configured("nobody", SecretFile::Missing));
    assert!(!provider_configured("deepseek", SecretFile::Missing));
    assert!(provider_configured(
        "deepseek",
        SecretFile::Contents("DEEPSEEK_API_KEY=x\n".into())
    ));
    assert!(provider_secret("deepseek", SecretFile::Unsafe).is_err());
    assert!(provider_secret("deepseek", SecretFile::Unreadable("no".into())).is_err());
    assert!(valid_secret_value("sk-123"));
    assert!(!valid_secret_value(""));
    assert!(!valid_secret_value("a\u{7}b"));
    assert!(valid_base_url("https://proxy.example/v1"));
    assert!(!valid_base_url("file:///etc/passwd"));
}

#[test]
fn model_files_are_written_only_for_an_address_of_ones_own() {
    assert_eq!(models_config("deepseek", None), ModelsConfig::Remove);
    let plain = ProviderSecret {
        key_name: "DEEPSEEK_API_KEY",
        value: "v".into(),
        base_url: None,
    };
    assert_eq!(models_config("deepseek", Some(&plain)), ModelsConfig::Remove);
}

#[test]
fn only_owned_plain_files_are_removed() {
    let path = FilePath::new("/data/models.json");
    assert_eq!(remove_owned_config(&path, FoundConfig::Missing), Ok(false));
    let remove = |file: FileFacts| remove_owned_config(&path, FoundConfig::File(file));
    assert_eq!(remove(facts(0o600)), Ok(true));
    let mut link = facts(0o600);
    link.symlink = true;
    link.regular = false;
    assert!(remove(link).is_err());
    assert!(remove_owned_config(&path, FoundConfig::Failed("io".into())).is_err());
}

#[test]
fn the_backend_runs_in_the_applications_own_directory() {
    let app = AppId::new("magicpaper").unwrap();
    let root = app_data_root(&app);
    let secret = ProviderSecret {
        key_name: "DEEPSEEK_API_KEY",
        value: "v".into(),
        base_url: None,
    };
    let pi = FilePath::new("/opt/pi");
    let command =
        configured_command(&pi, &app, &profile(true), "be brief", true, Ok(Some(secret))).unwrap();
    assert_eq!(command.program, pi);
    assert!(command.working_dir.starts_with(&root));
    assert!(command.arguments.contains(&SAFE_TOOLS_EXTENSION.to_string()));
    assert!(command.arguments.contains(&"be brief".to_string()));
    let key = ("DEEPSEEK_API_KEY", "v".to_string());
    assert!(command.environment.contains(&key));
    assert!(configured_command(&pi, &app, &profile(true), "", false, Ok(None)).is_err());
    assert!(configured_command(&pi, &app, &profile(false), "", false, Err("bad".into())).is_err());
}

#[test]
fn prompts_and_commands_are_single_json_lines() {
    let line = String::from_utf8(prompt_line("magicpaper:r1", "two\nlines".into()).unwrap()).unwrap();
    assert!(line.ends_with('\n'));
    assert_eq!(line.matches('\n').count(), 1);
    let value = json(&line);
    assert_eq!(value["id"], "magicpaper:r1");
    assert_eq!(value["type"], "prompt");
    assert_eq!(value["message"], "two\nlines");
    let command = String::from_utf8(command_line("new-session:0", "new_session").unwrap()).unwrap();
    assert_eq!(json(&command)["type"], "new_session");
}

#[test]
fn only_a_busy_program_is_started_again() {
    assert!(retries_spawn(0, true));
    assert!(!retries_spawn(0, false));
    assert!(!retries_spawn(3, true));
}

#[test]
fn refused_prompts_tell_the_application_why() {
    let turn = turn("r1", "hello");
    let mut candidate = String::new();
    let mut accepted = false;
    let refused =
        r#"{"id":"magicpaper:r1","type":"response","command":"prompt","success":false,"error":"no key"}"#;
    let (outcome, _) = process_line(refused, &turn, &mut candidate, &mut accepted);
    let LineOutcome::Rejected(words) = outcome else {
        panic!("the refusal was not seen");
    };
    assert!(words.contains("no key"));
    assert!(!accepted);
    assert!(rpc_error(&json(refused)).contains("no key"));
    let (outcome, events) =
        process_line(r#"{"type":"agent_end"}"#, &turn, &mut candidate, &mut accepted);
    assert!(!matches!(outcome, LineOutcome::Complete));
    assert!(!events.iter().any(|event| matches!(event, AgentEvent::Complete { .. })));
}

#[test]
fn a_lost_process_is_not_kept() {
    let mut session = WorkerSession::new();
    let mut run = TurnRun::new(turn("r1", "hello"));
    let (events, step) = session.run_turn(&mut run, TurnProgress::Exited);
    assert_eq!(
        step,
        TurnStep::Finish {
            keep_running: false
        }
    );
    assert!(matches!(events[0], AgentEvent::Error { .. }));
    let (_, step) = session.run_turn(&mut run, TurnProgress::ReadFailed("io".into()));
    assert_eq!(
        step,
        TurnStep::Finish {
            keep_running: false
        }
    );
    let timed_out = wait_response(ResponseEvent::TimedOut, "x", "new_session");
    assert!(matches!(timed_out, Some(Err(_))));
}

#[test]
fn packaged_runtime_files_must_not_be_symlinks_or_group_writable() {
    assert!(secure_packaged_file(Some(facts(0o700)), 1000, true));
    assert!(!secure_packaged_file(Some(facts(0o720)), 1000, true));
    let link = FileFacts {
        symlink: true,
        regular: false,
        owner: 1000,
        mode: 0o777,
    };
    assert!(!secure_packaged_file(Some(link), 1000, true));
}
