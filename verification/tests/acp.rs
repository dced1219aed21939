use axum::http::{HeaderMap, HeaderValue};
use sapphire_agent::acp::{
    acp_room, handle_acp_ws, list_sessions, prompt_answer, AcpConfig, AcpConnection, AcpError,
    PromptAnswer, SessionSummary, StopReason, TurnEnd,
};
use sapphire_agent::editor::{
    describe_capabilities, describe_client, effective_cwd, flatten_prompt, fs_caps_from,
    mode_state, prompt_block_kind, prompt_block_read, replay, terminal_cap_from, ClientCapabilities, Implementation,
    ModeLabel, PromptBlock, SessionUpdate,
};
use sapphire_agent::host::{
    permission_answered, permission_options, AcpProgress, Approving, PermissionAnswer, TurnHost,
};
use sapphire_agent::json::{Fields, Json};
use sapphire_agent::message::{ChatMessage, ContentPart, Role, ToolCall};
use sapphire_agent::policy::{Approval, Origin, RoundBudget, SessionMode, ToolKind, ToolRounds};
use sapphire_agent::state::{RoomProfile, ServeState, ServerConfig};
use sapphire_agent::table::Table;
use sapphire_agent::turn::LlmTurnOutcome;
use sapphire_agent::turn_loop::TurnStop;

fn config() -> ServerConfig {
    let mut room_profiles = Table::new();
    room_profiles.insert(
        "developer".to_string(),
        RoomProfile {
            profile: "main".to_string(),
            namespace: "ours".to_string(),
            voice_pipeline: None,
        },
    );
    ServerConfig {
        host_access_enabled: false,
        tool_rounds: ToolRounds::default(),
        room_profiles,
        skill_namespaces: Table::new(),
        default_namespace: "default".to_string(),
        wake_word_model: None,
        voice: None,
    }
}

fn state() -> ServeState {
    ServeState::new(&Vec::new(), 4)
}

fn connect() -> AcpConnection {
    AcpConnection::new("developer".to_string())
}

fn summary(id: &str, namespace: &str, cwd: &str) -> SessionSummary {
    SessionSummary {
        session_id: id.to_string(),
        namespace: namespace.to_string(),
        cwd: cwd.to_string(),
        title: None,
        has_messages: true,
        is_closed: false,
        modified: None,
    }
}

fn caps(read: bool, write: bool, terminal: bool) -> ClientCapabilities {
    ClientCapabilities {
        read_text_file: read,
        write_text_file: write,
        terminal,
    }
}

fn open(connection: &mut AcpConnection, state: &mut ServeState, id: &str) {
    let namespace = connection.begin_session(state, &config(), id);
    assert_eq!(namespace, "ours");
    connection
        .session_created(state, id, "/work".to_string(), Ok(()))
        .unwrap();
}

fn adopt(
    connection: &mut AcpConnection,
    state: &mut ServeState,
    id: &str,
    summary: Option<&SessionSummary>,
) -> Result<(), AcpError> {
    connection.adopt_session(state, &config(), id, "/p".to_string(), summary)
}

fn ids(summaries: &[SessionSummary], cwd: Option<&str>) -> Vec<String> {
    list_sessions(
        &config(),
        "developer",
        &summaries
            .iter()
            .map(|s| SessionSummary {
                session_id: s.session_id.clone(),
                namespace: s.namespace.clone(),
                cwd: s.cwd.clone(),
                title: s.title.clone(),
                has_messages: s.has_messages,
                is_closed: s.is_closed,
                modified: s.modified,
            })
            .collect(),
        cwd,
    )
    .into_iter()
    .map(|i| i.session_id)
    .collect()
}

#[test]
fn fs_caps_from_reads_the_recorded_flags_independently() {
    let read_only = caps(true, false, false);
    assert_eq!(fs_caps_from(&read_only), (true, false));

    let write_only = caps(false, true, false);
    assert_eq!(fs_caps_from(&write_only), (false, true));
}

#[test]
fn terminal_cap_from_reads_the_recorded_flag() {
    assert!(terminal_cap_from(&caps(false, false, true)));
    assert!(!terminal_cap_from(&caps(false, false, false)));
}

#[test]
fn describe_capabilities_names_each_flag_separately() {
    assert_eq!(
        describe_capabilities(&caps(true, false, true)),
        "fs.read=true fs.write=false terminal=true"
    );

    assert_eq!(
        describe_capabilities(&ClientCapabilities::none()),
        "fs.read=false fs.write=false terminal=false"
    );
}

#[test]
fn describe_client_falls_back_when_the_client_says_nothing() {
    assert_eq!(describe_client(None), "an unidentified client");
}

#[test]
fn describe_client_prefers_the_title_over_the_programmatic_name() {
    let bare = Implementation {
        name: "some-editor".to_string(),
        title: None,
        version: "1.2.3".to_string(),
    };
    assert_eq!(describe_client(Some(&bare)), "some-editor 1.2.3");

    let titled = Implementation {
        name: "some-editor".to_string(),
        title: Some("Some Editor".to_string()),
        version: "1.2.3".to_string(),
    };
    assert_eq!(describe_client(Some(&titled)), "Some Editor 1.2.3");
}

#[test]
fn effective_cwd_prefers_the_requested_path_and_falls_back_to_the_session() {
    for (session_cwd, requested) in [
        ("C:\\session\\root", "C:\\model\\chosen"),
        ("/session/root", "/model/chosen"),
    ] {
        assert_eq!(
            effective_cwd(Some(requested), session_cwd),
            requested,
            "an explicit cwd from the model must win"
        );
        assert_eq!(
            effective_cwd(None, session_cwd),
            session_cwd,
            "absent that, the session's cwd is the fallback"
        );
    }
}

fn headers(authorization: Option<&'static str>) -> HeaderMap {
    let mut h = HeaderMap::new();
    if let Some(a) = authorization {
        h.insert("authorization", HeaderValue::from_static(a));
    }
    h
}

#[test]
fn disabled_endpoint_is_not_found() {
    for config in [
        None,
        Some(AcpConfig {
            enabled: false,
            keepalive_secs: 5,
        }),
    ] {
        let refused = handle_acp_ws(config, &headers(Some("Bearer t"))).unwrap_err();
        assert_eq!(refused.status, 404);
        assert_eq!(refused.text, "ACP disabled");
    }
}

#[test]
fn missing_and_unknown_tokens_are_unauthorized() {
    let config = Some(AcpConfig {
        enabled: true,
        keepalive_secs: 0,
    });
    let missing = handle_acp_ws(config, &headers(None)).unwrap_err();
    assert_eq!(missing.status, 401);
    assert_eq!(missing.text, "missing bearer token");
    let unknown = acp_room(None).unwrap_err();
    assert_eq!(unknown.status, 401);
    assert_eq!(unknown.text, "unknown or revoked bearer token");
}

#[test]
fn valid_token_upgrades() {
    let knock = handle_acp_ws(
        Some(AcpConfig {
            enabled: true,
            keepalive_secs: 30,
        }),
        &headers(Some("Bearer t")),
    )
    .unwrap();
    assert_eq!(knock.bearer, "t");
    assert_eq!(knock.keepalive, Some(30));
    assert_eq!(
        acp_room(Some("developer".to_string())),
        Ok("developer".to_string())
    );
}

#[test]
fn initialize_answers_with_v1_capabilities() {
    let mut connection = connect();
    let answer = connection.initialize(caps(true, false, true), 1);
    assert_eq!(answer.protocol_version, 1);
    assert_eq!(connection.client_capabilities, caps(true, false, true));
}

#[test]
fn unsupported_versions_are_negotiated_to_v1() {
    for version in [0, 2, 7] {
        assert_eq!(
            connect()
                .initialize(ClientCapabilities::none(), version)
                .protocol_version,
            1
        );
    }
}

#[test]
fn initialize_advertises_listing() {
    assert!(connect().initialize(ClientCapabilities::none(), 1).list_sessions);
}

#[test]
fn initialize_advertises_loading() {
    assert!(connect().initialize(ClientCapabilities::none(), 1).load_session);
}

#[test]
fn initialize_advertises_resume() {
    assert!(connect().initialize(ClientCapabilities::none(), 1).resume_session);
}

#[test]
fn session_new_returns_a_session_id() {
    let a = AcpConnection::mint_session_id();
    let b = AcpConnection::mint_session_id();
    assert_eq!(a.len(), 36);
    assert_ne!(a, b);
    let mut state = state();
    let mut connection = connect();
    open(&mut connection, &mut state, &a);
    assert!(state.is_acp(&a));
    assert_eq!(state.room_profile(&a), Some("developer".to_string()));
    assert_eq!(state.open_acp_sessions.get(&a), Some(&1));
    assert_eq!(connection.sessions.get(&a).unwrap().cwd, "/work");
}

#[test]
fn a_session_whose_file_cannot_be_made_is_not_held() {
    let mut state = state();
    let mut connection = connect();
    connection.begin_session(&mut state, &config(), "s");
    assert_eq!(
        connection.session_created(
            &mut state,
            "s",
            "/w".to_string(),
            Err("read-only".to_string())
        ),
        Err(AcpError::Internal("read-only".to_string()))
    );
    assert!(!state.is_acp("s"));
    assert!(!connection.sessions.contains_key("s"));
    assert!(!state.open_acp_sessions.contains_key("s"));
}

fn label(name: &str) -> ModeLabel {
    ModeLabel {
        name: name.to_string(),
        description: format!("about {name}"),
    }
}

#[test]
fn session_new_advertises_the_three_modes() {
    let modes = mode_state(&label("Ask"), &label("Edit"), &label("All"));
    assert_eq!(modes.current, "default");
    let ids: Vec<&str> = modes.modes.iter().map(|m| m.id.as_str()).collect();
    assert_eq!(ids, vec!["default", "accept_edits", "bypass"]);
    assert_eq!(modes.modes[2].name, "All");
    assert_eq!(modes.modes[1].description, "about Edit");
}

#[test]
fn set_mode_switches_and_notifies() {
    let mut state = state();
    let mut connection = connect();
    open(&mut connection, &mut state, "s");
    assert_eq!(
        connection.set_mode("s", "bypass"),
        Ok(SessionUpdate::CurrentModeUpdate("bypass".to_string()))
    );
    assert_eq!(
        connection.sessions.get("s").unwrap().mode,
        SessionMode::Bypass
    );
    let turn = connection.begin_prompt("s").unwrap();
    assert_eq!(turn.host.origin(), Origin::Acp(SessionMode::Bypass));
    connection.set_mode("s", "default").unwrap();
    assert_eq!(
        turn.host.origin(),
        Origin::Acp(SessionMode::Bypass),
        "a turn keeps the mode that it started in"
    );
}

#[test]
fn an_unknown_mode_is_invalid_params() {
    let mut state = state();
    let mut connection = connect();
    open(&mut connection, &mut state, "s");
    assert_eq!(
        connection.set_mode("s", "plan"),
        Err(AcpError::InvalidParams("unknown mode 'plan'".to_string()))
    );
    assert_eq!(
        connection.sessions.get("s").unwrap().mode,
        SessionMode::Default
    );
    assert_eq!(
        connection.set_mode("nope", "bypass"),
        Err(AcpError::InvalidParams(
            "unknown session 'nope'".to_string()
        ))
    );
}

#[test]
fn prompt_for_an_unknown_session_is_an_error() {
    let mut connection = connect();
    assert_eq!(
        connection.begin_prompt("never-minted"),
        Err(AcpError::InvalidParams(
            "unknown session 'never-minted'; call session/new first".to_string()
        ))
    );
}

#[test]
fn a_resource_link_reaches_the_model() {
    let text = flatten_prompt(&vec![
        PromptBlock::Text("explain".to_string()),
        PromptBlock::Image,
        PromptBlock::ResourceLink {
            name: "main.rs".to_string(),
            uri: "file:///work/proj/src/main.rs".to_string(),
        },
    ]);
    assert_eq!(
        text,
        "explain\n[referenced resource: main.rs (file:///work/proj/src/main.rs)]"
    );
    assert_eq!(flatten_prompt(&vec![PromptBlock::Audio]), "");
    assert!(prompt_block_read(&PromptBlock::Text(String::new())));
    assert!(!prompt_block_read(&PromptBlock::Resource));
    let kinds: Vec<&str> = [
        PromptBlock::Text(String::new()),
        PromptBlock::Image,
        PromptBlock::Audio,
        PromptBlock::ResourceLink {
            name: String::new(),
            uri: String::new(),
        },
        PromptBlock::Resource,
        PromptBlock::Unknown,
    ]
    .iter()
    .map(prompt_block_kind)
    .collect();
    assert_eq!(
        kinds,
        vec!["text", "image", "audio", "resource_link", "resource", "unknown"]
    );
}

#[test]
fn a_prompt_turn_injects_the_session_cwd_into_the_system_prompt() {
    let mut state = state();
    let mut connection = connect();
    connection.initialize(caps(true, false, true), 1);
    open(&mut connection, &mut state, "s");
    let turn = connection.begin_prompt("s").unwrap();
    assert_eq!(turn.host.cwd(), Some("/work".to_string()));
    assert!(turn.host.has_client());
    assert_eq!(turn.host.client_fs_caps(), (true, false));
    assert!(turn.host.client_terminal_cap());
    assert_eq!(turn.host.round_budget(), RoundBudget::Interactive);
}

#[test]
fn session_cancel_ends_every_turn_on_the_session() {
    let mut state = state();
    let mut connection = connect();
    open(&mut connection, &mut state, "a");
    open(&mut connection, &mut state, "b");
    let first = connection.begin_prompt("a").unwrap().turn;
    let other = connection.begin_prompt("b").unwrap().turn;
    let second = connection.begin_prompt("a").unwrap().turn;
    assert_eq!(connection.cancel("a"), Some(vec![first, second]));
    assert_eq!(connection.cancel("b"), Some(vec![other]));
    assert_eq!(connection.cancel("c"), None);
    connection.end_prompt("a", first);
    connection.end_prompt("a", other);
    assert_eq!(connection.cancel("a"), Some(vec![second]));
    assert_eq!(connection.cancel("b"), Some(vec![other]));
    connection.end_prompt("a", second);
    assert_eq!(connection.cancel("a"), Some(Vec::new()));
}

fn ran(text: Option<&str>, stop: TurnStop) -> TurnEnd {
    TurnEnd::Ran(LlmTurnOutcome {
        text: text.map(|t| t.to_string()),
        was_first_turn: false,
        stop,
    })
}

fn failed() -> TurnEnd {
    ran(
        None,
        TurnStop::ProviderError {
            message: "x".to_string(),
        },
    )
}

fn exhausted() -> TurnEnd {
    ran(
        None,
        TurnStop::BudgetExhausted {
            partial_text: String::new(),
        },
    )
}

#[test]
fn session_cancel_ends_the_turn_with_cancelled() {
    let cancelled = PromptAnswer::Stop(StopReason::Cancelled);
    assert_eq!(prompt_answer(TurnEnd::Cancelled, true, None), cancelled);
    assert_eq!(
        prompt_answer(failed(), true, Some("x".to_string())),
        cancelled
    );
    assert_eq!(prompt_answer(exhausted(), true, None), cancelled);
}

#[test]
fn a_configured_budget_ends_the_turn_with_max_turn_requests() {
    assert_eq!(
        prompt_answer(exhausted(), false, None),
        PromptAnswer::Stop(StopReason::MaxTurnRequests)
    );
}

#[test]
fn prompt_answers_with_one_chunk_and_ends_the_turn() {
    assert_eq!(
        prompt_answer(
            ran(Some("hello from the agent"), TurnStop::Replied),
            false,
            None
        ),
        PromptAnswer::Stop(StopReason::EndTurn)
    );
}

#[test]
fn a_failed_turn_is_an_error_with_its_cause() {
    assert_eq!(
        prompt_answer(failed(), false, Some("no credit".to_string())),
        PromptAnswer::InternalError("no credit".to_string())
    );
    assert_eq!(
        prompt_answer(failed(), false, None),
        PromptAnswer::InternalError("the turn produced no reply".to_string())
    );
}

#[test]
fn an_empty_session_is_not_listed() {
    let mut empty = summary("empty", "ours", "/p");
    empty.has_messages = false;
    assert!(ids(&[empty], None).is_empty());
}

#[test]
fn list_only_returns_this_namespaces_sessions() {
    let all = [
        summary("mine", "ours", "/p"),
        summary("theirs", "someone-else", "/p"),
    ];
    assert_eq!(ids(&all, None), vec!["mine"]);
}

#[test]
fn list_omits_closed_sessions() {
    let mut closed = summary("closed", "ours", "/p");
    closed.is_closed = true;
    assert_eq!(
        ids(&[summary("open", "ours", "/p"), closed], None),
        vec!["open"]
    );
}

#[test]
fn list_honours_the_cwd_filter() {
    let all = [
        summary("here", "ours", "/projects/here"),
        summary("elsewhere", "ours", "/projects/elsewhere"),
    ];
    assert_eq!(ids(&all, Some("/projects/here")), vec!["here"]);
    assert_eq!(ids(&all, None), vec!["here", "elsewhere"]);
}

#[test]
fn a_listing_tells_title_and_time() {
    let mut s = summary("s", "ours", "/p");
    s.title = Some("T".to_string());
    s.modified = Some((1_431_648_000, 500_000_000));
    let mut out_of_range = summary("o", "ours", "/p");
    out_of_range.modified = Some((i64::MAX, 0));
    let infos = list_sessions(&config(), "developer", &vec![s, out_of_range], None);
    assert_eq!(infos[0].title, Some("T".to_string()));
    assert_eq!(
        infos[0].updated_at,
        Some("2015-05-15T00:00:00.500+00:00".to_string())
    );
    assert_eq!(infos[0].cwd, "/p");
    assert_eq!(infos[1].updated_at, None);
}

#[test]
fn what_is_listed_can_be_taken_up() {
    let mut closed = summary("closed", "ours", "/p");
    closed.is_closed = true;
    let all = vec![
        summary("a", "ours", "/p"),
        closed,
        summary("b", "theirs", "/p"),
        summary("c", "ours", "/q"),
    ];
    let mut state = state();
    let mut connection = connect();
    let listed = ids(&all, None);
    assert_eq!(listed, vec!["a", "c"]);
    for s in &all {
        let taken = adopt(&mut connection, &mut state, &s.session_id, Some(s)).is_ok();
        assert_eq!(taken, listed.contains(&s.session_id));
    }
}

#[test]
fn load_replays_the_conversation_before_replying() {
    let updates = replay(&vec![
        ChatMessage::user("first question"),
        ChatMessage::assistant_with_tools(
            None,
            vec![ToolCall {
                id: "c".to_string(),
                name: "n".to_string(),
                input: Json::Null,
            }],
        ),
        ChatMessage::tool_results_with_images(
            vec![("c".to_string(), "out".to_string())],
            Vec::new(),
        ),
        ChatMessage {
            role: Role::Assistant,
            parts: vec![
                ContentPart::Text("one".to_string()),
                ContentPart::Text("two".to_string()),
            ],
            input_kind: None,
            user_id: None,
        },
    ]);
    assert_eq!(
        updates,
        vec![
            SessionUpdate::UserMessageChunk("first question".to_string()),
            SessionUpdate::AgentMessageChunk("one\ntwo".to_string()),
        ]
    );
}

fn refusal() -> AcpError {
    AcpError::InvalidParams("no such session is available on this connection".to_string())
}

#[test]
fn load_refuses_another_namespaces_session() {
    let mut state = state();
    let theirs = summary("theirs", "someone-else", "/p");
    assert_eq!(
        adopt(&mut connect(), &mut state, "theirs", Some(&theirs)),
        Err(refusal())
    );
    assert!(!state.is_acp("theirs"));
    assert_eq!(state.room_profile("theirs"), None);
}

#[test]
fn an_unknown_and_a_forbidden_session_look_the_same() {
    let mut state = state();
    let theirs = summary("theirs", "someone-else", "/p");
    let forbidden = adopt(&mut connect(), &mut state, "theirs", Some(&theirs));
    let unknown = adopt(&mut connect(), &mut state, "unknown", None);
    assert_eq!(forbidden, unknown);
}

#[test]
fn load_refuses_a_closed_session() {
    let mut closed = summary("closed", "ours", "/p");
    closed.is_closed = true;
    assert_eq!(
        adopt(&mut connect(), &mut state(), "closed", Some(&closed)),
        Err(refusal())
    );
}

#[test]
fn opening_a_session_twice_is_counted() {
    let mut state = state();
    let mut first = connect();
    let mut second = connect();
    let s = summary("s", "ours", "/p");
    adopt(&mut first, &mut state, "s", Some(&s)).unwrap();
    assert_eq!(state.open_acp_sessions.get("s"), Some(&1));
    adopt(&mut second, &mut state, "s", Some(&s)).unwrap();
    assert_eq!(state.open_acp_sessions.get("s"), Some(&2));
    first.close(&mut state);
    assert_eq!(state.open_acp_sessions.get("s"), Some(&1));
}

#[test]
fn readopting_a_session_on_the_same_connection_is_not_double_counted() {
    let mut state = state();
    let mut connection = connect();
    let s = summary("s", "ours", "/p");
    adopt(&mut connection, &mut state, "s", Some(&s)).unwrap();
    connection.set_mode("s", "bypass").unwrap();
    let running = connection.begin_prompt("s").unwrap().turn;
    adopt(&mut connection, &mut state, "s", Some(&s)).unwrap();
    assert_eq!(state.open_acp_sessions.get("s"), Some(&1));
    assert_eq!(
        connection.sessions.get("s").unwrap().mode,
        SessionMode::Default
    );
    assert_eq!(
        connection.cancel("s"),
        Some(vec![running]),
        "a turn in flight can still be cancelled"
    );
    connection.close(&mut state);
    assert!(!state.open_acp_sessions.contains_key("s"));
}

#[test]
fn closing_a_connection_releases_its_sessions() {
    let mut state = state();
    let mut connection = connect();
    open(&mut connection, &mut state, "a");
    open(&mut connection, &mut state, "b");
    state.acp_terminals.try_reserve_terminal_slot("a").unwrap();
    connection.close(&mut state);
    assert!(!state.open_acp_sessions.contains_key("a"));
    assert!(!state.open_acp_sessions.contains_key("b"));
    assert!(
        state.acp_terminals.track_terminal("a", "t"),
        "terminals outlive the connection"
    );
    assert!(state.is_acp("a"));
}

fn progress() -> AcpProgress {
    AcpProgress::new(
        "s".to_string(),
        "developer".to_string(),
        SessionMode::Default,
        ClientCapabilities::none(),
        "/work".to_string(),
    )
}

fn risky() -> ToolCall {
    ToolCall {
        id: "call-1".to_string(),
        name: "risky".to_string(),
        input: Fields::new().with_text("cmd", "ls").object(),
    }
}

#[test]
fn a_question_names_the_call_and_four_answers() {
    let request = match progress().approve(&risky(), ToolKind::Execute, None) {
        Approving::Ask(r) => r,
        other => panic!("got {other:?}"),
    };
    assert_eq!(request.tool_call_id, "call-1");
    assert_eq!(request.title, "risky");
    assert_eq!(request.kind, ToolKind::Execute);
    assert_eq!(request.raw_input, risky().input);
    let options: Vec<(String, String)> = permission_options()
        .into_iter()
        .map(|o| (o.id, o.name))
        .collect();
    let text = |a: &str, b: &str| (a.to_string(), b.to_string());
    assert_eq!(
        options,
        vec![
            text("allow_once", "Allow once"),
            text("allow_always", "Always allow this tool"),
            text("reject_once", "Reject"),
            text("reject_always", "Never allow this tool"),
        ]
    );
}

#[test]
fn picking_an_option_means_what_it_offers() {
    for option in permission_options() {
        let (approval, kept) = permission_answered(&PermissionAnswer::Selected(option.id));
        assert_eq!(approval, option.kind);
        assert_eq!(kept, option.kind.is_sticky());
    }
}

#[test]
fn allow_always_is_not_asked_twice() {
    assert_eq!(
        permission_answered(&PermissionAnswer::Selected("allow_always".to_string())),
        (Approval::AllowAlways, true)
    );
    assert_eq!(
        progress().approve(&risky(), ToolKind::Execute, Some(true)),
        Approving::Settled(Approval::AllowAlways)
    );
    assert_eq!(
        progress().approve(&risky(), ToolKind::Execute, Some(false)),
        Approving::Settled(Approval::RejectAlways)
    );
}

#[test]
fn every_other_answer_is_a_no() {
    for answer in [
        PermissionAnswer::Failed,
        PermissionAnswer::Cancelled,
        PermissionAnswer::Unknown,
        PermissionAnswer::Selected("reject_once".to_string()),
        PermissionAnswer::Selected("whatever".to_string()),
    ] {
        assert_eq!(
            permission_answered(&answer),
            (Approval::RejectOnce, false)
        );
    }
    assert_eq!(
        permission_answered(&PermissionAnswer::Selected("allow_once".to_string())),
        (Approval::AllowOnce, false)
    );
    assert_eq!(
        permission_answered(&PermissionAnswer::Selected("reject_always".to_string())),
        (Approval::RejectAlways, true)
    );
}
