use sapphire_agent::host::{
    host_facts, AcpProgress, Approving, AutonomousHost, HostMessage, NullProgress, SseProgress,
    TurnHost,
};
use sapphire_agent::editor::{ClientCapabilities, SessionUpdate, ToolCallStatus};
use sapphire_agent::json::{Fields, Json};
use sapphire_agent::message::{ChatMessage, ChatResponse, ContentPart, ToolCall};
use sapphire_agent::persistence::{Append, Record, StoreKind, TurnPersistence};
use sapphire_agent::policy::{
    Approval, Decision, Origin, Refusal, RoundBudget, SessionMode, ToolKind, ToolRounds,
};
use sapphire_agent::rpc::OpeningSession;
use sapphire_agent::scripted::{Bench, Chat, HangingChat, Step, StubProvider};
use sapphire_agent::state::{ProviderChoice, RoomProfile, ServeState, ServerConfig};
use sapphire_agent::table::Table;
use sapphire_agent::turn::{system_prompt_of, LlmTurnOutcome};
use sapphire_agent::turn_loop::{
    CompressionResult, GateStep, Reply, Settled, TurnLoop, TurnRules, TurnScope, TurnStop, Verdict,
};

fn config_with_rounds(tool_rounds: ToolRounds) -> ServerConfig {
    let mut room_profiles = Table::new();
    room_profiles.insert(
        "developer".to_string(),
        RoomProfile {
            profile: "main".to_string(),
            namespace: "default".to_string(),
            voice_pipeline: None,
        },
    );
    ServerConfig {
        host_access_enabled: false,
        tool_rounds,
        room_profiles,
        skill_namespaces: Table::new(),
        default_namespace: "default".to_string(),
        wake_word_model: None,
        voice: None,
    }
}

fn config() -> ServerConfig {
    config_with_rounds(ToolRounds::default())
}

fn call(id: &str, name: &str) -> ToolCall {
    ToolCall {
        id: id.to_string(),
        name: name.to_string(),
        input: Fields::new().with_text("text", "ping").object(),
    }
}

fn asks(text: Option<&str>, calls: Vec<ToolCall>) -> ChatResponse {
    ChatResponse {
        text: text.map(|t| t.to_string()),
        tool_calls: calls,
    }
}

fn says(text: &str) -> ChatResponse {
    asks(Some(text), Vec::new())
}

fn names(list: &[&str]) -> Vec<String> {
    list.iter().map(|n| n.to_string()).collect()
}

struct Ran {
    outcome: LlmTurnOutcome,
    history: Vec<ChatMessage>,
}

/// One turn of a session from its start to its end, on a bench.
fn run_llm_turn<H: TurnHost>(
    state: &mut ServeState,
    config: &ServerConfig,
    bench: &mut Bench,
    host: &mut H,
    session_id: &str,
    message: ChatMessage,
    loaded: Option<Vec<ChatMessage>>,
    registered: &[&str],
) -> Ran {
    let route = state.turn_route(session_id, false, false);
    let opened = state.open_turn(config, session_id, route, loaded, message);
    if let Record::Message(m) = &opened.append.record {
        bench.log.push(m.clone());
    }
    let was_first_turn = opened.was_first_turn;
    let facts = host_facts(host);
    let turn = opened.start(config, facts, &names(registered), None);
    let (turn, text, stop) = bench.run(host, turn);
    let history = turn.history.clone();
    let outcome = state.finish_turn(session_id, turn.history, text, was_first_turn, stop);
    Ran { outcome, history }
}

fn fresh_state() -> ServeState {
    ServeState::new(&Vec::new(), 4)
}

fn result_of(history: &[ChatMessage], id: &str) -> Option<String> {
    history.iter().flat_map(|m| &m.parts).find_map(|p| match p {
        ContentPart::ToolResult {
            tool_use_id,
            content,
        } if tool_use_id == id => Some(content.clone()),
        _ => None,
    })
}

fn position_of_use(log: &[ChatMessage], id: &str) -> Option<usize> {
    log.iter().position(|m| {
        m.parts
            .iter()
            .any(|p| matches!(p, ContentPart::ToolUse { id: i, .. } if i == id))
    })
}

fn position_of_result(log: &[ChatMessage], id: &str) -> Option<usize> {
    log.iter().position(|m| {
        m.parts
            .iter()
            .any(|p| matches!(p, ContentPart::ToolResult { tool_use_id, .. } if tool_use_id == id))
    })
}

/// A host that notes nothing but which rows it is judged by.
struct RowHost {
    origin: Origin,
    budget: RoundBudget,
    client: bool,
    fs_read: bool,
}

impl TurnHost for RowHost {
    fn tool_start(&self, id: &str, _name: &str, _input: &Json) -> Option<HostMessage> {
        Some(HostMessage::Rpc(Json::Text(format!("start {id}"))))
    }
    fn tool_end(&self, id: &str, _name: &str) -> Option<HostMessage> {
        Some(HostMessage::Rpc(Json::Text(format!("end {id}"))))
    }
    fn turn_error(&mut self, message: &str) -> Option<HostMessage> {
        Some(HostMessage::Rpc(Json::Text(format!("error {message}"))))
    }
    fn message_chunk(&self, text: &str) -> Option<HostMessage> {
        Some(HostMessage::Rpc(Json::Text(format!("chunk {text}"))))
    }
    fn tool_allowed(&self, id: &str) -> Option<HostMessage> {
        Some(HostMessage::Rpc(Json::Text(format!("allowed {id}"))))
    }
    fn origin(&self) -> Origin {
        self.origin
    }
    fn round_budget(&self) -> RoundBudget {
        self.budget
    }
    fn has_client(&self) -> bool {
        self.client
    }
    fn client_fs_caps(&self) -> (bool, bool) {
        (self.fs_read, false)
    }
}

fn row_host(origin: Origin) -> RowHost {
    RowHost {
        origin,
        budget: RoundBudget::Unattended,
        client: false,
        fs_read: false,
    }
}

fn sent(bench: &Bench) -> Vec<String> {
    bench
        .sent
        .iter()
        .map(|m| match m {
            HostMessage::Rpc(Json::Text(t)) => t.clone(),
            other => format!("{other:?}"),
        })
        .collect()
}

#[test]
fn a_refused_tool_returns_a_result_and_the_turn_continues() {
    let mut bench = Bench::new(StubProvider::new(vec![
        asks(None, vec![call("call-1", "risky")]),
        says("could not run that"),
    ]));
    bench.decisions.insert("risky".to_string(), Decision::Deny);
    let mut host = row_host(Origin::Channel);
    let ran = run_llm_turn(
        &mut fresh_state(),
        &config(),
        &mut bench,
        &mut host,
        "s-refused",
        ChatMessage::user("run it"),
        None,
        &["risky"],
    );
    assert_eq!(ran.outcome.text.as_deref(), Some("could not run that"));
    assert!(
        !bench.risky.ran_flag(),
        "a refused tool must not have executed"
    );
    let refusal = result_of(&ran.history, "call-1")
        .expect("the refused call still owes the model a tool_result");
    assert!(
        refusal.contains("risky"),
        "the refusal should name the tool, got {refusal}"
    );
    assert_eq!(
        sent(&bench),
        vec!["start call-1", "end call-1", "chunk could not run that"]
    );
}

#[test]
fn a_trusted_origin_runs_the_same_tool() {
    let mut bench = Bench::new(StubProvider::new(vec![
        asks(None, vec![call("call-1", "risky")]),
        says("ran it"),
    ]));
    let ran = run_llm_turn(
        &mut fresh_state(),
        &config(),
        &mut bench,
        &mut NullProgress,
        "s-allowed",
        ChatMessage::user("run it"),
        None,
        &["risky"],
    );
    assert_eq!(ran.outcome.text.as_deref(), Some("ran it"));
    assert!(
        bench.risky.ran_flag(),
        "a trusted origin must have executed it"
    );
    assert_eq!(result_of(&ran.history, "call-1").as_deref(), Some("ran"));
}

#[test]
fn a_non_acp_turn_scopes_no_room_profile() {
    let mut bench = Bench::new(StubProvider::new(vec![
        asks(None, vec![call("call-1", "heartbeat_config")]),
        says("done"),
    ]));
    let mut state = fresh_state();
    state
        .session_room_profiles
        .insert("s-plain".to_string(), "developer".to_string());
    run_llm_turn(
        &mut state,
        &config(),
        &mut bench,
        &mut NullProgress,
        "s-plain",
        ChatMessage::user("go"),
        None,
        &["heartbeat_config"],
    );
    assert_eq!(
        bench.probe.seen(),
        Some(None),
        "no profile may be scoped here"
    );
}

#[test]
fn an_acp_turn_scopes_its_pinned_room_profile() {
    let mut bench = Bench::new(StubProvider::new(vec![
        asks(None, vec![call("call-1", "heartbeat_config")]),
        says("done"),
    ]));
    let mut state = fresh_state();
    state.acp_sessions.insert("acp-1".to_string(), ());
    state
        .session_room_profiles
        .insert("acp-1".to_string(), "developer".to_string());
    assert_eq!(bench.probe.seen(), None);
    run_llm_turn(
        &mut state,
        &config(),
        &mut bench,
        &mut NullProgress,
        "acp-1",
        ChatMessage::user("go"),
        None,
        &["heartbeat_config"],
    );
    assert_eq!(bench.probe.seen(), Some(Some("developer".to_string())));
}

#[test]
fn a_registered_but_unoffered_tool_is_refused_on_an_ordinary_turn() {
    let mut bench = Bench::new(StubProvider::new(vec![
        asks(None, vec![call("call-1", "shell_start")]),
        says("ok"),
    ]));
    let ran = run_llm_turn(
        &mut fresh_state(),
        &config(),
        &mut bench,
        &mut NullProgress,
        "s-unoffered",
        ChatMessage::user("run something"),
        None,
        &["echo", "shell_start"],
    );
    assert!(bench.ran.is_empty(), "it was never offered");
    assert_eq!(
        result_of(&ran.history, "call-1").as_deref(),
        Some("shell_start was not offered")
    );
    assert_eq!(
        bench.provider.call_log().calls(),
        vec![(None, names(&["echo"])), (None, names(&["echo"]))]
    );
}

#[test]
fn an_acp_turn_runs_a_host_named_tool_with_host_access_off() {
    let mut bench = Bench::new(StubProvider::new(vec![
        asks(None, vec![call("call-1", "file_read")]),
        says("read it"),
    ]));
    let mut host = RowHost {
        origin: Origin::Acp(SessionMode::Default),
        budget: RoundBudget::Unattended,
        client: true,
        fs_read: true,
    };
    let ran = run_llm_turn(
        &mut fresh_state(),
        &config(),
        &mut bench,
        &mut host,
        "s-acp",
        ChatMessage::user("read it"),
        None,
        &["file_read"],
    );
    assert_eq!(ran.outcome.text.as_deref(), Some("read it"));
    assert_eq!(bench.ran.len(), 1);
}

#[test]
fn a_non_acp_turn_never_offers_a_host_tool_to_begin_with() {
    let mut bench = Bench::new(StubProvider::new(vec![
        asks(None, vec![call("call-1", "file_read")]),
        says("could not"),
    ]));
    let ran = run_llm_turn(
        &mut fresh_state(),
        &config(),
        &mut bench,
        &mut NullProgress,
        "s-rpc",
        ChatMessage::user("read it"),
        None,
        &["file_read", "echo"],
    );
    assert!(bench.ran.is_empty());
    assert_eq!(
        bench.provider.call_log().calls()[0],
        (None, names(&["echo"]))
    );
    assert_eq!(
        result_of(&ran.history, "call-1").as_deref(),
        Some("file_read was not offered")
    );
}

#[test]
fn a_host_tool_is_unavailable_where_the_deployment_keeps_it_off() {
    let turn = TurnLoop::new(
        TurnRules {
            offered: names(&["shell"]),
            host_access_enabled: false,
            routed_to_client: false,
            round_limit: None,
        },
        scope(),
        None,
        Vec::new(),
    );
    assert_eq!(
        turn.rules.refuse_up_front("shell"),
        Some(Refusal::Unavailable)
    );
    assert_eq!(
        turn.rules.refuse_up_front("echo"),
        Some(Refusal::NotOffered)
    );
}

fn scope() -> TurnScope {
    TurnScope {
        namespace: "default".to_string(),
        timer_device: Some("speaker".to_string()),
        subagent_depth: 2,
        admin_room_profile: Some("ops".to_string()),
    }
}

#[test]
fn text_reaches_the_host_round_by_round() {
    let mut bench = Bench::new(StubProvider::new(vec![
        asks(Some("looking now"), vec![call("call-1", "echo")]),
        says("found it"),
    ]));
    let mut host = row_host(Origin::Trusted);
    let ran = run_llm_turn(
        &mut fresh_state(),
        &config(),
        &mut bench,
        &mut host,
        "s-chunks",
        ChatMessage::user("go"),
        None,
        &["echo"],
    );
    assert_eq!(
        sent(&bench),
        vec![
            "chunk looking now",
            "start call-1",
            "allowed call-1",
            "end call-1",
            "chunk found it"
        ]
    );
    assert_eq!(
        ran.outcome.text.as_deref(),
        Some("looking now\n\nfound it")
    );
    assert!(matches!(ran.outcome.stop, TurnStop::Replied));
}

#[test]
fn an_empty_text_is_not_handed_to_the_host() {
    let mut bench = Bench::new(StubProvider::new(vec![
        asks(None, vec![call("call-1", "echo")]),
        asks(Some(""), vec![call("call-2", "echo")]),
        says("done"),
    ]));
    let mut host = row_host(Origin::Trusted);
    run_llm_turn(
        &mut fresh_state(),
        &config(),
        &mut bench,
        &mut host,
        "s-empty",
        ChatMessage::user("go"),
        None,
        &["echo"],
    );
    let chunks: Vec<String> = sent(&bench)
        .into_iter()
        .filter(|s| s.starts_with("chunk"))
        .collect();
    assert_eq!(chunks, vec!["chunk done"]);
}

#[test]
fn an_unattended_host_stops_at_the_configured_budget() {
    let script = (0..3)
        .map(|i| asks(Some(&format!("step {i}")), vec![call(&format!("call-{i}"), "echo")]))
        .collect();
    let mut bench = Bench::new(StubProvider::new(script));
    let ran = run_llm_turn(
        &mut fresh_state(),
        &config_with_rounds(ToolRounds {
            interactive: 0,
            unattended: 3,
        }),
        &mut bench,
        &mut NullProgress,
        "s-budget",
        ChatMessage::user("go"),
        None,
        &["echo"],
    );
    assert_eq!(ran.outcome.text, None);
    assert_eq!(
        ran.outcome.stop,
        TurnStop::BudgetExhausted {
            partial_text: "step 0\n\nstep 1\n\nstep 2".to_string()
        }
    );
    assert_eq!(bench.ran.len(), 3);
}

#[test]
fn an_interactive_host_runs_past_the_old_hard_coded_ten() {
    let mut script: Vec<ChatResponse> = (0..12)
        .map(|i| asks(None, vec![call(&format!("call-{i}"), "echo")]))
        .collect();
    script.push(says("finished"));
    let mut bench = Bench::new(StubProvider::new(script));
    let mut host = RowHost {
        origin: Origin::Trusted,
        budget: RoundBudget::Interactive,
        client: false,
        fs_read: false,
    };
    let ran = run_llm_turn(
        &mut fresh_state(),
        &config(),
        &mut bench,
        &mut host,
        "s-unbounded",
        ChatMessage::user("go"),
        None,
        &["echo"],
    );
    assert_eq!(ran.outcome.text.as_deref(), Some("finished"));
}

#[test]
fn a_session_restored_with_more_than_the_round_budget_still_replies() {
    let mut history = Vec::new();
    for i in 0..11 {
        let id = format!("old-{i}");
        history.push(ChatMessage::assistant_with_tools(
            None,
            vec![call(&id, "file_read")],
        ));
        history.push(ChatMessage::tool_results_with_images(
            vec![(id, "contents".to_string())],
            Vec::new(),
        ));
    }
    let mut bench = Bench::new(StubProvider::new(vec![says("ok")]));
    let ran = run_llm_turn(
        &mut fresh_state(),
        &config_with_rounds(ToolRounds {
            interactive: 3,
            unattended: 3,
        }),
        &mut bench,
        &mut NullProgress,
        "s-restored",
        ChatMessage::user("still there?"),
        Some(history),
        &["echo"],
    );
    assert!(matches!(ran.outcome.stop, TurnStop::Replied));
    assert_eq!(ran.outcome.text.as_deref(), Some("ok"));
    assert!(!ran.outcome.was_first_turn);
}

#[test]
fn a_stale_in_memory_cache_does_not_hide_a_sessions_persisted_progress() {
    let mut state = fresh_state();
    state.put_session("s1", Vec::new());
    let mut bench = Bench::new(StubProvider::new(vec![says("ok")]));
    let ran = run_llm_turn(
        &mut state,
        &config(),
        &mut bench,
        &mut NullProgress,
        "s1",
        ChatMessage::user("SECOND_TURN_MARKER"),
        Some(vec![ChatMessage::user("FIRST_TURN_MARKER")]),
        &["echo"],
    );
    assert_eq!(
        ran.history,
        vec![
            ChatMessage::user("FIRST_TURN_MARKER"),
            ChatMessage::user("SECOND_TURN_MARKER"),
            ChatMessage::assistant("ok"),
        ]
    );
    assert_eq!(state.sessions.get("s1").unwrap(), &ran.history);
}

#[test]
fn an_acp_turn_persists_its_tool_calls() {
    let mut state = fresh_state();
    state.acp_sessions.insert("acp-tools".to_string(), ());
    let mut bench = Bench::new(StubProvider::new(vec![
        asks(None, vec![call("call-1", "risky")]),
        says("done"),
    ]));
    run_llm_turn(
        &mut state,
        &config(),
        &mut bench,
        &mut NullProgress,
        "acp-tools",
        ChatMessage::user("run it"),
        None,
        &["risky"],
    );
    let use_at = position_of_use(&bench.log, "call-1").expect("the tool_use was persisted");
    let result_at =
        position_of_result(&bench.log, "call-1").expect("the matching tool_result was persisted");
    assert!(use_at < result_at);
    assert_eq!(bench.log.len(), 4);
}

#[test]
fn an_rpc_turn_now_persists_its_tool_calls_too() {
    let mut bench = Bench::new(StubProvider::new(vec![
        asks(None, vec![call("call-1", "risky")]),
        says("done"),
    ]));
    run_llm_turn(
        &mut fresh_state(),
        &config(),
        &mut bench,
        &mut NullProgress,
        "rpc-tools",
        ChatMessage::user("run it"),
        None,
        &["risky"],
    );
    assert!(position_of_use(&bench.log, "call-1") < position_of_result(&bench.log, "call-1"));
    assert!(position_of_use(&bench.log, "call-1").is_some());
}

#[test]
fn a_failed_tool_use_append_suppresses_the_tool_result_append_too() {
    let mut bench = Bench::new(StubProvider::new(vec![
        asks(None, vec![call("call-1", "risky")]),
        says("done"),
    ]));
    bench.failing_writes.push(0);
    let ran = run_llm_turn(
        &mut fresh_state(),
        &config(),
        &mut bench,
        &mut NullProgress,
        "s-half",
        ChatMessage::user("run it"),
        None,
        &["risky"],
    );
    assert_eq!(
        position_of_use(&bench.log, "call-1"),
        None,
        "the tool_use append failed and must stay absent"
    );
    assert_eq!(
        position_of_result(&bench.log, "call-1"),
        None,
        "a tool_result with no tool_use before it must never reach disk"
    );
    assert_eq!(bench.writes, 2, "the tool_use and the last message");
    assert!(result_of(&ran.history, "call-1").is_some());
}

#[test]
fn a_non_acp_session_persists_both_halves_of_a_tool_call() {
    let store = TurnPersistence {
        store: StoreKind::CrossDevice,
        session_id: "s1".to_string(),
        is_acp: false,
    };
    let asked = store.append_message_paired(&ChatMessage::assistant_with_tools(
        None,
        vec![ToolCall {
            id: "c1".to_string(),
            name: "file_read".to_string(),
            input: Fields::new().object(),
        }],
    ));
    assert!(asked.landed::<String>(&Ok(())));
    let answered = store.append_message_paired(&ChatMessage::tool_results_with_images(
        vec![("c1".to_string(), "contents".to_string())],
        Vec::new(),
    ));
    let loaded: Vec<ChatMessage> = [asked, answered]
        .into_iter()
        .map(|a: Append| {
            assert_eq!(a.store, StoreKind::CrossDevice);
            assert_eq!(a.session_id, "s1");
            match a.record {
                Record::Message(m) => m,
                other => panic!("expected a message, got {other:?}"),
            }
        })
        .collect();
    assert!(
        loaded
            .iter()
            .flat_map(|m| &m.parts)
            .any(|p| matches!(p, ContentPart::ToolUse { id, .. } if id == "c1")),
        "tool_use missing: {loaded:?}"
    );
    assert!(
        loaded.iter().flat_map(|m| &m.parts).any(
            |p| matches!(p, ContentPart::ToolResult { tool_use_id, content } if tool_use_id == "c1" && content == "contents")
        ),
        "tool_result missing: {loaded:?}"
    );
}

#[test]
fn an_acp_session_persists_to_the_acp_store() {
    let mut state = fresh_state();
    state.acp_sessions.insert("a".to_string(), ());
    let route = state.turn_route("a", false, false);
    let opened = state.open_turn(&config(), "a", route, None, ChatMessage::user("hello"));
    assert_eq!(opened.append.store, StoreKind::Acp);
    assert_eq!(opened.ensure, None);
    assert!(opened.was_first_turn);
    assert_eq!(
        opened.persistence.append_summary("so far", 3),
        Append {
            store: StoreKind::Acp,
            session_id: "a".to_string(),
            record: Record::Summary {
                text: "so far".to_string(),
                keep_recent: 3
            }
        }
    );
    assert_eq!(
        opened.persistence.set_title("t").record,
        Record::Title("t".to_string())
    );
}

#[test]
fn an_rpc_session_still_persists_to_the_rpc_store() {
    let mut state = fresh_state();
    state
        .pending_sessions
        .insert("r".to_string(), "abc1234".to_string());
    let route = state.turn_route("r", false, false);
    let opened = state.open_turn(&config(), "r", route, None, ChatMessage::user("hello"));
    assert_eq!(opened.append.store, StoreKind::CrossDevice);
    let ensure = opened.ensure.expect("the file has to be made");
    assert_eq!(ensure.public_id, Some("abc1234".to_string()));
    assert_eq!(ensure.session_id, "r");
    assert_eq!(ensure.namespace, "default");
    assert!(!state.pending_sessions.contains_key("r"));
}

#[test]
fn an_autonomous_session_resolves_to_the_autonomous_store() {
    assert_eq!(ServeState::store_for_session(true, false), StoreKind::Autonomous);
    assert_eq!(ServeState::store_for_session(true, true), StoreKind::Autonomous);
    assert_eq!(ServeState::store_for_session(false, true), StoreKind::DeviceDefault);
    assert_eq!(ServeState::store_for_session(false, false), StoreKind::CrossDevice);
    let mut state = fresh_state();
    let route = state.turn_route("auto", true, false);
    let opened = state.open_turn(&config(), "auto", route, None, ChatMessage::user("go"));
    assert_eq!(opened.append.store, StoreKind::Autonomous);
    assert_eq!(opened.ensure, None);
}

#[test]
fn a_provider_failure_answers_with_an_error_carrying_the_cause() {
    let mut bench = Bench::new(StubProvider::new_scripted(vec![Err(
        "no credit".to_string()
    )]));
    let mut host = AcpProgress::new(
        "s".to_string(),
        "developer".to_string(),
        SessionMode::Default,
        ClientCapabilities::none(),
        "/work".to_string(),
    );
    let ran = run_llm_turn(
        &mut fresh_state(),
        &config(),
        &mut bench,
        &mut host,
        "s",
        ChatMessage::user("hi"),
        None,
        &["echo"],
    );
    assert_eq!(ran.outcome.text, None);
    assert_eq!(
        ran.outcome.stop,
        TurnStop::ProviderError {
            message: "no credit".to_string()
        }
    );
    assert_eq!(host.failure(), Some("no credit".to_string()));
}

#[test]
fn tool_calls_are_reported_before_the_reply() {
    let mut bench = Bench::new(StubProvider::new(vec![
        asks(None, vec![call("call-1", "echo")]),
        says("done"),
    ]));
    let mut host = AcpProgress::new(
        "s".to_string(),
        "developer".to_string(),
        SessionMode::Default,
        ClientCapabilities::none(),
        "/work".to_string(),
    );
    let ran = run_llm_turn(
        &mut fresh_state(),
        &config(),
        &mut bench,
        &mut host,
        "s",
        ChatMessage::user("use the tool"),
        None,
        &["echo"],
    );
    let updates: Vec<&SessionUpdate> = bench
        .sent
        .iter()
        .map(|m| match m {
            HostMessage::Acp(u) => u,
            other => panic!("got {other:?}"),
        })
        .collect();
    assert_eq!(
        updates,
        vec![
            &SessionUpdate::ToolCall {
                id: "call-1".to_string(),
                title: "echo".to_string(),
                raw_input: Fields::new().with_text("text", "ping").object(),
                status: ToolCallStatus::Pending,
            },
            &SessionUpdate::ToolCallUpdate {
                id: "call-1".to_string(),
                status: ToolCallStatus::InProgress,
            },
            &SessionUpdate::ToolCallUpdate {
                id: "call-1".to_string(),
                status: ToolCallStatus::Completed,
            },
            &SessionUpdate::AgentMessageChunk("done".to_string()),
        ]
    );
    assert_eq!(result_of(&ran.history, "call-1").as_deref(), Some("ping"));
}

fn editor_host() -> AcpProgress {
    AcpProgress::new(
        "s".to_string(),
        "developer".to_string(),
        SessionMode::Default,
        ClientCapabilities::none(),
        "/work".to_string(),
    )
}

fn chunks(bench: &Bench) -> Vec<String> {
    bench
        .sent
        .iter()
        .filter_map(|m| match m {
            HostMessage::Acp(SessionUpdate::AgentMessageChunk(t)) => Some(t.clone()),
            _ => None,
        })
        .collect()
}

#[test]
fn prose_arrives_round_by_round_rather_than_all_at_the_end() {
    let mut bench = Bench::new(StubProvider::new(vec![
        asks(Some("checking the config"), vec![call("call-1", "echo")]),
        says("it was the timeout"),
    ]));
    let ran = run_llm_turn(
        &mut fresh_state(),
        &config(),
        &mut bench,
        &mut editor_host(),
        "s",
        ChatMessage::user("why is it slow"),
        None,
        &["echo"],
    );
    assert_eq!(
        chunks(&bench),
        vec!["checking the config", "it was the timeout"]
    );
    assert_eq!(bench.handed, chunks(&bench));
    assert_eq!(
        ran.outcome.text.as_deref(),
        Some("checking the config\n\nit was the timeout")
    );
}

#[test]
fn the_final_reply_is_not_sent_twice() {
    let mut bench = Bench::new(StubProvider::new(vec![says("just this")]));
    run_llm_turn(
        &mut fresh_state(),
        &config(),
        &mut bench,
        &mut editor_host(),
        "s",
        ChatMessage::user("hello"),
        None,
        &["echo"],
    );
    assert_eq!(chunks(&bench), vec!["just this"]);
}

#[test]
fn an_acp_turn_runs_past_ten_rounds_by_default() {
    let mut script: Vec<ChatResponse> = (0..12)
        .map(|i| asks(None, vec![call(&format!("call-{i}"), "echo")]))
        .collect();
    script.push(says("finished"));
    let mut bench = Bench::new(StubProvider::new(script));
    let ran = run_llm_turn(
        &mut fresh_state(),
        &config(),
        &mut bench,
        &mut editor_host(),
        "s",
        ChatMessage::user("go"),
        None,
        &["echo"],
    );
    assert_eq!(ran.outcome.text.as_deref(), Some("finished"));
    assert_eq!(bench.ran.len(), 12);
}

#[test]
fn a_prompt_turns_history_lands_under_its_own_session_id() {
    let mut state = fresh_state();
    let mut bench = Bench::new(StubProvider::new(vec![says("ok")]));
    run_llm_turn(
        &mut state,
        &config(),
        &mut bench,
        &mut editor_host(),
        "mine",
        ChatMessage::user("hi"),
        None,
        &["echo"],
    );
    assert_eq!(state.sessions.len(), 1);
    assert_eq!(
        state.sessions.get("mine"),
        Some(&vec![ChatMessage::user("hi"), ChatMessage::assistant("ok")])
    );
}

#[test]
fn a_subagent_restricted_to_one_tool_is_refused_another_that_is_registered() {
    let turn = TurnLoop::new(
        TurnRules {
            offered: names(&["echo"]),
            host_access_enabled: true,
            routed_to_client: false,
            round_limit: Some(25),
        },
        scope(),
        None,
        vec![ChatMessage::user("delegated")],
    );
    let mut bench = Bench::new(StubProvider::new(vec![
        asks(None, vec![call("inner", "risky")]),
        says("could not"),
    ]));
    let (turn, text, stop) = bench.run(&mut NullProgress, turn);
    assert_eq!(text.as_deref(), Some("could not"));
    assert_eq!(stop, TurnStop::Replied);
    assert!(!bench.risky.ran_flag());
    assert_eq!(
        result_of(&turn.history, "inner").as_deref(),
        Some("risky was not offered")
    );
    assert!(
        bench.log.is_empty(),
        "a turn without a session writes nothing"
    );
}

#[test]
fn an_execute_tool_asks_and_runs_when_allowed() {
    let mut bench = Bench::new(StubProvider::new(vec![
        asks(None, vec![call("call-1", "risky")]),
        says("done"),
    ]));
    bench.decisions.insert("risky".to_string(), Decision::Ask);
    run_llm_turn(
        &mut fresh_state(),
        &config(),
        &mut bench,
        &mut row_host(Origin::Acp(SessionMode::Default)),
        "s",
        ChatMessage::user("run it"),
        None,
        &["risky"],
    );
    assert_eq!(bench.asked, names(&["risky"]));
    assert!(bench.risky.ran_flag());
}

#[test]
fn a_refusal_does_not_end_the_turn() {
    let mut bench = Bench::new(StubProvider::new(vec![
        asks(None, vec![call("a", "risky"), call("b", "echo")]),
        says("went on"),
    ]));
    bench.decisions.insert("risky".to_string(), Decision::Ask);
    bench.approval = Approval::RejectOnce;
    let ran = run_llm_turn(
        &mut fresh_state(),
        &config(),
        &mut bench,
        &mut row_host(Origin::Acp(SessionMode::Default)),
        "s",
        ChatMessage::user("run it"),
        None,
        &["risky", "echo"],
    );
    assert_eq!(ran.outcome.text.as_deref(), Some("went on"));
    assert!(!bench.risky.ran_flag());
    let answers: Vec<ContentPart> = ran.history[2].parts.clone();
    assert_eq!(
        answers,
        vec![
            ContentPart::ToolResult {
                tool_use_id: "b".to_string(),
                content: "ping".to_string()
            },
            ContentPart::ToolResult {
                tool_use_id: "a".to_string(),
                content: "risky was declined".to_string()
            },
        ],
        "what ran is answered first, then what did not"
    );
}

#[test]
fn a_safe_tool_is_not_put_to_the_user() {
    let mut bench = Bench::new(StubProvider::new(vec![
        asks(None, vec![call("call-1", "echo")]),
        says("done"),
    ]));
    run_llm_turn(
        &mut fresh_state(),
        &config(),
        &mut bench,
        &mut row_host(Origin::Acp(SessionMode::Default)),
        "s",
        ChatMessage::user("go"),
        None,
        &["echo"],
    );
    assert!(bench.asked.is_empty());
}

#[test]
fn fixture_state_serves_the_scripted_provider() {
    let mut provider = StubProvider::new(vec![says("scripted reply")]);
    assert_eq!(
        provider.chat(Some("sys"), &names(&["echo"])),
        Chat::Answered(says("scripted reply"))
    );
    assert_eq!(
        provider.chat(None, &Vec::new()),
        Chat::Failed("StubProvider script exhausted".to_string())
    );
    assert_eq!(
        provider.call_log().calls(),
        vec![
            (Some("sys".to_string()), names(&["echo"])),
            (None, Vec::new())
        ]
    );
}

#[test]
fn a_script_may_fail_one_call_and_go_on() {
    let mut provider = StubProvider::new_scripted(vec![
        Ok(says("one")),
        Err("broken".to_string()),
        Ok(says("three")),
    ]);
    assert_eq!(provider.chat(None, &Vec::new()), Chat::Answered(says("one")));
    assert_eq!(
        provider.chat(None, &Vec::new()),
        Chat::Failed("broken".to_string())
    );
    assert_eq!(
        provider.chat(None, &Vec::new()),
        Chat::Answered(says("three"))
    );
}

#[test]
fn hanging_provider_sets_the_drop_flag_when_its_chat_future_is_aborted() {
    let (mut provider, seen) = StubProvider::new_hanging();
    assert_eq!(
        seen,
        HangingChat {
            entered: 0,
            dropped: 0
        }
    );
    assert_eq!(provider.chat(None, &Vec::new()), Chat::Hangs);
    assert_eq!(provider.hanging_chat().entered, 1);
    assert_eq!(provider.hanging_chat().dropped, 0);
    provider.give_up();
    assert_eq!(provider.hanging_chat().dropped, 1);
}

#[test]
fn existing_transports_are_trusted() {
    let sse = SseProgress::new(Json::Int(1));
    assert_eq!(sse.origin(), Origin::Trusted);
    assert_eq!(NullProgress.origin(), Origin::Trusted);
}

#[test]
fn the_default_approval_allows_once() {
    let call = ToolCall {
        id: "c1".to_string(),
        name: "shell".to_string(),
        input: Fields::new().object(),
    };
    assert_eq!(
        NullProgress.approve(&call, ToolKind::Execute, None),
        Approving::Settled(Approval::AllowOnce)
    );
}

#[test]
fn the_default_turn_host_offers_no_client() {
    assert!(!NullProgress.has_client());
    assert_eq!(NullProgress.cwd(), None);
    assert_eq!(NullProgress.client_fs_caps(), (false, false));
    assert!(!NullProgress.client_terminal_cap());
}

#[test]
fn the_autonomous_host_is_trusted_and_unattended() {
    let host = AutonomousHost {
        origin: Origin::Trusted,
    };
    assert_eq!(host.origin(), Origin::Trusted);
    assert_eq!(host.round_budget(), RoundBudget::Unattended);

    let host = AutonomousHost {
        origin: Origin::Channel,
    };
    assert_eq!(host.origin(), Origin::Channel);
}

#[test]
fn sse_progress_emits_one_event_per_call() {
    let progress = SseProgress::new(Json::Int(7));
    let start = progress.tool_start(
        "call-1",
        "recall",
        &Fields::new().with_text("query", "x").object(),
    );
    let params = Fields::new()
        .with_text("id", "call-1")
        .with_text("name", "recall")
        .object();
    assert_eq!(
        start,
        Some(HostMessage::Rpc(
            Fields::new()
                .with_text("jsonrpc", "2.0")
                .with_text("method", "tool_start")
                .with("params", params)
                .object()
        ))
    );
    assert!(progress.tool_end("call-1", "recall").is_some());
}

#[test]
fn sse_progress_turn_error_emits_one_event() {
    let mut progress = SseProgress::new(Json::Int(7));
    let error = Fields::new()
        .with("code", Json::Int(-32603))
        .with_text("message", "provider exploded")
        .object();
    assert_eq!(
        progress.turn_error("provider exploded"),
        Some(HostMessage::Rpc(
            Fields::new()
                .with_text("jsonrpc", "2.0")
                .with("id", Json::Int(7))
                .with("error", error)
                .object()
        ))
    );
}

#[test]
fn null_progress_discards_without_panicking_and_sends_nothing() {
    let mut host = NullProgress;
    assert_eq!(host.tool_start("a", "b", &Json::Null), None);
    assert_eq!(host.tool_end("a", "b"), None);
    assert_eq!(host.turn_error("c"), None);
    assert_eq!(host.message_chunk("d"), None);
    assert_eq!(host.tool_allowed("a"), None);
}

#[test]
fn a_summary_is_written_and_the_shorter_history_taken_up() {
    let persistence = TurnPersistence {
        store: StoreKind::CrossDevice,
        session_id: "s".to_string(),
        is_acp: false,
    };
    let turn = TurnLoop::new(
        TurnRules {
            offered: Vec::new(),
            host_access_enabled: false,
            routed_to_client: false,
            round_limit: Some(1),
        },
        scope(),
        Some(persistence),
        vec![ChatMessage::user("one"), ChatMessage::user("two")],
    );
    let mut round = turn.begin_round().unwrap();
    assert_eq!(round.compressed(None), None);
    assert_eq!(round.turn.history.len(), 2);
    assert_eq!(
        round.compressed(Some(CompressionResult {
            compressed: vec![ChatMessage::user("trimmed"), ChatMessage::user("two")],
            summary: None,
            keep_recent: 1,
        })),
        None
    );
    let append = round
        .compressed(Some(CompressionResult {
            compressed: vec![ChatMessage::user("two")],
            summary: Some("one happened".to_string()),
            keep_recent: 1,
        }))
        .unwrap();
    assert_eq!(
        append.record,
        Record::Summary {
            text: "one happened".to_string(),
            keep_recent: 1
        }
    );
    assert_eq!(round.turn.history, vec![ChatMessage::user("two")]);
}

#[test]
fn a_round_is_judged_call_by_call() {
    let turn = TurnLoop::new(
        TurnRules {
            offered: names(&["x", "y"]),
            host_access_enabled: true,
            routed_to_client: false,
            round_limit: None,
        },
        scope(),
        None,
        Vec::new(),
    );
    let round = turn.begin_round().unwrap();
    let tool_use = match round.replied(asks(
        None,
        vec![call("1", "hidden"), call("2", "x"), call("3", "y")],
    )) {
        Reply::Tools(u) => u,
        other => panic!("got {other:?}"),
    };
    assert_eq!(tool_use.append, None);
    let judging = match tool_use.appended(false) {
        GateStep::Judge(j) => j,
        other => panic!("got {other:?}"),
    };
    assert_eq!(judging.call().id, "2");
    let next = match judging.decided(Decision::Allow) {
        Verdict::Settled(Settled::Allowed { id, next }) => {
            assert_eq!(id, "2");
            next
        }
        other => panic!("got {other:?}"),
    };
    let asking = match next {
        GateStep::Judge(j) => match j.decided(Decision::Ask) {
            Verdict::Ask(a) => a,
            other => panic!("got {other:?}"),
        },
        other => panic!("got {other:?}"),
    };
    assert_eq!(asking.call().id, "3");
    let running = match asking.answered(Approval::RejectAlways) {
        Settled::Refused {
            next: GateStep::Execute(r),
        } => r,
        other => panic!("got {other:?}"),
    };
    assert_eq!(running.permitted().len(), 1);
    let refused = running.refused();
    assert_eq!(refused.len(), 2);
    assert_eq!(refused[0].refusal, Refusal::NotOffered);
    assert_eq!(refused[1].refusal, Refusal::UserDeclined);
    let context = running.context();
    assert_eq!(context.session_id, None);
    assert_eq!(context.subagent_depth, 2);
    assert_eq!(context.timer_device, Some("speaker".to_string()));
    assert_eq!(context.admin_room_profile, Some("ops".to_string()));
    assert_eq!(context.visible_tools, names(&["x", "y"]));
}

#[test]
fn a_session_is_served_by_the_model_of_its_room() {
    let mut state = fresh_state();
    let config = config();
    assert_eq!(
        state.provider_for_session(&config, "s"),
        ProviderChoice::Background
    );
    state
        .session_room_profiles
        .insert("s".to_string(), "nowhere".to_string());
    assert_eq!(
        state.provider_for_session(&config, "s"),
        ProviderChoice::Background
    );
    state
        .session_room_profiles
        .insert("s".to_string(), "developer".to_string());
    assert_eq!(
        state.provider_for_session(&config, "s"),
        ProviderChoice::Profile("main".to_string())
    );
}

#[test]
fn a_reserved_identifier_is_used_by_the_first_turn_that_makes_a_file() {
    let mut state = fresh_state();
    let id = Json::Int(1);
    let session = OpeningSession::New {
        session_id: "r".to_string(),
        public_id: "abc1234".to_string(),
    };
    state.handle_initialize(&id, session, "developer", &None);
    let mut ids = Vec::new();
    for session_id in ["other", "r", "r"] {
        let route = state.turn_route(session_id, false, false);
        let opened =
            state.open_turn(&config(), session_id, route, None, ChatMessage::user("hello"));
        ids.push(opened.ensure.expect("the file has to be made").public_id);
    }
    assert_eq!(ids, [None, Some("abc1234".to_string()), None]);
}

/// The calls that a message asks for or answers, by their identifiers, in order.
fn ids_in(message: &ChatMessage, of_uses: bool) -> Vec<String> {
    let mut ids: Vec<String> = message
        .parts
        .iter()
        .filter_map(|p| match p {
            ContentPart::ToolUse { id, .. } if of_uses => Some(id.clone()),
            ContentPart::ToolResult { tool_use_id, .. } if !of_uses => Some(tool_use_id.clone()),
            _ => None,
        })
        .collect();
    ids.sort();
    ids
}

#[test]
fn every_call_of_a_conversation_is_answered_right_after_it() {
    let mut bench = Bench::new(StubProvider::new_scripted(vec![
        Ok(asks(None, vec![call("a", "risky"), call("b", "echo"), call("a", "ghost")])),
        Ok(asks(Some("again"), vec![call("c", "risky")])),
        Err("down".to_string()),
    ]));
    bench.decisions.insert("risky".to_string(), Decision::Deny);
    bench.failing_writes.push(0);
    let ran = run_llm_turn(
        &mut fresh_state(),
        &config(),
        &mut bench,
        &mut NullProgress,
        "s",
        ChatMessage::user("go"),
        None,
        &["risky", "echo"],
    );
    assert_eq!(ran.history.len(), 5);
    for (i, m) in ran.history.iter().enumerate() {
        let asked = ids_in(m, true);
        if !asked.is_empty() {
            assert_eq!(ids_in(&ran.history[i + 1], false), asked);
        }
    }
    assert_eq!(ids_in(&ran.history[1], true), names(&["a", "a", "b"]));
    assert_eq!(ids_in(&ran.history[3], true), names(&["c"]));
    assert_eq!(bench.ran, vec![call("b", "echo")], "what is refused never runs");
}

#[test]
fn a_host_is_told_of_a_round_in_order() {
    let mut bench = Bench::new(StubProvider::new(vec![
        asks(Some("let me see"), vec![call("a", "risky"), call("b", "echo"), call("c", "ghost")]),
        says("done"),
    ]));
    bench.system = Some("be brief".to_string());
    bench.decisions.insert("risky".to_string(), Decision::Ask);
    let ran = run_llm_turn(
        &mut fresh_state(),
        &config(),
        &mut bench,
        &mut row_host(Origin::Acp(SessionMode::Default)),
        "s",
        ChatMessage::user_voice("go"),
        None,
        &["risky", "echo"],
    );
    assert_eq!(
        sent(&bench),
        names(&[
            "chunk let me see",
            "start a",
            "start b",
            "start c",
            "allowed a",
            "allowed b",
            "end a",
            "end b",
            "end c",
            "chunk done"
        ])
    );
    let id = |id: &str| id.to_string();
    assert_eq!(
        bench.course,
        vec![
            Step::Started(id("a")),
            Step::Started(id("b")),
            Step::Started(id("c")),
            Step::Asked(id("a")),
            Step::Allowed(id("a")),
            Step::Allowed(id("b")),
            Step::Ran(id("a")),
            Step::Ran(id("b")),
            Step::Ended(id("a")),
            Step::Ended(id("b")),
            Step::Ended(id("c")),
        ]
    );
    let offered = names(&["risky", "echo"]);
    let ask = (Some("be brief".to_string()), offered);
    assert_eq!(bench.provider.call_log().calls(), vec![ask.clone(), ask]);
    assert_eq!(bench.shown.len(), 2);
    assert_eq!(
        bench.shown[1][0].parts,
        vec![ContentPart::Text("[voice input]\ngo".to_string())],
        "the model is told what was spoken"
    );
    assert_eq!(bench.shown[1][1..], ran.history[1..3]);
    assert_eq!(
        ran.history[0].parts,
        vec![ContentPart::Text("go".to_string())],
        "the conversation keeps what was said"
    );
}

#[test]
fn a_host_is_told_that_the_model_failed() {
    let mut bench = Bench::new(StubProvider::new_scripted(vec![
        Ok(asks(None, vec![call("a", "echo")])),
        Err("down".to_string()),
    ]));
    let ran = run_llm_turn(
        &mut fresh_state(),
        &config(),
        &mut bench,
        &mut row_host(Origin::Acp(SessionMode::Default)),
        "s",
        ChatMessage::user("go"),
        None,
        &["echo"],
    );
    assert_eq!(
        ran.outcome.stop,
        TurnStop::ProviderError {
            message: "down".to_string()
        }
    );
    assert_eq!(
        sent(&bench),
        names(&["start a", "allowed a", "end a", "error down"])
    );
}

#[test]
fn an_empty_system_prompt_is_none() {
    assert_eq!(system_prompt_of(String::new()), None);
    assert_eq!(system_prompt_of(" ".to_string()), Some(" ".to_string()));
}

#[test]
fn a_turn_leaves_the_rest_of_the_script() {
    let mut bench = Bench::new(StubProvider::new(vec![
        asks(None, vec![call("a", "echo")]),
        says("done"),
        says("not yet"),
    ]));
    run_llm_turn(
        &mut fresh_state(),
        &config(),
        &mut bench,
        &mut NullProgress,
        "s",
        ChatMessage::user("go"),
        None,
        &["echo"],
    );
    assert_eq!(bench.provider.call_log().calls().len(), 2);
    match bench.provider.chat(None, &Vec::new()) {
        Chat::Answered(response) => assert_eq!(response.text.as_deref(), Some("not yet")),
        other => panic!("{other:?}"),
    }
    assert!(matches!(
        bench.provider.chat(None, &Vec::new()),
        Chat::Failed(_)
    ));
}
