use axum::http::{HeaderMap, HeaderValue};
use sapphire_agent::host::tool_event_params;
use sapphire_agent::json::{Fields, Json};
use sapphire_agent::message::{ChatMessage, ContentPart, Role};
use sapphire_agent::rpc::{
    error_event, error_response, extract_bearer, get_session_id, handle_chat, handle_get_session,
    handle_list_sessions, initialize_lookup, initialize_target, invalid_session_id,
    notification_event, public_id_of, result_event, rpc_credentials, rpc_get, rpc_post, Caller,
    ChatRequest, InitializeTarget, OpeningSession, RpcMethod, SessionMeta,
};
use sapphire_agent::state::{RoomInfo, ServeState};

fn error(id: Json, code: i64, message: &str) -> Json {
    let error = Fields::new()
        .with("code", Json::Int(code))
        .with_text("message", message)
        .object();
    Fields::new()
        .with_text("jsonrpc", "2.0")
        .with("id", id)
        .with("error", error)
        .object()
}

fn params(fields: Fields) -> Option<Json> {
    Some(fields.object())
}

#[test]
fn extract_bearer_accepts_both_cases_and_trims() {
    let mut h = HeaderMap::new();
    h.insert("authorization", HeaderValue::from_static("Bearer  tok-1 "));
    assert_eq!(extract_bearer(&h), Some("tok-1".to_string()));

    let mut h = HeaderMap::new();
    h.insert("authorization", HeaderValue::from_static("bearer tok-2"));
    assert_eq!(extract_bearer(&h), Some("tok-2".to_string()));
}

#[test]
fn extract_bearer_rejects_missing_wrong_scheme_and_empty() {
    assert_eq!(extract_bearer(&HeaderMap::new()), None);

    let mut h = HeaderMap::new();
    h.insert("authorization", HeaderValue::from_static("Basic tok"));
    assert_eq!(extract_bearer(&h), None);

    let mut h = HeaderMap::new();
    h.insert("authorization", HeaderValue::from_static("Bearer   "));
    assert_eq!(extract_bearer(&h), None);
}

#[test]
fn a_header_that_is_no_text_is_no_header() {
    let mut h = HeaderMap::new();
    h.insert(
        "authorization",
        HeaderValue::from_bytes(b"Bearer tok\xff").unwrap(),
    );
    assert_eq!(extract_bearer(&h), None);
}

#[test]
fn credentials_are_the_token_and_the_session() {
    let mut h = HeaderMap::new();
    h.insert("Session-Id", HeaderValue::from_static("sid"));
    let refused = rpc_credentials(&h).unwrap_err();
    assert_eq!(refused.status, 401);
    assert_eq!(refused.text, "missing bearer token");
    h.insert("Authorization", HeaderValue::from_static("Bearer t"));
    let c = rpc_credentials(&h).unwrap();
    assert_eq!(c.bearer, "t");
    assert_eq!(c.session_id, Some("sid".to_string()));
}

fn caller() -> Caller {
    Caller {
        room_profile: "developer".to_string(),
        device_id: "dev-1".to_string(),
    }
}

#[test]
fn requests_are_routed_by_method() {
    for (name, method) in [
        ("initialize", RpcMethod::Initialize),
        ("chat", RpcMethod::Chat),
        ("list_sessions", RpcMethod::ListSessions),
        ("get_session", RpcMethod::GetSession),
        ("voice/config", RpcMethod::VoiceConfig),
        ("voice/pipeline_run", RpcMethod::VoicePipelineRun),
        ("voice/subscribe", RpcMethod::VoiceSubscribe),
    ] {
        assert_eq!(
            rpc_post(&Json::Int(1), name, Some(caller())),
            Ok((method, caller()))
        );
    }
    assert_eq!(
        rpc_post(&Json::Int(1), "nope", Some(caller())),
        Err(error(Json::Int(1), -32601, "Method not found"))
    );
    assert_eq!(
        rpc_post(&Json::Null, "chat", None),
        Err(error(Json::Null, -32001, "unknown or revoked bearer token"))
    );
    assert_eq!(rpc_get().status, 405);
}

#[test]
fn envelopes_have_the_shape_of_json_rpc() {
    let id = Json::Text("x".to_string());
    assert_eq!(
        error_response(&id, -1, "m"),
        error(Json::Text("x".to_string()), -1, "m")
    );
    assert_eq!(error_event(&id, -1, "m"), error_response(&id, -1, "m"));
    assert_eq!(
        result_event(&id, Json::Bool(true)),
        Fields::new()
            .with_text("jsonrpc", "2.0")
            .with_text("id", "x")
            .with("result", Json::Bool(true))
            .object()
    );
    assert_eq!(
        notification_event("n", Json::Null),
        Fields::new()
            .with_text("jsonrpc", "2.0")
            .with_text("method", "n")
            .with("params", Json::Null)
            .object()
    );
}

#[test]
fn tool_event_params_pins_the_wire_field_names() {
    assert_eq!(
        tool_event_params("call-1", "recall"),
        Fields::new()
            .with_text("id", "call-1")
            .with_text("name", "recall")
            .object()
    );
}

#[test]
fn a_session_is_named_by_header_or_short_id() {
    let given = |id: &str| params(Fields::new().with_text("session_id", id));
    assert_eq!(
        initialize_target(Some("uuid".to_string()), &given("abc1234")),
        InitializeTarget::Session("uuid".to_string())
    );
    assert_eq!(
        initialize_target(None, &given("abc1234")),
        InitializeTarget::Lookup("abc1234".to_string())
    );
    assert_eq!(
        initialize_target(None, &given("new")),
        InitializeTarget::Fresh
    );
    assert_eq!(initialize_target(None, &None), InitializeTarget::Fresh);
    assert_eq!(
        initialize_target(None, &params(Fields::new().with("session_id", Json::Int(7)))),
        InitializeTarget::Fresh
    );
    assert_eq!(
        initialize_target(None, &given("abc12345")),
        InitializeTarget::Invalid
    );
    assert_eq!(
        initialize_target(None, &given("abc12\u{e9}")),
        InitializeTarget::Lookup("abc12\u{e9}".to_string()),
        "the length is counted in bytes"
    );
    assert_eq!(
        invalid_session_id(&Json::Int(2)),
        error(
            Json::Int(2),
            -32602,
            "Invalid session id (expected 7-char grain-id)"
        )
    );
    assert_eq!(
        initialize_lookup(&Json::Int(2), None),
        Err(error(Json::Int(2), -32602, "Session not found"))
    );
    assert_eq!(
        initialize_lookup(&Json::Int(2), Some("u".to_string())),
        Ok("u".to_string())
    );
}

#[test]
fn a_new_session_gets_fresh_identifiers() {
    let (session_id, public_id) = match OpeningSession::fresh(None) {
        OpeningSession::New {
            session_id,
            public_id,
        } => (session_id, public_id),
        other => panic!("got {other:?}"),
    };
    assert_eq!(session_id.len(), 36);
    assert_eq!(session_id.as_bytes()[14], b'7', "a version 7 identifier");
    assert_eq!(public_id.len(), 7);
    assert_eq!(
        initialize_target(
            None,
            &params(Fields::new().with_text("session_id", &public_id))
        ),
        InitializeTarget::Lookup(public_id)
    );
    match OpeningSession::fresh(Some("mine".to_string())) {
        OpeningSession::New { session_id, .. } => assert_eq!(session_id, "mine"),
        other => panic!("got {other:?}"),
    }
}

#[test]
fn a_named_session_is_opened_where_it_is_kept() {
    let listing = vec![meta("a", Some("abc1234"), None)];
    assert_eq!(
        OpeningSession::open(Some("a".to_string()), true, &listing, Some(Vec::new())),
        OpeningSession::Existing {
            session_id: "a".to_string(),
            public_id: Some("abc1234".to_string()),
            loaded: Some(Vec::new()),
        }
    );
    match OpeningSession::open(Some("a".to_string()), false, &listing, None) {
        OpeningSession::New {
            session_id,
            public_id,
        } => {
            assert_eq!(session_id, "a");
            assert_ne!(public_id, "abc1234");
        }
        other => panic!("got {other:?}"),
    }
    assert!(matches!(
        OpeningSession::open(None, false, &listing, None),
        OpeningSession::New { .. }
    ));
}

#[test]
fn initialize_reserves_pins_and_notes() {
    let mut state = ServeState::new(&Vec::new(), 4);
    let device = Fields::new()
        .with_text("name", "living-room-speaker")
        .with_text("description", "on the shelf")
        .object();
    let (id, body) = state.handle_initialize(
        &Json::Int(1),
        OpeningSession::New {
            session_id: "s1".to_string(),
            public_id: "abc1234".to_string(),
        },
        "developer",
        &params(Fields::new().with("device", device)),
    );
    assert_eq!(id, "s1");
    let result = Fields::new()
        .with_text("session_id", "s1")
        .with("is_new", Json::Bool(true))
        .with_text("public_id", "abc1234")
        .with_text("room_profile", "developer")
        .object();
    assert_eq!(body, result_event(&Json::Int(1), result));
    assert_eq!(
        state.pending_sessions.get("s1"),
        Some(&"abc1234".to_string())
    );
    assert_eq!(state.room_profile("s1"), Some("developer".to_string()));
    assert_eq!(
        state.session_room_metadata.get("s1"),
        Some(&RoomInfo {
            name: "voice channel with living-room-speaker".to_string(),
            description: Some("on the shelf".to_string()),
            kind: "voice".to_string(),
        })
    );
    assert!(!state.sessions.contains_key("s1"));
}

#[test]
fn initialize_brings_a_kept_session_into_memory_once() {
    let mut state = ServeState::new(&Vec::new(), 4);
    let open = |loaded| OpeningSession::Existing {
        session_id: "s1".to_string(),
        public_id: None,
        loaded,
    };
    let nameless = params(Fields::new().with("device", Fields::new().object()));
    let (_, body) = state.handle_initialize(
        &Json::Int(1),
        open(Some(vec![ChatMessage::user("hi")])),
        "developer",
        &nameless,
    );
    let result = Fields::new()
        .with_text("session_id", "s1")
        .with("is_new", Json::Bool(false))
        .with_text("room_profile", "developer")
        .object();
    assert_eq!(body, result_event(&Json::Int(1), result));
    assert_eq!(state.sessions.get("s1").unwrap().len(), 1);
    assert!(state.session_room_metadata.get("s1").is_none());
    state.handle_initialize(&Json::Int(2), open(None), "other", &None);
    assert_eq!(state.sessions.get("s1").unwrap().len(), 1);
    assert_eq!(state.room_profile("s1"), Some("other".to_string()));
    assert!(!state.pending_sessions.contains_key("s1"));
}

#[test]
fn a_chat_needs_a_session_and_content() {
    let id = Json::Int(1);
    let content = params(Fields::new().with_text("content", "hello"));
    assert_eq!(
        handle_chat(&id, &content, None),
        Err(error(Json::Int(1), -32602, "Missing Session-Id header"))
    );
    assert_eq!(
        handle_chat(&id, &None, Some("s".to_string())),
        Err(error(Json::Int(1), -32602, "Missing params.content"))
    );
    assert_eq!(
        handle_chat(&id, &content, Some("s".to_string())),
        Ok(ChatRequest {
            session_id: "s".to_string(),
            content: "hello".to_string(),
            want_audio: false,
        })
    );
}

#[test]
fn sound_is_wanted_where_it_is_among_the_modalities() {
    let wants = |modalities: Json| {
        handle_chat(
            &Json::Null,
            &params(
                Fields::new()
                    .with_text("content", "x")
                    .with("modalities", modalities),
            ),
            Some("s".to_string()),
        )
        .unwrap()
        .want_audio
    };
    let text = |t: &str| Json::Text(t.to_string());
    assert!(wants(Json::array(vec![text("text"), text("audio")])));
    assert!(!wants(Json::array(vec![text("text"), text("smell")])));
    assert!(!wants(Json::array(vec![Json::Int(1)])));
    assert!(!wants(text("audio")));
}

fn meta(id: &str, public_id: Option<&str>, title: Option<&str>) -> SessionMeta {
    SessionMeta {
        session_id: id.to_string(),
        created_at: "2026-01-01T00:00:00Z".to_string(),
        public_id: public_id.map(|p| p.to_string()),
        title: title.map(|t| t.to_string()),
    }
}

#[test]
fn sessions_are_listed_with_what_they_have() {
    let metas = vec![
        meta("a", Some("abc1234"), Some("A")),
        meta("b", None, None),
    ];
    let a = Fields::new()
        .with_text("session_id", "a")
        .with_text("created_at", "2026-01-01T00:00:00Z")
        .with_text("public_id", "abc1234")
        .with_text("title", "A")
        .object();
    let b = Fields::new()
        .with_text("session_id", "b")
        .with_text("created_at", "2026-01-01T00:00:00Z")
        .object();
    let result = Fields::new()
        .with("sessions", Json::array(vec![a, b]))
        .object();
    assert_eq!(
        handle_list_sessions(&Json::Int(1), &metas),
        result_event(&Json::Int(1), result)
    );
    assert_eq!(public_id_of(&metas, "a"), Some("abc1234".to_string()));
    assert_eq!(public_id_of(&metas, "b"), None);
    assert_eq!(public_id_of(&metas, "c"), None);
}

#[test]
fn get_session_returns_the_full_record_even_past_a_checkpoint() {
    assert_eq!(
        get_session_id(&Json::Int(1), Some("get-session-full".to_string())),
        Ok("get-session-full".to_string())
    );
    let body = handle_get_session(
        &Json::Int(1),
        &vec![
            ChatMessage::user("first"),
            ChatMessage::assistant("second"),
            ChatMessage::user("third"),
        ],
    );
    let messages = match body.get("result").and_then(|r| r.get("messages")) {
        Some(Json::Array(items)) => items,
        other => panic!("got {other:?}"),
    };
    assert_eq!(messages.len(), 3);
    let shown = Fields::new()
        .with_text("role", "assistant")
        .with(
            "parts",
            Json::array(vec![Fields::new()
                .with_text("type", "text")
                .with_text("text", "second")
                .object()]),
        )
        .object();
    assert_eq!(messages[1], shown);
}

#[test]
fn every_kind_of_part_is_shown_in_its_own_shape() {
    let text = |s: &str| s.to_string();
    let body = handle_get_session(
        &Json::Null,
        &vec![ChatMessage {
            role: Role::User,
            parts: vec![
                ContentPart::Image {
                    media_type: text("image/png"),
                    data_base64: text("PICTURE-BYTES"),
                },
                ContentPart::ImageRef {
                    media_type: text("image/png"),
                    sha256: text("aa"),
                },
                ContentPart::ToolUse {
                    id: text("c"),
                    name: text("n"),
                    input: Json::Int(3),
                },
                ContentPart::ToolUseRef {
                    id: text("c"),
                    name: text("n"),
                    sha256: text("bb"),
                },
                ContentPart::ToolResult {
                    tool_use_id: text("c"),
                    content: text("out"),
                },
                ContentPart::ToolResultRef {
                    tool_use_id: text("c"),
                    sha256: text("cc"),
                },
            ],
            input_kind: None,
            user_id: None,
        }],
    );
    assert!(!format!("{body:?}").contains("PICTURE-BYTES"));
    let part = |fields: &[(&str, &str)]| {
        fields
            .iter()
            .fold(Fields::new(), |f, (k, v)| f.with_text(k, v))
    };
    let parts = vec![
        part(&[("type", "image"), ("media_type", "image/png")]).object(),
        part(&[
            ("type", "image"),
            ("media_type", "image/png"),
            ("sha256", "aa"),
        ])
        .object(),
        part(&[("type", "tool_use"), ("id", "c"), ("name", "n")])
            .with("input", Json::Int(3))
            .object(),
        part(&[
            ("type", "tool_use"),
            ("id", "c"),
            ("name", "n"),
            ("sha256", "bb"),
        ])
        .object(),
        part(&[
            ("type", "tool_result"),
            ("tool_use_id", "c"),
            ("content", "out"),
        ])
        .object(),
        part(&[
            ("type", "tool_result"),
            ("tool_use_id", "c"),
            ("sha256", "cc"),
        ])
        .object(),
    ];
    let message = Fields::new()
        .with_text("role", "user")
        .with("parts", Json::array(parts))
        .object();
    let result = Fields::new()
        .with("messages", Json::array(vec![message]))
        .object();
    assert_eq!(body, result_event(&Json::Null, result));
    assert_eq!(
        get_session_id(&Json::Null, None),
        Err(error(Json::Null, -32602, "Missing Session-Id header"))
    );
}
