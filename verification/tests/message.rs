use sapphire_agent::json::{Fields, Json};
use sapphire_agent::message::{
    apply_input_kind_label, label_history, ChatMessage, ContentPart, Role, ToolCall, ToolImage,
    ToolOutput, UserInputKind,
};

#[test]
fn apply_label_passes_text_through_unchanged() {
    let msg = ChatMessage::user("hello");
    let labeled = apply_input_kind_label(msg.clone());
    assert_eq!(labeled.parts.len(), 1);
    match &labeled.parts[0] {
        ContentPart::Text(s) => assert_eq!(s, "hello"),
        _ => panic!("expected Text part"),
    }
}

#[test]
fn apply_label_passes_none_input_kind_through_unchanged() {
    let msg = ChatMessage {
        role: Role::User,
        parts: vec![ContentPart::Text("hi".to_string())],
        input_kind: None,
        user_id: None,
    };
    let labeled = apply_input_kind_label(msg);
    match &labeled.parts[0] {
        ContentPart::Text(s) => assert_eq!(s, "hi"),
        _ => panic!("expected Text part"),
    }
}

#[test]
fn apply_label_voice_prefixes_first_text_part() {
    let msg = ChatMessage::user_voice("what's the weather");
    let labeled = apply_input_kind_label(msg);
    match &labeled.parts[0] {
        ContentPart::Text(s) => {
            assert!(s.starts_with("[voice input]\n"), "got: {s}");
            assert!(s.ends_with("what's the weather"));
        }
        _ => panic!("expected Text part"),
    }
}

#[test]
fn apply_label_voice_inserts_label_when_no_text_part_present() {
    let msg = ChatMessage {
        role: Role::User,
        parts: vec![ContentPart::Image {
            media_type: "image/png".to_string(),
            data_base64: "AAAA".to_string(),
        }],
        input_kind: Some(UserInputKind::Voice),
        user_id: None,
    };
    let labeled = apply_input_kind_label(msg);
    assert_eq!(labeled.parts.len(), 2);
    match &labeled.parts[0] {
        ContentPart::Text(s) => assert_eq!(s, "[voice input]"),
        _ => panic!("expected inserted Text part"),
    }
    assert!(matches!(labeled.parts[1], ContentPart::Image { .. }));
}

#[test]
fn only_the_first_text_of_a_spoken_message_is_labelled() {
    let msg = ChatMessage {
        role: Role::User,
        parts: vec![
            ContentPart::ImageRef {
                media_type: "image/png".to_string(),
                sha256: "00".to_string(),
            },
            ContentPart::Text("one".to_string()),
            ContentPart::Text("two".to_string()),
        ],
        input_kind: Some(UserInputKind::Voice),
        user_id: Some("u1".to_string()),
    };
    let labeled = apply_input_kind_label(msg);
    assert_eq!(labeled.parts.len(), 3);
    assert!(matches!(labeled.parts[0], ContentPart::ImageRef { .. }));
    assert_eq!(
        labeled.parts[1],
        ContentPart::Text("[voice input]\none".to_string())
    );
    assert_eq!(labeled.parts[2], ContentPart::Text("two".to_string()));
    assert_eq!(labeled.user_id, Some("u1".to_string()));
}

#[test]
fn a_history_is_labelled_message_by_message() {
    let shown = label_history(vec![
        ChatMessage::user("typed"),
        ChatMessage::user_voice("spoken"),
        ChatMessage::assistant("answer"),
    ]);
    assert_eq!(shown[0].parts, ChatMessage::user("typed").parts);
    assert_eq!(
        shown[1].parts,
        vec![ContentPart::Text("[voice input]\nspoken".to_string())]
    );
    assert_eq!(shown[2], ChatMessage::assistant("answer"));
}

#[test]
fn tool_messages_hold_one_part_per_call_and_the_pictures_last() {
    let call = ToolCall {
        id: "c1".to_string(),
        name: "look".to_string(),
        input: Fields::new().with_text("at", "it").object(),
    };
    let asked = ChatMessage::assistant_with_tools(Some("see".to_string()), vec![call.clone()]);
    assert_eq!(asked.role, Role::Assistant);
    assert_eq!(
        asked.parts,
        vec![
            ContentPart::Text("see".to_string()),
            ContentPart::ToolUse {
                id: "c1".to_string(),
                name: "look".to_string(),
                input: Fields::new().with_text("at", "it").object(),
            },
        ]
    );
    let silent = ChatMessage::assistant_with_tools(None, vec![call]);
    assert_eq!(silent.parts.len(), 1);

    let answered = ChatMessage::round_results(vec![
        (
            "c1".to_string(),
            ToolOutput {
                text: "a".to_string(),
                images: vec![ToolImage {
                    media_type: "image/png".to_string(),
                    data_base64: "AA==".to_string(),
                }],
            },
        ),
        ("c2".to_string(), ToolOutput::plain("b".to_string())),
    ]);
    assert_eq!(answered.role, Role::User);
    assert_eq!(
        answered.parts,
        vec![
            ContentPart::ToolResult {
                tool_use_id: "c1".to_string(),
                content: "a".to_string(),
            },
            ContentPart::ToolResult {
                tool_use_id: "c2".to_string(),
                content: "b".to_string(),
            },
            ContentPart::Image {
                media_type: "image/png".to_string(),
                data_base64: "AA==".to_string(),
            },
        ]
    );
}

#[test]
fn json_trees_are_read_and_copied() {
    let tree = Fields::new()
        .with("null", Json::Null)
        .with("flag", Json::Bool(true))
        .with("n", Json::Int(-5))
        .with("big", Json::Number("1e400".to_string()))
        .with(
            "list",
            Json::array(vec![Json::Text("x".to_string()), Json::Int(1)]),
        )
        .with_text("name", "first")
        .with_text("name", "second")
        .object();
    assert_eq!(tree.copy(), tree);
    assert_eq!(tree.get_str("name"), Some("first"));
    assert_eq!(tree.get_str("flag"), None);
    assert_eq!(tree.get("n"), Some(&Json::Int(-5)));
    assert_eq!(tree.get("missing"), None);
    assert_eq!(Json::Null.get("name"), None);
}
