use sapphire_agent::message::{ChatMessage, ContentPart, Role};
use sapphire_agent::state::{ProjectMeta, ServeState};
use sapphire_agent::table::Table;
use sapphire_agent::terminals::{CapHeld, TerminalRegistry};
use sapphire_agent::title::{title_from, title_prompt, wants_title};

#[test]
fn residency_separates_the_total_from_the_largest_session() {
    let mut state = ServeState::new(&Vec::new(), 4);
    state.put_session("small", vec![ChatMessage::user("hi")]);
    state.put_session(
        "big",
        vec![ChatMessage {
            role: Role::User,
            parts: vec![ContentPart::ToolResult {
                tool_use_id: "c1".to_string(),
                content: "x".repeat(5_000),
            }],
            input_kind: None,
            user_id: None,
        }],
    );
    let r = state.session_residency();
    assert_eq!(r.sessions, 2);
    assert_eq!(r.messages, 2);
    assert_eq!(r.text_bytes, 2, "only the 'hi'");
    assert_eq!(r.tool_result_bytes, 5_000);
    assert_eq!(
        r.largest.as_ref().map(|(id, _)| id.as_str()),
        Some("big"),
        "the largest session is named so one long thread is distinguishable from many short ones"
    );
}

#[test]
fn residency_of_an_empty_map_is_all_zero() {
    let state = ServeState::new(&Vec::new(), 4);
    let r = state.session_residency();
    assert_eq!(r.sessions, 0);
    assert_eq!(r.messages, 0);
    assert_eq!(r.largest, None);
}

#[test]
fn residency_counts_bytes_and_leaves_out_pictures() {
    let mut state = ServeState::new(&Vec::new(), 4);
    state.put_session(
        "s",
        vec![ChatMessage {
            role: Role::User,
            parts: vec![
                ContentPart::Text("h\u{e9}".to_string()),
                ContentPart::Image {
                    media_type: "image/png".to_string(),
                    data_base64: "AAAA".to_string(),
                },
            ],
            input_kind: None,
            user_id: None,
        }],
    );
    let r = state.session_residency();
    assert_eq!(r.text_bytes, 3);
    assert_eq!(r.largest, Some(("s".to_string(), 3)));
}

fn project(session_id: &str, namespace: Option<&str>, project: Option<&str>) -> ProjectMeta {
    ProjectMeta {
        session_id: session_id.to_string(),
        namespace: namespace.map(|n| n.to_string()),
        project: project.map(|p| p.to_string()),
    }
}

#[test]
fn the_latest_session_of_a_project_is_found() {
    let mut state = ServeState::new(
        &vec![
            project("old", Some("ns"), Some("p")),
            project("no-project", Some("ns"), None),
            project("no-namespace", None, Some("p")),
            project("other", Some("ns2"), Some("p")),
            project("new", Some("ns"), Some("p")),
        ],
        4,
    );
    assert_eq!(
        state.mcp_session_for_project("ns", "p"),
        Some("new".to_string())
    );
    assert_eq!(
        state.mcp_session_for_project("ns2", "p"),
        Some("other".to_string())
    );
    assert_eq!(state.mcp_session_for_project("ns", "q"), None);
    assert_eq!(
        state.mcp_session_for_project_or_create("ns", "q", Err("disk full")),
        Err("disk full")
    );
    assert_eq!(state.mcp_session_for_project("ns", "q"), None);
    assert_eq!(
        state.mcp_session_for_project_or_create::<String>("ns", "q", Ok("made".to_string())),
        Ok("made".to_string())
    );
    assert_eq!(
        state.mcp_session_for_project_or_create::<String>("ns", "q", Ok("again".to_string())),
        Ok("made".to_string())
    );
}

#[test]
fn a_table_keeps_one_value_per_key() {
    let mut table: Table<u32> = Table::new();
    table.insert("a".to_string(), 1);
    table.insert("b".to_string(), 2);
    table.insert("a".to_string(), 3);
    assert_eq!(table.len(), 2);
    assert_eq!(table.get("a"), Some(&3));
    assert_eq!(table.key(1), "b");
    assert_eq!(table.value(1), &2);
    assert_eq!(table.remove("a"), Some(3));
    assert_eq!(table.remove("a"), None);
    assert!(!table.contains_key("a"));
    assert!(table.contains_key("b"));
}

#[test]
fn a_session_holds_no_more_terminals_than_it_may() {
    let mut terminals = TerminalRegistry::new(2);
    assert_eq!(terminals.try_reserve_terminal_slot("s"), Ok(()));
    assert!(terminals.track_terminal("s", "t1"));
    assert_eq!(terminals.try_reserve_terminal_slot("s"), Ok(()));
    assert_eq!(
        terminals.try_reserve_terminal_slot("s"),
        Err(CapHeld {
            handles: vec!["t1".to_string()],
            reservations: 1
        })
    );
    assert_eq!(terminals.try_reserve_terminal_slot("other"), Ok(()));
    assert!(terminals.cancel_reservation("s"));
    assert!(!terminals.cancel_reservation("s"));
    assert!(terminals.untrack_terminal("s", "t1"));
    assert!(!terminals.untrack_terminal("s", "t1"));
    assert!(!terminals.track_terminal("s", "t2"), "no slot was taken");
    assert_eq!(terminals.try_reserve_terminal_slot("s"), Ok(()));
}

#[test]
fn titles_are_trimmed_and_cut() {
    assert_eq!(
        title_from(Some("  A title\n".to_string())),
        Some("A title".to_string())
    );
    let long = "\u{3042}".repeat(61);
    assert_eq!(title_from(Some(long)), Some("\u{3042}".repeat(60)));
    assert_eq!(title_from(None), None);
    assert!(wants_title(true, &Some("x".to_string())));
    assert!(!wants_title(true, &None));
    assert!(!wants_title(false, &Some("x".to_string())));
}

#[test]
fn a_title_is_asked_for_with_the_start_of_both_sides() {
    let prompt = title_prompt(&"u".repeat(400), "fine");
    let text = match &prompt.parts[0] {
        ContentPart::Text(t) => t,
        other => panic!("got {other:?}"),
    };
    assert_eq!(
        *text,
        format!(
            "Generate a concise title (max 60 characters) for this conversation. Respond with only the title text \u{2014} no quotes, no punctuation at the end.\n\nUser: {}\nAssistant: fine",
            "u".repeat(300)
        )
    );
}

#[test]
fn residency_is_told_wherever_it_can_be_counted() {
    let mut state = ServeState::new(&Vec::new(), 4);
    state.put_session("s", vec![ChatMessage::user("hi")]);
    assert_eq!(state.try_session_residency(), Some(state.session_residency()));
}

fn open_counts(state: &ServeState) -> Vec<(&str, Option<usize>)> {
    ["a", "b", "c"]
        .into_iter()
        .map(|id| (id, state.open_acp_sessions.get(id).copied()))
        .collect()
}

#[test]
fn a_connection_that_took_up_a_session_twice_gives_it_up_twice() {
    let mut state = ServeState::new(&Vec::new(), 4);
    assert_eq!(state.count_session_open("a"), 1);
    let before = state.open_acp_sessions.get("a").copied();
    let held = vec!["a".to_string(), "b".to_string(), "a".to_string()];
    for id in &held {
        state.count_session_open(id);
    }
    assert_eq!(open_counts(&state), [("a", Some(3)), ("b", Some(1)), ("c", None)]);
    state.release_connection_sessions(&held);
    assert_eq!(before, Some(1));
    assert_eq!(open_counts(&state), [("a", Some(1)), ("b", None), ("c", None)]);
}

#[test]
fn a_session_that_nobody_holds_is_given_up_without_a_trace() {
    let mut state = ServeState::new(&Vec::new(), 4);
    state.count_session_open("a");
    state.release_connection_sessions(&vec!["c".to_string()]);
    assert_eq!(open_counts(&state), [("a", Some(1)), ("b", None), ("c", None)]);
}
