use sapphire_agent::frames::{
    accept_frame, keepalive_period, settle, write_frames, Reassembler, WireFrame, WriterAction,
    WriterEvent, MAX_REASSEMBLY_BYTES, NULL_ID_ERROR_RESPONSE_PREFIX,
};

fn reassemble(frames: Vec<Result<String, String>>) -> Vec<Result<String, String>> {
    let mut r = Reassembler::new();
    frames.into_iter().filter_map(|f| r.frame(f)).collect()
}

fn lines(frames: &[&str]) -> Vec<String> {
    reassemble(frames.iter().map(|f| Ok(f.to_string())).collect())
        .into_iter()
        .map(|l| l.unwrap())
        .collect()
}

#[test]
fn a_frame_that_already_parses_passes_through_unchanged() {
    let line = r#"{"jsonrpc":"2.0","id":1,"method":"session/cancel"}"#;
    assert_eq!(lines(&[line]), [line.to_string()]);
}

#[test]
fn a_message_split_across_frames_is_reassembled_into_one_line() {
    let full = r#"{"jsonrpc":"2.0","id":1,"result":{"content":"line one\nline two"}}"#.to_string();
    let (first, second) = full.split_at(30);
    let out = lines(&[first, second]);
    assert_eq!(out.len(), 1);
    assert_eq!(out[0], full);
    assert_eq!(
        serde_json::from_str::<serde_json::Value>(&out[0]).unwrap(),
        serde_json::from_str::<serde_json::Value>(&full).unwrap()
    );
}

#[test]
fn a_message_split_across_three_frames_is_reassembled_into_one_line() {
    let full = r#"{"jsonrpc":"2.0","id":1,"result":{"content":"one\ntwo\nthree"}}"#;
    let a = &full[..20];
    let b = &full[20..45];
    let c = &full[45..];
    assert_eq!(lines(&[a, b, c]), [full.to_string()]);
}

#[test]
fn a_frame_that_is_invalid_rather_than_incomplete_is_not_held_back() {
    assert_eq!(
        lines(&["[1, 2,]", "next"]),
        ["[1, 2,]".to_string(), "next".to_string()]
    );
}

#[test]
fn a_transport_error_flushes_any_held_fragment_and_passes_through() {
    let out = reassemble(vec![
        Ok(r#"{"jsonrpc":"2.0","#.to_string()),
        Err("peer gone".to_string()),
    ]);
    assert_eq!(out.len(), 1);
    assert!(out[0].is_err());
}

#[test]
fn what_follows_a_transport_error_starts_afresh() {
    let out = reassemble(vec![
        Ok("[1,".to_string()),
        Err("gone".to_string()),
        Ok("[2]".to_string()),
    ]);
    assert_eq!(out, vec![Err("gone".to_string()), Ok("[2]".to_string())]);
}

#[test]
fn a_value_that_never_ends_is_handed_on_at_the_limit() {
    let mut r = Reassembler::new();
    let mut first = String::from("\"");
    first.push_str(&"x".repeat(MAX_REASSEMBLY_BYTES - 2));
    assert!(r.frame::<String>(Ok(first)).is_none());
    let out = r.frame::<String>(Ok("y".to_string())).unwrap().unwrap();
    assert_eq!(out.len(), MAX_REASSEMBLY_BYTES);
    assert!(out.ends_with("xy"));
}

#[test]
fn null_id_error_response_is_dropped_without_a_reply() {
    let echo =
        r#"{"jsonrpc":"2.0","id":null,"error":{"code":-32700,"message":"Parse error"}}"#;
    assert!(echo.starts_with(NULL_ID_ERROR_RESPONSE_PREFIX));
    assert_eq!(
        accept_frame::<String>(WireFrame::Text(echo.to_string())),
        None
    );
    let answer = r#"{"jsonrpc":"2.0","id":1,"error":{"code":-32700,"message":"Parse error"}}"#;
    assert_eq!(
        accept_frame::<String>(WireFrame::Text(answer.to_string())),
        Some(Ok(answer.to_string()))
    );
}

#[test]
fn binary_frames_are_ignored() {
    for frame in [
        WireFrame::Binary,
        WireFrame::Ping,
        WireFrame::Pong,
        WireFrame::Close,
    ] {
        assert_eq!(accept_frame::<String>(frame), None);
    }
    assert_eq!(
        accept_frame(WireFrame::Failed("reset".to_string())),
        Some(Err("reset".to_string()))
    );
}

#[test]
fn the_keepalive_keeps_pinging() {
    for _ in 0..3 {
        assert_eq!(write_frames(WriterEvent::Quiet), WriterAction::Ping);
    }
    assert_eq!(
        write_frames(WriterEvent::Line("{}".to_string())),
        WriterAction::Text("{}".to_string())
    );
    assert_eq!(write_frames(WriterEvent::Finished), WriterAction::Close);
}

#[test]
fn keepalive_zero_sends_no_pings() {
    assert_eq!(keepalive_period(0), None);
    assert_eq!(keepalive_period(30), Some(30));
}

#[test]
fn what_is_held_depends_on_how_the_text_reads() {
    let whole = || "[1,".to_string();
    assert_eq!(settle(whole(), Err(true)), (None, whole()));
    assert_eq!(settle(whole(), Err(false)), (Some(whole()), String::new()));
    assert_eq!(settle(whole(), Ok(())), (Some(whole()), String::new()));
    let long = "x".repeat(MAX_REASSEMBLY_BYTES);
    assert_eq!(settle(long.clone(), Err(true)), (Some(long), String::new()));
}

fn frames_of(items: &[Result<&str, &str>]) -> Vec<Result<String, String>> {
    items
        .iter()
        .map(|i| match i {
            Ok(t) => Ok(t.to_string()),
            Err(e) => Err(e.to_string()),
        })
        .collect()
}

#[test]
fn whole_frames_pass_through_between_failures() {
    let items = frames_of(&[Ok("{}"), Err("a"), Err("b"), Ok("[1]"), Ok("2"), Err("c")]);
    assert_eq!(reassemble(items.clone()), items);
}

#[test]
fn putting_together_twice_is_putting_together_once() {
    let items = frames_of(&[
        Ok("{\"a\":"),
        Ok("1}"),
        Ok("[1, 2,]"),
        Ok("[3,"),
        Err("gone"),
        Ok("[4"),
        Ok(",5]"),
        Ok("[6"),
    ]);
    let once = reassemble(items);
    assert_eq!(
        once,
        frames_of(&[Ok("{\"a\":1}"), Ok("[1, 2,]"), Err("gone"), Ok("[4,5]")])
    );
    assert_eq!(reassemble(once.clone()), once);
}

#[test]
fn no_character_is_lost_on_the_way() {
    let frames = ["{\"a\"", ":1}", "[1]", "nonsense", "[2", ",3"];
    let mut held = Reassembler::new();
    let mut out = String::new();
    for f in frames {
        if let Some(line) = held.frame::<String>(Ok(f.to_string())) {
            out.push_str(&line.unwrap());
        }
    }
    let rest = held.frame::<String>(Ok("]".to_string())).unwrap().unwrap();
    assert_eq!(rest, "[2,3]");
    assert_eq!(out + &rest, frames.concat() + "]");
}
