use sapphire_agent::audio;
use sapphire_agent::host::{HostMessage, SseProgress, TurnHost};
use sapphire_agent::json::{Fields, Json};
use sapphire_agent::message::{ContentPart, Role};
use sapphire_agent::policy::ToolRounds;
use sapphire_agent::rpc::{error_event, notification_event, result_event, Caller};
use sapphire_agent::speech::{
    chat_answer, chat_tts_finished, injected_message, run_turn, run_voice_turn,
    run_voice_turn_from_text_sse, stream_chat_tts, transcribed, PushJob, Speaking, SynthesisEnd,
    Thinking, VoicePushError,
};
use sapphire_agent::state::{
    RoomProfile, ServeState, ServerConfig, VoicePipeline, VoiceRegistry,
};
use sapphire_agent::table::Table;
use sapphire_agent::turn_loop::TurnStop;
use sapphire_agent::voice::{
    handle_voice_config, handle_voice_pipeline_run, hex_text, translate_voice_push,
    wake_word_path, wake_word_path_in, VoicePushItem, WakeWordFile,
};

const ROOM: &str = "kitchen";

fn config(stt: &[&str], tts: &[&str]) -> ServerConfig {
    let list = |names: &[&str]| names.iter().map(|n| n.to_string()).collect();
    let mut room_profiles = Table::new();
    room_profiles.insert(
        ROOM.to_string(),
        RoomProfile {
            profile: "main".to_string(),
            namespace: "home".to_string(),
            voice_pipeline: Some(VoicePipeline {
                stt_provider: "ears".to_string(),
                tts_provider: "mouth".to_string(),
                language: Some("ja".to_string()),
            }),
        },
    );
    room_profiles.insert(
        "silent".to_string(),
        RoomProfile {
            profile: "main".to_string(),
            namespace: "home".to_string(),
            voice_pipeline: None,
        },
    );
    ServerConfig {
        host_access_enabled: false,
        tool_rounds: ToolRounds::default(),
        room_profiles,
        skill_namespaces: Table::new(),
        default_namespace: "default".to_string(),
        wake_word_model: None,
        voice: Some(VoiceRegistry {
            stt: list(stt),
            tts: list(tts),
        }),
    }
}

fn full_config() -> ServerConfig {
    config(&["ears"], &["mouth"])
}

fn state_in(room: &str) -> ServeState {
    let mut state = ServeState::new(&Vec::new(), 4);
    state.pin_room("s", room);
    state
}

fn id() -> Json {
    Json::Int(9)
}

fn progress(fields: Fields) -> Json {
    notification_event("notifications/progress", fields.object())
}

fn stage(stage: &str, status: &str) -> Json {
    progress(
        Fields::new()
            .with_text("kind", "stage")
            .with_text("stage", stage)
            .with_text("status", status),
    )
}

fn told(kind: &str, key: &str, value: &str) -> Json {
    progress(Fields::new().with_text("kind", kind).with_text(key, value))
}

fn caller() -> Caller {
    Caller {
        room_profile: ROOM.to_string(),
        device_id: "dev-1".to_string(),
    }
}

#[test]
fn voice_subscribe_rejects_a_device_id_that_disagrees_with_the_token() {
    let mut state = ServeState::new(&Vec::new(), 4);
    let body = state
        .handle_voice_subscribe(
            &Json::Null,
            &Some(
                Fields::new()
                    .with_text("device_id", "not-the-authenticated-device")
                    .object(),
            ),
            &caller(),
            1,
        )
        .unwrap_err();
    let error = body.get("error").unwrap();
    assert_eq!(error.get("code"), Some(&Json::Int(-32602)));
    assert!(error.get_str("message").unwrap().contains("does not match"));
    assert!(!state
        .voice_subscribers
        .contains_key("not-the-authenticated-device"));
    assert_eq!(state.voice_subscribers.len(), 0);
}

#[test]
fn a_satellite_that_comes_back_replaces_itself() {
    let mut state = ServeState::new(&Vec::new(), 4);
    let params = Some(Fields::new().with_text("device_id", "dev-1").object());
    assert_eq!(
        state.handle_voice_subscribe(&id(), &params, &caller(), 1),
        Ok("dev-1".to_string())
    );
    assert_eq!(
        state.handle_voice_subscribe(&id(), &params, &caller(), 2),
        Ok("dev-1".to_string())
    );
    assert!(!state.unsubscribe_voice("dev-1", 1), "a newer one stands");
    assert_eq!(state.voice_subscribers.get("dev-1").unwrap().channel, 2);
    assert!(state.unsubscribe_voice("dev-1", 2));
    assert!(!state.voice_subscribers.contains_key("dev-1"));
    assert_eq!(
        state.handle_voice_subscribe(&id(), &None, &caller(), 3),
        Err(error_event(&id(), -32602, "Missing params.device_id"))
    );
}

#[test]
fn a_wake_word_is_sent_with_its_digest() {
    assert_eq!(
        handle_voice_config(&id(), None),
        result_event(&id(), Fields::new().object())
    );
    let model = |name: &str| {
        let model = Fields::new()
            .with_text("format", "onnx_inline")
            .with_text("filename", name)
            .with_text(
                "sha256",
                "ba7816bf8f01cfea414140de5dae2223b00361a396177a9cb410ff61f20015ad",
            )
            .with_text("data_b64", "YWJj")
            .object();
        result_event(&id(), Fields::new().with("wake_word_model", model).object())
    };
    let file = |filename: Option<&str>| {
        Some(WakeWordFile {
            path: "/m/hey.onnx".to_string(),
            content: Ok((b"abc".to_vec(), filename.map(|f| f.to_string()))),
        })
    };
    assert_eq!(
        handle_voice_config(&id(), file(Some("hey.onnx"))),
        model("hey.onnx")
    );
    assert_eq!(handle_voice_config(&id(), file(None)), model("wake.onnx"));
    assert_eq!(
        handle_voice_config(
            &id(),
            Some(WakeWordFile {
                path: "/m/x".to_string(),
                content: Err("not found".to_string()),
            })
        ),
        error_event(
            &id(),
            -32603,
            "voice.wake_word_model '/m/x' could not be read: not found"
        )
    );
    assert_eq!(hex_text(&vec![0x00, 0x0f, 0xa0, 0xff]), "000fa0ff");
}

#[test]
fn a_path_without_a_tilde_is_taken_as_it_is() {
    let mut config = full_config();
    assert_eq!(wake_word_path(&config), None);
    config.wake_word_model = Some("/models/hey~.onnx".to_string());
    assert_eq!(
        wake_word_path(&config),
        Some("/models/hey~.onnx".to_string())
    );
    config.wake_word_model = Some("~someone/hey.onnx".to_string());
    assert_eq!(
        wake_word_path(&config),
        Some("~someone/hey.onnx".to_string())
    );
    config.wake_word_model = Some("~/hey.onnx".to_string());
    assert_eq!(
        wake_word_path(&config),
        Some(shellexpand::tilde("~/hey.onnx").into_owned())
    );
}

#[test]
fn a_tilde_stands_for_the_home_directory() {
    let mut config = full_config();
    let home = Some("/home/me".to_string());
    assert_eq!(wake_word_path_in(&config, &home), None);
    for (path, resolved) in [
        ("~", "/home/me"),
        ("~/hey.onnx", "/home/me/hey.onnx"),
        ("~me/hey.onnx", "~me/hey.onnx"),
        ("/m/~/hey.onnx", "/m/~/hey.onnx"),
        ("", ""),
    ] {
        config.wake_word_model = Some(path.to_string());
        assert_eq!(wake_word_path_in(&config, &home), Some(resolved.to_string()));
        assert_eq!(wake_word_path_in(&config, &None), Some(path.to_string()));
        assert_eq!(
            wake_word_path(&config),
            Some(shellexpand::tilde(path).into_owned())
        );
    }
}

#[test]
fn a_file_goes_by_the_last_part_of_its_path() {
    for (path, name) in [
        ("/m/hey.onnx", Some("hey.onnx")),
        ("hey.onnx", Some("hey.onnx")),
        ("m//hey/", Some("hey")),
        ("/m/hey/.", Some("hey")),
        ("/m/hey/.//", Some("hey")),
        ("/m/...", Some("...")),
        ("/m/..", None),
        ("..", None),
        (".", None),
        ("./", None),
        ("/", None),
        ("/.", None),
        ("", None),
    ] {
        let file = WakeWordFile::found(path.to_string(), Ok(vec![1]));
        assert_eq!(file.path, path);
        assert_eq!(file.content, Ok((vec![1], name.map(|n| n.to_string()))), "{path}");
    }
    let lost = WakeWordFile::found("/m/x".to_string(), Err("gone".to_string()));
    assert_eq!(lost.content, Err("gone".to_string()));
}

#[test]
fn a_spoken_request_is_checked_in_order() {
    let run = |has_voice: bool, params: Option<Json>| {
        handle_voice_pipeline_run(has_voice, &id(), &params, &caller())
    };
    assert_eq!(
        run(false, None),
        Err(error_event(
            &id(),
            -32601,
            "voice/pipeline_run unavailable: no STT/TTS providers configured"
        ))
    );
    assert_eq!(
        run(true, None),
        Err(error_event(
            &id(),
            -32602,
            "Missing params.audio (base64 PCM)"
        ))
    );
    let audio = || Fields::new().with_text("audio", "AAA=");
    assert_eq!(
        run(true, Some(audio().object())),
        Err(error_event(&id(), -32602, "Missing params.device_id"))
    );
    assert_eq!(
        run(true, Some(audio().with_text("device_id", "x").object())),
        Err(error_event(
            &id(),
            -32602,
            "params.device_id does not match the authenticated device"
        ))
    );
    let ok = run(
        true,
        Some(
            audio()
                .with_text("device_id", "dev-1")
                .with_text("language", "en")
                .object(),
        ),
    )
    .unwrap();
    assert_eq!(ok.audio_b64, "AAA=");
    assert_eq!(ok.device_id, "dev-1");
    assert_eq!(ok.language, Some("en".to_string()));
}

#[test]
fn the_session_of_a_device_is_pinned_and_described() {
    let mut state = ServeState::new(&Vec::new(), 4);
    let params = Some(
        Fields::new()
            .with("device", Fields::new().with_text("name", "lamp").object())
            .object(),
    );
    assert_eq!(
        state.device_session_resolved(&id(), &params, &caller(), Err("disk".to_string())),
        Err(error_event(
            &id(),
            -32603,
            "failed to resolve device-default session: disk"
        ))
    );
    assert_eq!(state.room_profile("s"), None);
    assert_eq!(
        state.device_session_resolved(&id(), &params, &caller(), Ok("s".to_string())),
        Ok("s".to_string())
    );
    assert_eq!(state.room_profile("s"), Some(ROOM.to_string()));
    assert_eq!(
        state.session_room_metadata.get("s").unwrap().name,
        "voice channel with lamp"
    );
}

#[test]
fn listening_is_refused_in_order() {
    let sound = audio::encode(&vec![1, 2]);
    let refuse = |config: &ServerConfig, room: &str, audio: &str| {
        let r = run_voice_turn(&state_in(room), config, "s", audio, None, &id());
        assert!(r.next.is_none());
        assert_eq!(r.events.len(), 1);
        r.events.into_iter().next().unwrap()
    };
    let mut none = full_config();
    none.voice = None;
    assert_eq!(
        refuse(&none, ROOM, &sound),
        error_event(
            &id(),
            -32601,
            "voice/pipeline_run unavailable: no STT/TTS providers configured"
        )
    );
    let not_configured = error_event(
        &id(),
        -32602,
        "Session's room_profile has no voice_pipeline configured",
    );
    assert_eq!(refuse(&full_config(), "silent", &sound), not_configured);
    assert_eq!(refuse(&full_config(), "unknown", &sound), not_configured);
    assert_eq!(
        refuse(&config(&[], &["mouth"]), ROOM, &sound),
        error_event(&id(), -32603, "stt_provider 'ears' not instantiated")
    );
    assert_eq!(
        refuse(&full_config(), ROOM, "YWJj"),
        error_event(
            &id(),
            -32602,
            "Audio byte length is not a multiple of 2 (expected s16le)"
        )
    );
    assert_eq!(
        refuse(&full_config(), ROOM, "!!!!"),
        error_event(
            &id(),
            -32602,
            "Invalid base64 audio: Invalid symbol 33, offset 0."
        )
    );
}

#[test]
fn a_spoken_turn_tells_each_step() {
    let state = state_in(ROOM);
    let config = full_config();
    let sound = audio::encode(&vec![1, -1]);
    let started = run_voice_turn(&state, &config, "s", &sound, None, &id());
    assert_eq!(started.events, vec![stage("stt", "start")]);
    let job = started.next.unwrap();
    assert_eq!(job.stt_provider, "ears");
    assert_eq!(job.pcm, vec![1, -1]);
    assert_eq!(job.language, Some("ja".to_string()));
    let asked = run_voice_turn(&state, &config, "s", &sound, Some("en".to_string()), &id());
    assert_eq!(asked.next.unwrap().language, Some("en".to_string()));

    let heard = transcribed(&id(), Ok("hello".to_string()));
    assert_eq!(
        heard.events,
        vec![told("stt_final", "text", "hello"), stage("stt", "end")]
    );
    assert_eq!(heard.next, Some("hello".to_string()));
    let deaf = transcribed(&id(), Err("noise".to_string()));
    assert_eq!(
        deaf.events,
        vec![error_event(&id(), -32603, "STT failed: noise")]
    );
    assert_eq!(deaf.next, None);

    let thinking = run_voice_turn_from_text_sse(&state, &config, "s", &id());
    assert_eq!(thinking.events, vec![stage("intent", "start")]);
    let spoken =
        thinking.next.unwrap().replied(&id(), Some("hi".to_string()), &TurnStop::Replied);
    assert_eq!(
        spoken.events,
        vec![
            stage("intent", "end"),
            told("assistant_text", "text", "hi"),
            stage("tts", "start")
        ]
    );
    let mut speaking = spoken.next.unwrap();
    assert_eq!(
        speaking.chunk(&vec![1, 2]),
        told("audio_chunk", "data", "AQACAA==")
    );
    let done = speaking.finished(&id(), "hello", SynthesisEnd::Done);
    let result = Fields::new()
        .with_text("transcript", "hello")
        .with_text("assistant_text", "hi")
        .object();
    assert_eq!(
        done.events,
        vec![stage("tts", "end"), result_event(&id(), result)]
    );
    assert!(done.next.is_some());
}

fn thinking() -> Thinking {
    run_voice_turn_from_text_sse(&state_in(ROOM), &full_config(), "s", &id()).next.unwrap()
}

#[test]
fn a_spoken_turn_whose_model_failed_just_ends() {
    let stop = TurnStop::ProviderError { message: "down".to_string() };
    let r = thinking().replied(&id(), None, &stop);
    assert_eq!(r.events, vec![stage("intent", "end")]);
    assert!(r.next.is_none());
    let mut host = SseProgress::new(id());
    assert_eq!(
        host.turn_error("down"),
        Some(HostMessage::Rpc(error_event(&id(), -32603, "down"))),
        "the failure of the model has answered the request"
    );
}

#[test]
fn a_spoken_turn_that_ran_out_of_rounds_is_answered() {
    let stop = TurnStop::BudgetExhausted { partial_text: "so far".to_string() };
    let r = thinking().replied(&id(), None, &stop);
    assert_eq!(
        r.events,
        vec![
            stage("intent", "end"),
            error_event(&id(), -32603, "No response generated")
        ]
    );
    assert!(r.next.is_none());
}

/// The events of a spoken turn with an answer: notifications have no `id`.
fn answers(events: &[Json]) -> Vec<&Json> {
    events.iter().filter(|e| e.get("id").is_some()).collect()
}

#[test]
fn a_request_with_sound_is_answered_where_the_turn_does_not_go_on() {
    let state = state_in(ROOM);
    let heard = |sound: &str| run_voice_turn(&state, &full_config(), "s", sound, None, &id());
    for (sound, answered) in [("AQA=", 0), ("AQ==", 1), ("!", 1)] {
        let r = heard(sound);
        assert_eq!(answers(&r.events).len(), answered);
        assert_eq!(r.next.is_none(), answered == 1);
    }
    assert_eq!(answers(&transcribed(&id(), Err("noise".to_string())).events).len(), 1);
    assert_eq!(answers(&transcribed(&id(), Ok("hello".to_string())).events).len(), 0);
}

#[test]
fn a_spoken_turn_is_answered_once_however_it_ends() {
    for (stop, reply) in [
        (TurnStop::Replied, Some("hi".to_string())),
        (TurnStop::BudgetExhausted { partial_text: String::new() }, None),
        (TurnStop::ProviderError { message: "down".to_string() }, None),
    ] {
        for spoke in [true, false] {
            for end in [
                SynthesisEnd::Done,
                SynthesisEnd::Failed("hoarse".to_string()),
                SynthesisEnd::Panicked("gone".to_string()),
            ] {
                let mut events = Vec::new();
                let mut host = SseProgress::new(id());
                for told in [host.tool_start("c", "echo", &Json::Null), host.tool_end("c", "echo")] {
                    match told {
                        Some(HostMessage::Rpc(event)) => events.push(event),
                        other => panic!("{other:?}"),
                    }
                }
                if let TurnStop::ProviderError { message } = &stop {
                    match host.turn_error(message) {
                        Some(HostMessage::Rpc(event)) => events.push(event),
                        other => panic!("{other:?}"),
                    }
                }
                let replied = thinking().replied(&id(), reply.clone(), &stop);
                events.extend(replied.events);
                let well = spoke && end == SynthesisEnd::Done;
                if let Some(mut speaking) = replied.next {
                    if spoke {
                        events.push(speaking.chunk(&vec![1]));
                    }
                    events.extend(speaking.finished(&id(), "hello", end).events);
                }
                let found = answers(&events);
                assert_eq!(found.len(), 1, "{events:?}");
                assert_eq!(found[0].get("result").is_some(), reply.is_some() && well);
            }
        }
    }
}

#[test]
fn speaking_is_refused_and_fails_in_words() {
    let mut none = full_config();
    none.voice = None;
    let refuse = |config: &ServerConfig, room: &str| {
        run_voice_turn_from_text_sse(&state_in(room), config, "s", &id()).events
    };
    assert_eq!(
        refuse(&none, ROOM),
        vec![error_event(
            &id(),
            -32601,
            "voice unavailable: no STT/TTS providers configured"
        )]
    );
    assert_eq!(
        refuse(&config(&["ears"], &[]), ROOM),
        vec![error_event(
            &id(),
            -32603,
            "tts_provider 'mouth' not instantiated"
        )]
    );
    let speaking = |spoke| Speaking {
        tts_provider: "mouth".to_string(),
        reply: "hi".to_string(),
        spoke,
    };
    let ends = |spoke, end| speaking(spoke).finished(&id(), "hello", end).events;
    assert_eq!(
        ends(false, SynthesisEnd::Done),
        vec![error_event(
            &id(),
            -32603,
            "TTS provider 'mouth' produced no audio (check fn_name / payload / audio_field)"
        )]
    );
    assert_eq!(
        ends(true, SynthesisEnd::Failed("x".to_string())),
        vec![error_event(&id(), -32603, "TTS synthesis failed: x")]
    );
    assert_eq!(
        ends(true, SynthesisEnd::Panicked("y".to_string())),
        vec![error_event(&id(), -32603, "TTS task panicked: y")]
    );
}

#[test]
fn a_typed_message_is_answered_with_its_text() {
    assert_eq!(
        chat_answer(&id(), &Some("hi".to_string())),
        result_event(&id(), Fields::new().with_text("content", "hi").object())
    );
    assert_eq!(
        chat_answer(&id(), &None),
        error_event(&id(), -32603, "No response generated")
    );
}

#[test]
fn a_typed_answer_is_spoken_where_it_can_be() {
    let text = told("assistant_text", "text", "hi");
    let ok = stream_chat_tts(&state_in(ROOM), &full_config(), "s", "hi");
    assert_eq!(ok.events, vec![text.clone()]);
    let mut speaking = ok.next.unwrap();
    speaking.chunk(&vec![0]);
    assert_eq!(chat_tts_finished(speaking, SynthesisEnd::Done), None);

    let mut none = full_config();
    none.voice = None;
    let refusal = |config: &ServerConfig, room: &str| {
        let r = stream_chat_tts(&state_in(room), config, "s", "hi");
        assert!(r.next.is_none());
        assert_eq!(r.events[0], text);
        r.events[1].clone()
    };
    assert_eq!(
        refusal(&none, ROOM),
        told(
            "tts_error",
            "message",
            "voice unavailable: no STT/TTS providers configured server-side"
        )
    );
    assert_eq!(
        refusal(&full_config(), "silent"),
        told(
            "tts_error",
            "message",
            "session's room_profile has no voice_pipeline configured"
        )
    );
    assert_eq!(
        refusal(&config(&["ears"], &[]), ROOM),
        told(
            "tts_error",
            "message",
            "tts_provider 'mouth' not instantiated"
        )
    );
    let silent = stream_chat_tts(&state_in(ROOM), &full_config(), "s", "hi")
        .next
        .unwrap();
    assert_eq!(
        chat_tts_finished(silent, SynthesisEnd::Done),
        Some(told(
            "tts_error",
            "message",
            "TTS provider 'mouth' produced no audio"
        ))
    );
}

#[test]
fn an_answer_is_spoken_only_where_sound_was_asked_for() {
    let state = state_in(ROOM);
    let config = full_config();
    let reply = Some("hi".to_string());
    let quiet = run_turn(&state, &config, "s", false, &reply);
    assert!(quiet.events.is_empty() && quiet.next.is_none());
    let nothing = run_turn(&state, &config, "s", true, &None);
    assert!(nothing.events.is_empty() && nothing.next.is_none());
    let spoken = run_turn(&state, &config, "s", true, &reply);
    assert_eq!(spoken.events, vec![told("assistant_text", "text", "hi")]);
    assert_eq!(spoken.next.unwrap().tts_provider, "mouth");
}

#[test]
fn a_push_needs_a_satellite_in_a_known_room() {
    let mut state = ServeState::new(&Vec::new(), 4);
    let config = full_config();
    assert_eq!(
        state.push_target(&config, "dev-1"),
        Err(VoicePushError::Offline)
    );
    let params = Some(Fields::new().with_text("device_id", "dev-1").object());
    let elsewhere = Caller {
        room_profile: "nowhere".to_string(),
        device_id: "dev-1".to_string(),
    };
    state
        .handle_voice_subscribe(&id(), &params, &elsewhere, 1)
        .unwrap();
    assert_eq!(
        state.push_target(&config, "dev-1"),
        Err(VoicePushError::NotConfigured)
    );
    state
        .handle_voice_subscribe(&id(), &params, &caller(), 2)
        .unwrap();
    let target = state.push_target(&config, "dev-1").unwrap();
    assert_eq!(target.room_profile, ROOM);
    assert_eq!(target.channel, 2);
    assert_eq!(target.namespace, "home");
}

#[test]
fn a_push_needs_a_session_and_somebody_to_speak() {
    let mut state = ServeState::new(&Vec::new(), 4);
    let mut go = |config: &ServerConfig, room: &str, session: Result<String, String>| {
        state.push_voice_text_to_subscriber(config, room, session)
    };
    let ok = || Ok("s".to_string());
    assert_eq!(
        go(&full_config(), ROOM, Err("locked".to_string())),
        Err(VoicePushError::Other(
            "device-default lookup: locked".to_string()
        ))
    );
    let mut none = full_config();
    none.voice = None;
    assert_eq!(go(&none, ROOM, ok()), Err(VoicePushError::NoVoice));
    assert_eq!(
        go(&full_config(), "silent", ok()),
        Err(VoicePushError::NotConfigured)
    );
    assert_eq!(
        go(&config(&["ears"], &[]), ROOM, ok()),
        Err(VoicePushError::Other(
            "tts_provider 'mouth' not instantiated".to_string()
        ))
    );
    assert_eq!(
        go(&full_config(), ROOM, ok()),
        Ok(PushJob {
            session_id: "s".to_string(),
            tts_provider: "mouth".to_string()
        })
    );
}

fn job() -> PushJob {
    PushJob {
        session_id: "s".to_string(),
        tts_provider: "mouth".to_string(),
    }
}

#[test]
fn a_push_starts_speaks_and_ends() {
    assert_eq!(
        job().start(Some("morning".to_string())),
        VoicePushItem::Start {
            task: Some("morning".to_string())
        }
    );
    let replied = job().replied(Some("hi".to_string()));
    assert_eq!(
        replied.items,
        vec![VoicePushItem::AssistantText("hi".to_string())]
    );
    let mut speaking = replied.next.unwrap();
    assert_eq!(speaking.delivered(true), Ok(()));
    assert_eq!(speaking.delivered(false), Err(VoicePushError::Offline));
    let end = speaking.finished(SynthesisEnd::Done);
    assert_eq!(end.items, vec![VoicePushItem::Done]);
    assert_eq!(end.next, Ok(()));
}

#[test]
fn a_push_that_fails_says_so_and_ends() {
    let none = job().replied(None);
    let message = "LLM turn produced no text".to_string();
    assert_eq!(
        none.items,
        vec![VoicePushItem::Error(message.clone()), VoicePushItem::Done]
    );
    assert_eq!(none.next, Err(VoicePushError::Other(message)));
    for (end, message) in [
        (SynthesisEnd::Done, "TTS provider 'mouth' produced no audio"),
        (
            SynthesisEnd::Failed("x".to_string()),
            "TTS synthesis failed: x",
        ),
        (
            SynthesisEnd::Panicked("y".to_string()),
            "TTS task panicked: y",
        ),
    ] {
        let speaking = job().replied(Some("hi".to_string())).next.unwrap();
        let r = speaking.finished(end);
        assert_eq!(
            r.items,
            vec![
                VoicePushItem::Error(message.to_string()),
                VoicePushItem::Done
            ]
        );
        assert_eq!(r.next, Err(VoicePushError::Other(message.to_string())));
    }
}

#[test]
fn what_is_pushed_has_its_shape_on_the_wire() {
    let shape = |fields: &[(&str, &str)]| {
        notification_event(
            "notifications/voice_push",
            fields
                .iter()
                .fold(Fields::new(), |f, (k, v)| f.with_text(k, v))
                .object(),
        )
    };
    assert_eq!(
        translate_voice_push(&VoicePushItem::Start { task: None }),
        shape(&[("kind", "push_start")])
    );
    assert_eq!(
        translate_voice_push(&VoicePushItem::Start {
            task: Some("t".to_string())
        }),
        shape(&[("kind", "push_start"), ("task", "t")])
    );
    assert_eq!(
        translate_voice_push(&VoicePushItem::AssistantText("hi".to_string())),
        shape(&[("kind", "assistant_text"), ("text", "hi")])
    );
    assert_eq!(
        translate_voice_push(&VoicePushItem::AudioChunk(vec![0x6261])),
        shape(&[("kind", "audio_chunk"), ("data", "YWI=")])
    );
    assert_eq!(
        translate_voice_push(&VoicePushItem::Done),
        shape(&[("kind", "push_done")])
    );
    assert_eq!(
        translate_voice_push(&VoicePushItem::Error("e".to_string())),
        shape(&[("kind", "error"), ("message", "e")])
    );
}

#[test]
fn what_the_server_says_on_its_own_was_typed_by_nobody() {
    let m = injected_message("good morning");
    assert_eq!(m.role, Role::User);
    assert_eq!(
        m.parts,
        vec![ContentPart::Text("good morning".to_string())]
    );
    assert_eq!(m.input_kind, None);
}

#[test]
fn a_typed_message_is_answered_last_whatever_the_sound_does() {
    let rooms = [state_in(ROOM), state_in("silent"), ServeState::new(&Vec::new(), 4)];
    for state in &rooms {
        for tts in [&["mouth"][..], &[][..]] {
            for want_audio in [true, false] {
                for reply in [Some("hi".to_string()), None] {
                    for spoke in [true, false] {
                        for end in [
                            SynthesisEnd::Done,
                            SynthesisEnd::Failed("hoarse".to_string()),
                            SynthesisEnd::Panicked("gone".to_string()),
                        ] {
                            let config = config(&["ears"], tts);
                            let started = run_turn(state, &config, "s", want_audio, &reply);
                            let mut events = started.events;
                            if let Some(mut speaking) = started.next {
                                if spoke {
                                    events.push(speaking.chunk(&vec![1]));
                                }
                                events.extend(chat_tts_finished(speaking, end));
                            }
                            assert_eq!(answers(&events).len(), 0);
                            events.push(chat_answer(&id(), &reply));
                            assert_eq!(answers(&events), vec![events.last().unwrap()]);
                            let result = events.last().unwrap().get("result");
                            assert_eq!(result.is_some(), reply.is_some());
                        }
                    }
                }
            }
        }
    }
}

#[test]
fn a_push_begins_and_ends_once() {
    for reply in [Some("hi".to_string()), None] {
        for spoke in [true, false] {
            for gone in [true, false] {
                for end in [
                    SynthesisEnd::Done,
                    SynthesisEnd::Failed("hoarse".to_string()),
                    SynthesisEnd::Panicked("gone".to_string()),
                ] {
                    let mut items = vec![job().start(Some("tea".to_string()))];
                    let replied = job().replied(reply.clone());
                    items.extend(replied.items);
                    let outcome = match replied.next {
                        Err(e) => Err(e),
                        Ok(mut speaking) => {
                            if spoke {
                                items.push(VoicePushItem::AudioChunk(vec![1]));
                                speaking.delivered(true).unwrap();
                            }
                            if gone {
                                speaking.delivered(false)
                            } else {
                                let finished = speaking.finished(end);
                                items.extend(finished.items);
                                finished.next
                            }
                        }
                    };
                    let heard_out = reply.is_none() || !gone;
                    let n = items.len();
                    for (i, item) in items.iter().enumerate() {
                        assert_eq!(matches!(item, VoicePushItem::Start { .. }), i == 0);
                        assert_eq!(
                            matches!(item, VoicePushItem::Done),
                            heard_out && i + 1 == n
                        );
                        assert_eq!(
                            matches!(item, VoicePushItem::Error(_)),
                            heard_out && outcome.is_err() && i + 2 == n
                        );
                    }
                    if !heard_out {
                        assert_eq!(outcome, Err(VoicePushError::Offline));
                    }
                }
            }
        }
    }
}
