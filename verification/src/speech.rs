//! Turns that are spoken: what a listener hears of each step, and when it ends.
//!
//! Listening, thinking and speaking happen outside. Each step here takes what came
//! of one and says which events go out and what comes next, if anything does.

use vstd::prelude::*;

use crate::audio::{self, AudioError, AudioErrorView};
use crate::json::{field, lemma_few_fields, no_fields, Fields, Json, JsonView};
use crate::message::{ChatMessage, ContentPart, PartView, Role};
use crate::rpc::{
    error_body, error_event, errors_say_what_went_wrong, field_text, notification_body,
    notification_event, notifications_are_brought_whole, result_body, result_event,
    results_are_brought_whole, INTERNAL_ERROR, INVALID_PARAMS, METHOD_NOT_FOUND,
};
use crate::state::{ServeState, ServerConfig, VoicePipeline};
use crate::text;
use crate::turn_loop::TurnStop;
use crate::voice::{
    pipeline_of, resolve_voice_pipeline, PushItemView, VoicePipelineLookup, VoicePushItem,
};

verus! {

/// What goes out in a step, in order, and what comes next.
#[derive(Debug, PartialEq)]
pub struct Progressed<T> {
    pub events: Vec<Json>,
    /// Where the turn goes on; `None` where it is over.
    pub next: Option<T>,
}

/// The steps of a spoken turn that a listener is told of.
#[derive(Clone, Copy, Debug, PartialEq, Eq, Structural)]
pub enum Stage {
    Stt,
    Intent,
    Tts,
}

/// The name of a step.
pub open spec fn stage_name(stage: Stage) -> Seq<char> {
    match stage {
        Stage::Stt => "stt"@,
        Stage::Intent => "intent"@,
        Stage::Tts => "tts"@,
    }
}

/// Tells of progress.
pub open spec fn progress(fields: Seq<(Seq<char>, JsonView)>) -> JsonView {
    notification_body("notifications/progress"@, JsonView::Object(fields))
}

/// Tells that a step starts or ends.
pub open spec fn stage_told(stage: Stage, start: bool) -> JsonView {
    progress(
        no_fields().push(field_text("kind"@, "stage"@)).push(
            field_text("stage"@, stage_name(stage)),
        ).push(
            field_text(
                "status"@,
                if start {
                    "start"@
                } else {
                    "end"@
                },
            ),
        ),
    )
}

/// Tells something under one key.
pub open spec fn told(kind: Seq<char>, key: Seq<char>, value: Seq<char>) -> JsonView {
    progress(no_fields().push(field_text("kind"@, kind)).push(field_text(key, value)))
}

fn stage_event(stage: Stage, start: bool) -> (r: Json)
    ensures
        r@ == stage_told(stage, start),
{
    let name = match stage {
        Stage::Stt => "stt",
        Stage::Intent => "intent",
        Stage::Tts => "tts",
    };
    let status = if start {
        "start"
    } else {
        "end"
    };
    let params = Fields::new().with_text("kind", "stage").with_text("stage", name).with_text(
        "status",
        status,
    ).object();
    notification_event("notifications/progress", params)
}

fn tell(kind: &str, key: &str, value: &str) -> (r: Json)
    ensures
        r@ == told(kind@, key@, value@),
{
    let params = Fields::new().with_text("kind", kind).with_text(key, value).object();
    notification_event("notifications/progress", params)
}

fn one(event: Json) -> (r: Vec<Json>)
    ensures
        r.deep_view() == seq![event@],
{
    let mut events: Vec<Json> = Vec::new();
    events.push(event);
    assert(events.deep_view() =~= seq![event@]);
    events
}

fn more(events: Vec<Json>, event: Json) -> (r: Vec<Json>)
    ensures
        r.deep_view() == events.deep_view().push(event@),
{
    let ghost before = events.deep_view();
    let mut events = events;
    events.push(event);
    assert(events.deep_view() =~= before.push(event@));
    events
}

/// Why a provider that is configured cannot be used.
pub open spec fn missing_provider(role: Seq<char>, name: Seq<char>) -> Seq<char> {
    role + " '"@ + name + "' not instantiated"@
}

fn missing(role: &str, name: &str) -> (r: String)
    ensures
        r@ == missing_provider(role@, name@),
{
    role.to_owned().concat(" '").concat(name).concat("' not instantiated")
}

/// What is to be written down of what was said.
#[derive(Debug, PartialEq, Eq)]
pub struct SttJob {
    pub stt_provider: String,
    pub pcm: Vec<i16>,
    /// The language of the request, or else of the room.
    pub language: Option<String>,
}

/// Why a spoken turn cannot start.
pub open spec fn listening_refusal(
    state: ServeState,
    config: ServerConfig,
    session_id: Seq<char>,
    audio_b64: Seq<char>,
) -> Option<(int, Seq<char>)> {
    match pipeline_of(state, config, session_id) {
        Err(VoicePipelineLookup::NoVoice) => Some(
            (
                METHOD_NOT_FOUND as int,
                "voice/pipeline_run unavailable: no STT/TTS providers configured"@,
            ),
        ),
        Err(VoicePipelineLookup::NotConfigured) => Some(
            (
                INVALID_PARAMS as int,
                "Session's room_profile has no voice_pipeline configured"@,
            ),
        ),
        Ok(p) => if !config.voice.unwrap().stt.deep_view().contains(p.stt_provider@) {
            Some((INTERNAL_ERROR as int, missing_provider("stt_provider"@, p.stt_provider@)))
        } else {
            match audio::decoded(audio_b64) {
                Ok(_) => None,
                Err(AudioErrorView::Base64(words)) => Some(
                    (INVALID_PARAMS as int, "Invalid base64 audio: "@ + words),
                ),
                Err(AudioErrorView::OddLength) => Some(
                    (
                        INVALID_PARAMS as int,
                        "Audio byte length is not a multiple of 2 (expected s16le)"@,
                    ),
                ),
            }
        },
    }
}

/// Starts a spoken turn: what was said has to be written down first.
pub fn run_voice_turn(
    state: &ServeState,
    config: &ServerConfig,
    session_id: &str,
    audio_b64: &str,
    language: Option<String>,
    req_id: &Json,
) -> (r: Progressed<SttJob>)
    requires
        state.wf(),
        config.wf(),
    ensures
        match (r.next, listening_refusal(*state, *config, session_id@, audio_b64@)) {
            (Some(job), None) => {
                let p = pipeline_of(*state, *config, session_id@)->Ok_0;
                &&& r.events.deep_view() == seq![stage_told(Stage::Stt, true)]
                &&& job.stt_provider@ == p.stt_provider@
                &&& job.pcm@ == audio::decoded(audio_b64@)->Ok_0
                &&& job.language.deep_view() == match language {
                    Some(l) => Some(l@),
                    None => p.language.deep_view(),
                }
            },
            (None, Some((code, message))) => r.events.deep_view() == seq![
                error_body(req_id@, code, message),
            ],
            _ => false,
        },
{
    let pipeline = match resolve_voice_pipeline(state, config, session_id) {
        Ok(p) => p,
        Err(VoicePipelineLookup::NoVoice) => {
            return Progressed {
                events: one(
                    error_event(
                        req_id,
                        METHOD_NOT_FOUND,
                        "voice/pipeline_run unavailable: no STT/TTS providers configured",
                    ),
                ),
                next: None,
            };
        },
        Err(VoicePipelineLookup::NotConfigured) => {
            return Progressed {
                events: one(
                    error_event(
                        req_id,
                        INVALID_PARAMS,
                        "Session's room_profile has no voice_pipeline configured",
                    ),
                ),
                next: None,
            };
        },
    };
    let ready = match &config.voice {
        Some(v) => text::contains(&v.stt, pipeline.stt_provider.as_str()),
        None => false,
    };
    if !ready {
        let message = missing("stt_provider", pipeline.stt_provider.as_str());
        return Progressed {
            events: one(error_event(req_id, INTERNAL_ERROR, message.as_str())),
            next: None,
        };
    }
    match audio::decode(audio_b64) {
        Ok(pcm) => {
            let language = match language {
                Some(l) => Some(l),
                None => pipeline.language,
            };
            Progressed {
                events: one(stage_event(Stage::Stt, true)),
                next: Some(SttJob { stt_provider: pipeline.stt_provider, pcm, language }),
            }
        },
        Err(AudioError::Base64(words)) => {
            let message = "Invalid base64 audio: ".to_owned().concat(words.as_str());
            Progressed {
                events: one(error_event(req_id, INVALID_PARAMS, message.as_str())),
                next: None,
            }
        },
        Err(AudioError::OddLength) => Progressed {
            events: one(
                error_event(
                    req_id,
                    INVALID_PARAMS,
                    "Audio byte length is not a multiple of 2 (expected s16le)",
                ),
            ),
            next: None,
        },
    }
}

/// Takes up what was written down of what was said.
pub fn transcribed(req_id: &Json, transcript: Result<String, String>) -> (r: Progressed<String>)
    ensures
        match transcript {
            Ok(t) => {
                &&& r.next == Some(t)
                &&& r.events.deep_view() == seq![told("stt_final"@, "text"@, t@)].push(
                    stage_told(Stage::Stt, false),
                )
            },
            Err(e) => {
                &&& r.next is None
                &&& r.events.deep_view() == seq![
                    error_body(req_id@, INTERNAL_ERROR as int, "STT failed: "@ + e@),
                ]
            },
        },
{
    match transcript {
        Ok(t) => Progressed {
            events: more(
                one(tell("stt_final", "text", t.as_str())),
                stage_event(Stage::Stt, false),
            ),
            next: Some(t),
        },
        Err(e) => Progressed {
            events: one(
                error_event(
                    req_id,
                    INTERNAL_ERROR,
                    "STT failed: ".to_owned().concat(e.as_str()).as_str(),
                ),
            ),
            next: None,
        },
    }
}

/// Why there is nobody to speak in a session.
pub open spec fn speaking_refusal(
    state: ServeState,
    config: ServerConfig,
    session_id: Seq<char>,
) -> Option<(int, Seq<char>)> {
    match pipeline_of(state, config, session_id) {
        Err(VoicePipelineLookup::NoVoice) => Some(
            (METHOD_NOT_FOUND as int, "voice unavailable: no STT/TTS providers configured"@),
        ),
        Err(VoicePipelineLookup::NotConfigured) => Some(
            (
                INVALID_PARAMS as int,
                "Session's room_profile has no voice_pipeline configured"@,
            ),
        ),
        Ok(p) => if !config.voice.unwrap().tts.deep_view().contains(p.tts_provider@) {
            Some((INTERNAL_ERROR as int, missing_provider("tts_provider"@, p.tts_provider@)))
        } else {
            None
        },
    }
}

/// A turn whose text is known and which waits for the model.
#[derive(Debug, PartialEq, Eq)]
pub struct Thinking {
    pub tts_provider: String,
}

/// Starts the part of a spoken turn that follows the listening. Who will speak has
/// to be there before the model is asked.
pub fn run_voice_turn_from_text_sse(
    state: &ServeState,
    config: &ServerConfig,
    session_id: &str,
    req_id: &Json,
) -> (r: Progressed<Thinking>)
    requires
        state.wf(),
        config.wf(),
    ensures
        match (r.next, speaking_refusal(*state, *config, session_id@)) {
            (Some(thinking), None) => {
                &&& r.events.deep_view() == seq![stage_told(Stage::Intent, true)]
                &&& thinking.tts_provider@ == pipeline_of(
                    *state,
                    *config,
                    session_id@,
                )->Ok_0.tts_provider@
            },
            (None, Some((code, message))) => r.events.deep_view() == seq![
                error_body(req_id@, code, message),
            ],
            _ => false,
        },
{
    let pipeline = match resolve_voice_pipeline(state, config, session_id) {
        Ok(p) => p,
        Err(VoicePipelineLookup::NoVoice) => {
            return Progressed {
                events: one(
                    error_event(
                        req_id,
                        METHOD_NOT_FOUND,
                        "voice unavailable: no STT/TTS providers configured",
                    ),
                ),
                next: None,
            };
        },
        Err(VoicePipelineLookup::NotConfigured) => {
            return Progressed {
                events: one(
                    error_event(
                        req_id,
                        INVALID_PARAMS,
                        "Session's room_profile has no voice_pipeline configured",
                    ),
                ),
                next: None,
            };
        },
    };
    let ready = match &config.voice {
        Some(v) => text::contains(&v.tts, pipeline.tts_provider.as_str()),
        None => false,
    };
    if !ready {
        let message = missing("tts_provider", pipeline.tts_provider.as_str());
        return Progressed {
            events: one(error_event(req_id, INTERNAL_ERROR, message.as_str())),
            next: None,
        };
    }
    Progressed {
        events: one(stage_event(Stage::Intent, true)),
        next: Some(Thinking { tts_provider: pipeline.tts_provider }),
    }
}

/// What goes out when the model is done. A turn without a reply is answered here,
/// unless its host has told its caller already that the model failed.
pub open spec fn intent_events(
    req_id: JsonView,
    reply: Option<Seq<char>>,
    model_failed: bool,
) -> Seq<JsonView> {
    let ended = seq![stage_told(Stage::Intent, false)];
    match reply {
        Some(t) => ended.push(told("assistant_text"@, "text"@, t)).push(
            stage_told(Stage::Tts, true),
        ),
        None => if model_failed {
            ended
        } else {
            ended.push(error_body(req_id, INTERNAL_ERROR as int, "No response generated"@))
        },
    }
}

impl Thinking {
    /// Takes up the model's reply. Without one the turn is over: the caller gets an
    /// error, unless the failure of the model was one already.
    pub fn replied(self, req_id: &Json, reply: Option<String>, stop: &TurnStop) -> (r: Progressed<
        Speaking,
    >)
        ensures
            r.events.deep_view() == intent_events(
                req_id@,
                reply.deep_view(),
                stop is ProviderError,
            ),
            r.next == match reply {
                Some(t) => Some(
                    Speaking { tts_provider: self.tts_provider, reply: t, spoke: false },
                ),
                None => None,
            },
    {
        let events = one(stage_event(Stage::Intent, false));
        match reply {
            Some(t) => {
                let events = more(events, tell("assistant_text", "text", t.as_str()));
                Progressed {
                    events: more(events, stage_event(Stage::Tts, true)),
                    next: Some(
                        Speaking { tts_provider: self.tts_provider, reply: t, spoke: false },
                    ),
                }
            },
            None => match stop {
                TurnStop::ProviderError { .. } => Progressed { events, next: None },
                _ => Progressed {
                    events: more(
                        events,
                        error_event(req_id, INTERNAL_ERROR, "No response generated"),
                    ),
                    next: None,
                },
            },
        }
    }
}

/// A turn whose reply is being spoken.
#[derive(Debug, PartialEq, Eq)]
pub struct Speaking {
    pub tts_provider: String,
    pub reply: String,
    /// Whether any sound went out.
    pub spoke: bool,
}

/// How the speaking ended.
#[derive(Debug, PartialEq, Eq)]
pub enum SynthesisEnd {
    Done,
    /// It failed, in the words of who speaks.
    Failed(String),
    /// It broke off, in the words of the task that did it.
    Panicked(String),
}

/// What is wrong with the way the speaking ended, from the words for a speaker that
/// gave no sound.
pub open spec fn synthesis_error(
    end: SynthesisEnd,
    spoke: bool,
    silence: Seq<char>,
) -> Option<Seq<char>> {
    match end {
        SynthesisEnd::Done => if spoke {
            None
        } else {
            Some(silence)
        },
        SynthesisEnd::Failed(e) => Some("TTS synthesis failed: "@ + e@),
        SynthesisEnd::Panicked(e) => Some("TTS task panicked: "@ + e@),
    }
}

/// What a speaker that gave no sound is reported as.
pub open spec fn no_sound(tts_provider: Seq<char>) -> Seq<char> {
    "TTS provider '"@ + tts_provider + "' produced no audio"@
}

/// What is wrong with the way the speaking of a spoken turn ended.
pub open spec fn speaking_error(
    tts_provider: Seq<char>,
    end: SynthesisEnd,
    spoke: bool,
) -> Option<Seq<char>> {
    synthesis_error(
        end,
        spoke,
        no_sound(tts_provider) + " (check fn_name / payload / audio_field)"@,
    )
}

/// The result of a spoken turn.
pub open spec fn spoken_result(user_text: Seq<char>, reply: Seq<char>) -> JsonView {
    JsonView::Object(
        no_fields().push(field_text("transcript"@, user_text)).push(
            field_text("assistant_text"@, reply),
        ),
    )
}

/// What goes out when the speaking has ended.
pub open spec fn speaking_events(
    req_id: JsonView,
    user_text: Seq<char>,
    reply: Seq<char>,
    error: Option<Seq<char>>,
) -> Seq<JsonView> {
    match error {
        None => seq![stage_told(Stage::Tts, false)].push(
            result_body(req_id, spoken_result(user_text, reply)),
        ),
        Some(message) => seq![error_body(req_id, INTERNAL_ERROR as int, message)],
    }
}

fn silent(tts_provider: &str) -> (r: String)
    ensures
        r@ == no_sound(tts_provider@),
{
    "TTS provider '".to_owned().concat(tts_provider).concat("' produced no audio")
}

fn synthesis_failure(end: SynthesisEnd, spoke: bool, silence: String) -> (r: Option<String>)
    ensures
        r.deep_view() == synthesis_error(end, spoke, silence@),
{
    match end {
        SynthesisEnd::Done => if spoke {
            None
        } else {
            Some(silence)
        },
        SynthesisEnd::Failed(e) => Some("TTS synthesis failed: ".to_owned().concat(e.as_str())),
        SynthesisEnd::Panicked(e) => Some("TTS task panicked: ".to_owned().concat(e.as_str())),
    }
}

/// Sound as it is told on a stream.
pub fn audio_event(pcm: &Vec<i16>) -> (r: Json)
    requires
        8 * pcm.len() <= usize::MAX,
    ensures
        r@ == told("audio_chunk"@, "data"@, audio::encoded(pcm@)),
        audio::decoded(audio::encoded(pcm@)) == Ok::<Seq<i16>, AudioErrorView>(pcm@),
{
    let data = audio::encode(pcm);
    tell("audio_chunk", "data", data.as_str())
}

impl Speaking {
    /// Passes sound on.
    pub fn chunk(&mut self, pcm: &Vec<i16>) -> (r: Json)
        requires
            8 * pcm.len() <= usize::MAX,
        ensures
            r@ == told("audio_chunk"@, "data"@, audio::encoded(pcm@)),
            audio::decoded(audio::encoded(pcm@)) == Ok::<Seq<i16>, AudioErrorView>(pcm@),
            *final(self) == (Speaking { spoke: true, ..*old(self) }),
    {
        self.spoke = true;
        audio_event(pcm)
    }

    /// Ends a spoken turn: with its result where sound went out and all went well,
    /// with an error otherwise.
    pub fn finished(self, req_id: &Json, user_text: &str, end: SynthesisEnd) -> (r: Progressed<()>)
        ensures
            r.next is Some == (speaking_error(self.tts_provider@, end, self.spoke) is None),
            r.events.deep_view() == speaking_events(
                req_id@,
                user_text@,
                self.reply@,
                speaking_error(self.tts_provider@, end, self.spoke),
            ),
    {
        let silence = silent(self.tts_provider.as_str()).concat(
            " (check fn_name / payload / audio_field)",
        );
        match synthesis_failure(end, self.spoke, silence) {
            None => {
                let result = Fields::new().with_text("transcript", user_text).with_text(
                    "assistant_text",
                    self.reply.as_str(),
                ).object();
                Progressed {
                    events: more(one(stage_event(Stage::Tts, false)), result_event(req_id, result)),
                    next: Some(()),
                }
            },
            Some(message) => Progressed {
                events: one(error_event(req_id, INTERNAL_ERROR, message.as_str())),
                next: None,
            },
        }
    }
}

/// Whether an event answers a request.
pub open spec fn is_answer(event: JsonView) -> bool {
    event.get("id"@) is Some
}

/// The answers among events, in order.
pub open spec fn answers_in(events: Seq<JsonView>) -> Seq<JsonView>
    decreases events.len(),
{
    if events.len() == 0 {
        Seq::empty()
    } else if is_answer(events.last()) {
        answers_in(events.drop_last()).push(events.last())
    } else {
        answers_in(events.drop_last())
    }
}

/// How a turn whose text is known went on.
pub struct Spoken {
    /// What its host told of its calls.
    pub progress: Seq<JsonView>,
    pub stop: TurnStop,
    /// The model's reply, where it gave one.
    pub reply: Option<Seq<char>>,
    /// The sound of the reply, piece by piece.
    pub sound: Seq<Seq<i16>>,
    pub end: SynthesisEnd,
}

/// What a host tells when the model failed.
pub open spec fn failure_told(req_id: JsonView, stop: TurnStop) -> Seq<JsonView> {
    match stop {
        TurnStop::ProviderError { message } => seq![
            error_body(req_id, INTERNAL_ERROR as int, message@),
        ],
        _ => Seq::empty(),
    }
}

/// Sound as it is told on a stream, piece by piece.
pub open spec fn sound_told(sound: Seq<Seq<i16>>) -> Seq<JsonView> {
    sound.map_values(|pcm: Seq<i16>| told("audio_chunk"@, "data"@, audio::encoded(pcm)))
}

/// What goes out of a turn whose text is known, from its start to its end.
pub open spec fn spoken_stream(
    state: ServeState,
    config: ServerConfig,
    session_id: Seq<char>,
    req_id: JsonView,
    user_text: Seq<char>,
    course: Spoken,
) -> Seq<JsonView> {
    match speaking_refusal(state, config, session_id) {
        Some((code, message)) => seq![error_body(req_id, code, message)],
        None => seq![stage_told(Stage::Intent, true)] + course.progress + failure_told(
            req_id,
            course.stop,
        ) + intent_events(req_id, course.reply, course.stop is ProviderError)
            + match course.reply {
            Some(t) => sound_told(course.sound) + speaking_events(
                req_id,
                user_text,
                t,
                speaking_error(
                    pipeline_of(state, config, session_id)->Ok_0.tts_provider@,
                    course.end,
                    course.sound.len() > 0,
                ),
            ),
            None => Seq::empty(),
        },
    }
}

/// The answer to a turn whose text is known: its result where somebody can speak,
/// the model replied, and the reply was spoken; else an error that says what went
/// wrong first.
pub open spec fn spoken_answer(
    state: ServeState,
    config: ServerConfig,
    session_id: Seq<char>,
    req_id: JsonView,
    user_text: Seq<char>,
    course: Spoken,
) -> JsonView {
    match (speaking_refusal(state, config, session_id), course.reply) {
        (Some((code, message)), _) => error_body(req_id, code, message),
        (None, None) => error_body(
            req_id,
            INTERNAL_ERROR as int,
            match course.stop {
                TurnStop::ProviderError { message } => message@,
                _ => "No response generated"@,
            },
        ),
        (None, Some(t)) => match speaking_error(
            pipeline_of(state, config, session_id)->Ok_0.tts_provider@,
            course.end,
            course.sound.len() > 0,
        ) {
            Some(message) => error_body(req_id, INTERNAL_ERROR as int, message),
            None => result_body(req_id, spoken_result(user_text, t)),
        },
    }
}

/// Notifications, such as a host makes of the calls of a turn, answer nothing.
pub proof fn notifications_answer_nothing(method: Seq<char>, params: JsonView)
    ensures
        !is_answer(notification_body(method, params)),
{
    lemma_answers(JsonView::Null, JsonView::Null, 0, ""@, method, params);
}

proof fn lemma_answers(
    req_id: JsonView,
    result: JsonView,
    code: int,
    message: Seq<char>,
    method: Seq<char>,
    params: JsonView,
)
    ensures
        is_answer(result_body(req_id, result)),
        is_answer(error_body(req_id, code, message)),
        !is_answer(notification_body(method, params)),
{
    reveal_strlit("id");
    reveal_strlit("jsonrpc");
    reveal_strlit("method");
    reveal_strlit("params");
    reveal_with_fuel(field, 5);
    assert("id"@.len() == 2 && "jsonrpc"@.len() == 7 && "method"@.len() == 6 && "params"@.len()
        == 6);
    let fields = result_body(req_id, result)->Object_0;
    assert(fields.drop_first()[0] == ("id"@, req_id));
    let fields = error_body(req_id, code, message)->Object_0;
    assert(fields.drop_first()[0] == ("id"@, req_id));
    let fields = notification_body(method, params)->Object_0;
    assert(fields.drop_first()[0].0 == "method"@);
    assert(fields.drop_first().drop_first()[0].0 == "params"@);
    assert(fields.drop_first().drop_first().drop_first().len() == 0);
}

proof fn lemma_answers_concat(a: Seq<JsonView>, b: Seq<JsonView>)
    ensures
        answers_in(a + b) == answers_in(a) + answers_in(b),
    decreases b.len(),
{
    if b.len() == 0 {
        assert(a + b =~= a);
        assert(answers_in(a) + answers_in(b) =~= answers_in(a));
    } else {
        assert((a + b).drop_last() =~= a + b.drop_last());
        assert((a + b).last() == b.last());
        lemma_answers_concat(a, b.drop_last());
        let (x, y) = (answers_in(a), answers_in(b.drop_last()));
        assert((x + y).push(b.last()) =~= x + y.push(b.last()));
    }
}

proof fn lemma_no_answers(events: Seq<JsonView>)
    requires
        forall|i: int| 0 <= i < events.len() ==> !is_answer(#[trigger] events[i]),
    ensures
        answers_in(events) == Seq::<JsonView>::empty(),
    decreases events.len(),
{
    if events.len() > 0 {
        let before = events.drop_last();
        assert forall|i: int| 0 <= i < before.len() implies !is_answer(#[trigger] before[i]) by {
            assert(before[i] == events[i]);
        }
        lemma_no_answers(before);
    }
}

proof fn lemma_one_answer(event: JsonView)
    ensures
        answers_in(seq![event]) == if is_answer(event) {
            seq![event]
        } else {
            Seq::empty()
        },
{
    assert(seq![event].drop_last() =~= Seq::empty());
    assert(answers_in(seq![event].drop_last()) =~= Seq::empty());
}

proof fn lemma_intent_answers(req_id: JsonView, reply: Option<Seq<char>>, model_failed: bool)
    ensures
        answers_in(intent_events(req_id, reply, model_failed)) == if reply is None
            && !model_failed {
            seq![error_body(req_id, INTERNAL_ERROR as int, "No response generated"@)]
        } else {
            Seq::empty()
        },
{
    let none = Seq::<JsonView>::empty();
    let error = error_body(req_id, INTERNAL_ERROR as int, "No response generated"@);
    let ended = seq![stage_told(Stage::Intent, false)];
    lemma_stage_is_no_answer(Stage::Intent, false);
    lemma_stage_is_no_answer(Stage::Tts, true);
    lemma_one_answer(stage_told(Stage::Intent, false));
    lemma_answers(
        req_id,
        JsonView::Null,
        INTERNAL_ERROR as int,
        "No response generated"@,
        ""@,
        JsonView::Null,
    );
    match reply {
        Some(t) => {
            let text = told("assistant_text"@, "text"@, t);
            lemma_told_is_no_answer("assistant_text"@, "text"@, t);
            let events = intent_events(req_id, reply, model_failed);
            assert(events.drop_last() =~= ended.push(text));
            assert(ended.push(text).drop_last() =~= ended);
            assert(answers_in(ended.push(text)) == none);
        },
        None => {
            if !model_failed {
                assert(ended.push(error).drop_last() =~= ended);
                assert(answers_in(ended.push(error)) =~= seq![error]);
            }
        },
    }
}

proof fn lemma_stage_is_no_answer(stage: Stage, start: bool)
    ensures
        !is_answer(stage_told(stage, start)),
{
    let params = stage_told(stage, start)->Object_0[2].1;
    assert(stage_told(stage, start) == notification_body("notifications/progress"@, params));
    notifications_answer_nothing("notifications/progress"@, params);
}

proof fn lemma_told_is_no_answer(kind: Seq<char>, key: Seq<char>, value: Seq<char>)
    ensures
        !is_answer(told(kind, key, value)),
{
    let params = told(kind, key, value)->Object_0[2].1;
    assert(told(kind, key, value) == notification_body("notifications/progress"@, params));
    notifications_answer_nothing("notifications/progress"@, params);
}

proof fn lemma_failure_answers(req_id: JsonView, stop: TurnStop)
    ensures
        answers_in(failure_told(req_id, stop)) == failure_told(req_id, stop),
{
    if stop is ProviderError {
        let words = stop->ProviderError_message@;
        let code = INTERNAL_ERROR as int;
        lemma_answers(req_id, JsonView::Null, code, words, ""@, JsonView::Null);
        lemma_one_answer(error_body(req_id, code, words));
    }
}

proof fn lemma_sound_answers(sound: Seq<Seq<i16>>)
    ensures
        answers_in(sound_told(sound)) == Seq::<JsonView>::empty(),
{
    let events = sound_told(sound);
    assert forall|i: int| 0 <= i < events.len() implies !is_answer(#[trigger] events[i]) by {
        lemma_told_is_no_answer("audio_chunk"@, "data"@, audio::encoded(sound[i]));
    }
    lemma_no_answers(events);
}

proof fn lemma_speaking_answers(
    req_id: JsonView,
    user_text: Seq<char>,
    reply: Seq<char>,
    error: Option<Seq<char>>,
)
    ensures
        answers_in(speaking_events(req_id, user_text, reply, error)) == seq![
            match error {
                None => result_body(req_id, spoken_result(user_text, reply)),
                Some(message) => error_body(req_id, INTERNAL_ERROR as int, message),
            },
        ],
{
    let result = spoken_result(user_text, reply);
    let words = match error {
        Some(message) => message,
        None => ""@,
    };
    lemma_answers(req_id, result, INTERNAL_ERROR as int, words, ""@, JsonView::Null);
    match error {
        None => {
            let ended = seq![stage_told(Stage::Tts, false)];
            lemma_stage_is_no_answer(Stage::Tts, false);
            lemma_one_answer(stage_told(Stage::Tts, false));
            assert(ended.push(result_body(req_id, result)).drop_last() =~= ended);
            assert(answers_in(ended.push(result_body(req_id, result))) =~= seq![
                result_body(req_id, result),
            ]);
        },
        Some(message) => {
            lemma_one_answer(error_body(req_id, INTERNAL_ERROR as int, message));
        },
    }
}

/// A spoken turn is answered exactly once, however it goes: with its result where
/// somebody can speak, the model replied, and the reply was spoken to its end with
/// some sound, and with an error otherwise. The answer comes last, but for that of a
/// model that failed, after which the listener is told that the step has ended.
pub proof fn spoken_turns_are_answered_once(
    state: ServeState,
    config: ServerConfig,
    session_id: Seq<char>,
    req_id: JsonView,
    user_text: Seq<char>,
    course: Spoken,
)
    requires
        course.reply is Some == (course.stop is Replied),
        forall|i: int| 0 <= i < course.progress.len() ==> !is_answer(#[trigger] course.progress[i]),
    ensures
        answers_in(spoken_stream(state, config, session_id, req_id, user_text, course)) == seq![
            spoken_answer(state, config, session_id, req_id, user_text, course),
        ],
        speaking_refusal(state, config, session_id) is Some || !(course.stop is ProviderError)
            ==> spoken_stream(state, config, session_id, req_id, user_text, course).last()
            == spoken_answer(state, config, session_id, req_id, user_text, course),
{
    let none = Seq::<JsonView>::empty();
    let answer = spoken_answer(state, config, session_id, req_id, user_text, course);
    match speaking_refusal(state, config, session_id) {
        Some((code, message)) => {
            lemma_answers(req_id, JsonView::Null, code, message, ""@, JsonView::Null);
            lemma_one_answer(error_body(req_id, code, message));
        },
        None => {
            let start = seq![stage_told(Stage::Intent, true)];
            lemma_stage_is_no_answer(Stage::Intent, true);
            lemma_one_answer(stage_told(Stage::Intent, true));
            lemma_no_answers(course.progress);
            let failure = failure_told(req_id, course.stop);
            lemma_failure_answers(req_id, course.stop);
            let intent = intent_events(req_id, course.reply, course.stop is ProviderError);
            lemma_intent_answers(req_id, course.reply, course.stop is ProviderError);
            let tail = match course.reply {
                Some(t) => {
                    let sound = sound_told(course.sound);
                    let error = speaking_error(
                        pipeline_of(state, config, session_id)->Ok_0.tts_provider@,
                        course.end,
                        course.sound.len() > 0,
                    );
                    lemma_sound_answers(course.sound);
                    lemma_speaking_answers(req_id, user_text, t, error);
                    lemma_answers_concat(sound, speaking_events(req_id, user_text, t, error));
                    assert(none + seq![answer] =~= seq![answer]);
                    sound + speaking_events(req_id, user_text, t, error)
                },
                None => none,
            };
            lemma_answers_concat(start, course.progress);
            lemma_answers_concat(start + course.progress, failure);
            lemma_answers_concat(start + course.progress + failure, intent);
            lemma_answers_concat(start + course.progress + failure + intent, tail);
            assert(answers_in(start + course.progress + failure + intent + tail) =~= failure
                + answers_in(intent) + answers_in(tail));
            assert(failure + answers_in(intent) + answers_in(tail) =~= seq![answer]);
        },
    }
}

/// What goes out of a turn that was spoken, from what was heard to its end.
pub open spec fn voice_stream(
    state: ServeState,
    config: ServerConfig,
    session_id: Seq<char>,
    req_id: JsonView,
    audio_b64: Seq<char>,
    transcript: Result<Seq<char>, Seq<char>>,
    course: Spoken,
) -> Seq<JsonView> {
    match (listening_refusal(state, config, session_id, audio_b64), transcript) {
        (Some((code, message)), _) => seq![error_body(req_id, code, message)],
        (None, Err(e)) => seq![stage_told(Stage::Stt, true)].push(
            error_body(req_id, INTERNAL_ERROR as int, "STT failed: "@ + e),
        ),
        (None, Ok(t)) => seq![stage_told(Stage::Stt, true)].push(
            told("stt_final"@, "text"@, t),
        ).push(stage_told(Stage::Stt, false)) + spoken_stream(
            state,
            config,
            session_id,
            req_id,
            t,
            course,
        ),
    }
}

/// The answer to a turn that was spoken.
pub open spec fn voice_answer(
    state: ServeState,
    config: ServerConfig,
    session_id: Seq<char>,
    req_id: JsonView,
    audio_b64: Seq<char>,
    transcript: Result<Seq<char>, Seq<char>>,
    course: Spoken,
) -> JsonView {
    match (listening_refusal(state, config, session_id, audio_b64), transcript) {
        (Some((code, message)), _) => error_body(req_id, code, message),
        (None, Err(e)) => error_body(req_id, INTERNAL_ERROR as int, "STT failed: "@ + e),
        (None, Ok(t)) => spoken_answer(state, config, session_id, req_id, t, course),
    }
}

/// A request with sound is answered exactly once, however it goes: whether nobody can
/// listen, the sound is none, nothing could be made out, or the turn went on.
pub proof fn voice_requests_are_answered_once(
    state: ServeState,
    config: ServerConfig,
    session_id: Seq<char>,
    req_id: JsonView,
    audio_b64: Seq<char>,
    transcript: Result<Seq<char>, Seq<char>>,
    course: Spoken,
)
    requires
        course.reply is Some == (course.stop is Replied),
        forall|i: int| 0 <= i < course.progress.len() ==> !is_answer(#[trigger] course.progress[i]),
    ensures
        answers_in(
            voice_stream(state, config, session_id, req_id, audio_b64, transcript, course),
        ) == seq![
            voice_answer(state, config, session_id, req_id, audio_b64, transcript, course),
        ],
{
    let answer = voice_answer(
        state,
        config,
        session_id,
        req_id,
        audio_b64,
        transcript,
        course,
    );
    let started = seq![stage_told(Stage::Stt, true)];
    lemma_stage_is_no_answer(Stage::Stt, true);
    lemma_one_answer(stage_told(Stage::Stt, true));
    match (listening_refusal(state, config, session_id, audio_b64), transcript) {
        (Some((code, message)), _) => {
            lemma_answers(req_id, JsonView::Null, code, message, ""@, JsonView::Null);
            lemma_one_answer(answer);
        },
        (None, Err(e)) => {
            let words = "STT failed: "@ + e;
            let code = INTERNAL_ERROR as int;
            lemma_answers(req_id, JsonView::Null, code, words, ""@, JsonView::Null);
            assert(started.push(answer).drop_last() =~= started);
            assert(answers_in(started.push(answer)) =~= seq![answer]);
        },
        (None, Ok(t)) => {
            let heard = told("stt_final"@, "text"@, t);
            let ended = stage_told(Stage::Stt, false);
            let listened = started.push(heard).push(ended);
            lemma_told_is_no_answer("stt_final"@, "text"@, t);
            lemma_stage_is_no_answer(Stage::Stt, false);
            assert forall|i: int| 0 <= i < listened.len() implies !is_answer(
                #[trigger] listened[i],
            ) by {
                assert(listened[i] == started[0] || listened[i] == heard || listened[i] == ended);
            }
            lemma_no_answers(listened);
            spoken_turns_are_answered_once(state, config, session_id, req_id, t, course);
            let rest = spoken_stream(state, config, session_id, req_id, t, course);
            lemma_answers_concat(listened, rest);
            assert(answers_in(listened) + seq![answer] =~= seq![answer]);
        },
    }
}

/// How a typed message is answered: with the model's reply, and with an error where
/// it gave none.
pub open spec fn chat_body(req_id: JsonView, reply: Option<Seq<char>>) -> JsonView {
    match reply {
        Some(t) => result_body(
            req_id,
            JsonView::Object(no_fields().push(field_text("content"@, t))),
        ),
        None => error_body(req_id, INTERNAL_ERROR as int, "No response generated"@),
    }
}

/// The answer to a typed message.
pub fn chat_answer(req_id: &Json, reply: &Option<String>) -> (r: Json)
    ensures
        r@ == chat_body(req_id@, reply.deep_view()),
{
    match reply {
        Some(t) => result_event(
            req_id,
            Fields::new().with_text("content", t.as_str()).object(),
        ),
        None => error_event(req_id, INTERNAL_ERROR, "No response generated"),
    }
}

/// Why the answer to a typed message is not spoken.
pub open spec fn chat_tts_refusal(
    state: ServeState,
    config: ServerConfig,
    session_id: Seq<char>,
) -> Option<Seq<char>> {
    match pipeline_of(state, config, session_id) {
        Err(VoicePipelineLookup::NoVoice) => Some(
            "voice unavailable: no STT/TTS providers configured server-side"@,
        ),
        Err(VoicePipelineLookup::NotConfigured) => Some(
            "session's room_profile has no voice_pipeline configured"@,
        ),
        Ok(p) => if !config.voice.unwrap().tts.deep_view().contains(p.tts_provider@) {
            Some(missing_provider("tts_provider"@, p.tts_provider@))
        } else {
            None
        },
    }
}

/// What goes out before the answer to a typed message is spoken: its text, and why it
/// will not be spoken, where it will not.
pub open spec fn chat_tts_started(reply: Seq<char>, refusal: Option<Seq<char>>) -> Seq<JsonView> {
    let text = seq![told("assistant_text"@, "text"@, reply)];
    match refusal {
        None => text,
        Some(message) => text.push(told("tts_error"@, "message"@, message)),
    }
}

/// Who speaks the answer to a typed message, before any sound went out.
pub open spec fn chat_speaker(
    speaking: Speaking,
    state: ServeState,
    config: ServerConfig,
    session_id: Seq<char>,
    reply: Seq<char>,
) -> bool {
    &&& speaking.reply@ == reply
    &&& !speaking.spoke
    &&& speaking.tts_provider@ == pipeline_of(state, config, session_id)->Ok_0.tts_provider@
}

/// Starts to speak the answer to a typed message, where the client wants that. Its
/// text goes out first, and whatever goes wrong with the sound is only told: the
/// text is still the answer.
pub fn stream_chat_tts(
    state: &ServeState,
    config: &ServerConfig,
    session_id: &str,
    reply: &str,
) -> (r: Progressed<Speaking>)
    requires
        state.wf(),
        config.wf(),
    ensures
        r.events.deep_view() == chat_tts_started(
            reply@,
            chat_tts_refusal(*state, *config, session_id@),
        ),
        match r.next {
            Some(speaking) => {
                &&& chat_tts_refusal(*state, *config, session_id@) is None
                &&& chat_speaker(speaking, *state, *config, session_id@, reply@)
            },
            None => chat_tts_refusal(*state, *config, session_id@) is Some,
        },
{
    let events = one(tell("assistant_text", "text", reply));
    let pipeline = match resolve_voice_pipeline(state, config, session_id) {
        Ok(p) => p,
        Err(VoicePipelineLookup::NoVoice) => {
            return Progressed {
                events: more(
                    events,
                    tell(
                        "tts_error",
                        "message",
                        "voice unavailable: no STT/TTS providers configured server-side",
                    ),
                ),
                next: None,
            };
        },
        Err(VoicePipelineLookup::NotConfigured) => {
            return Progressed {
                events: more(
                    events,
                    tell(
                        "tts_error",
                        "message",
                        "session's room_profile has no voice_pipeline configured",
                    ),
                ),
                next: None,
            };
        },
    };
    let ready = match &config.voice {
        Some(v) => text::contains(&v.tts, pipeline.tts_provider.as_str()),
        None => false,
    };
    if !ready {
        let message = missing("tts_provider", pipeline.tts_provider.as_str());
        return Progressed {
            events: more(events, tell("tts_error", "message", message.as_str())),
            next: None,
        };
    }
    Progressed {
        events,
        next: Some(
            Speaking {
                tts_provider: pipeline.tts_provider,
                reply: reply.to_owned(),
                spoke: false,
            },
        ),
    }
}

/// Starts to speak the answer to a typed message where there is one and the client
/// asked for sound. Otherwise nothing goes out before the answer.
pub fn run_turn(
    state: &ServeState,
    config: &ServerConfig,
    session_id: &str,
    want_audio: bool,
    reply: &Option<String>,
) -> (r: Progressed<Speaking>)
    requires
        state.wf(),
        config.wf(),
    ensures
        match reply {
            Some(t) if want_audio => {
                &&& r.events.deep_view() == chat_tts_started(
                    t@,
                    chat_tts_refusal(*state, *config, session_id@),
                )
                &&& match r.next {
                    Some(speaking) => {
                        &&& chat_tts_refusal(*state, *config, session_id@) is None
                        &&& chat_speaker(speaking, *state, *config, session_id@, t@)
                    },
                    None => chat_tts_refusal(*state, *config, session_id@) is Some,
                }
            },
            _ => r.next is None && r.events.deep_view() == Seq::<JsonView>::empty(),
        },
{
    match reply {
        Some(t) if want_audio => stream_chat_tts(state, config, session_id, t.as_str()),
        _ => {
            let events: Vec<Json> = Vec::new();
            assert(events.deep_view() =~= Seq::<JsonView>::empty());
            Progressed { events, next: None }
        },
    }
}

/// What is told when the answer to a typed message has been spoken: nothing where
/// all went well.
pub fn chat_tts_finished(speaking: Speaking, end: SynthesisEnd) -> (r: Option<Json>)
    ensures
        r.deep_view() == match synthesis_error(
            end,
            speaking.spoke,
            no_sound(speaking.tts_provider@),
        ) {
            None => None,
            Some(message) => Some(told("tts_error"@, "message"@, message)),
        },
{
    let silence = silent(speaking.tts_provider.as_str());
    match synthesis_failure(end, speaking.spoke, silence) {
        Some(message) => Some(tell("tts_error", "message", message.as_str())),
        None => None,
    }
}

/// What goes out of the sound of the answer to a typed message: nothing where nobody
/// wants it, there is none, or nobody can speak.
pub open spec fn chat_sound(
    state: ServeState,
    config: ServerConfig,
    session_id: Seq<char>,
    want_audio: bool,
    course: Spoken,
) -> Seq<JsonView> {
    match course.reply {
        Some(t) if want_audio => {
            let refusal = chat_tts_refusal(state, config, session_id);
            chat_tts_started(t, refusal) + if refusal is Some {
                Seq::empty()
            } else {
                sound_told(course.sound) + match synthesis_error(
                    course.end,
                    course.sound.len() > 0,
                    no_sound(pipeline_of(state, config, session_id)->Ok_0.tts_provider@),
                ) {
                    None => Seq::empty(),
                    Some(message) => seq![told("tts_error"@, "message"@, message)],
                }
            }
        },
        _ => Seq::empty(),
    }
}

/// What goes out of a typed message, from its start to its end.
pub open spec fn chat_stream(
    state: ServeState,
    config: ServerConfig,
    session_id: Seq<char>,
    req_id: JsonView,
    want_audio: bool,
    course: Spoken,
) -> Seq<JsonView> {
    (course.progress + failure_told(req_id, course.stop) + chat_sound(
        state,
        config,
        session_id,
        want_audio,
        course,
    )).push(chat_body(req_id, course.reply))
}

proof fn lemma_chat_sound_answers(
    state: ServeState,
    config: ServerConfig,
    session_id: Seq<char>,
    want_audio: bool,
    course: Spoken,
)
    ensures
        answers_in(chat_sound(state, config, session_id, want_audio, course)) == Seq::<
            JsonView,
        >::empty(),
{
    let none = Seq::<JsonView>::empty();
    if want_audio && course.reply is Some {
        let t = course.reply.unwrap();
        let refusal = chat_tts_refusal(state, config, session_id);
        let started = chat_tts_started(t, refusal);
        lemma_told_is_no_answer("assistant_text"@, "text"@, t);
        if refusal is Some {
            lemma_told_is_no_answer("tts_error"@, "message"@, refusal.unwrap());
        }
        lemma_no_answers(started);
        if refusal is None {
            let error = synthesis_error(
                course.end,
                course.sound.len() > 0,
                no_sound(pipeline_of(state, config, session_id)->Ok_0.tts_provider@),
            );
            let ended = match error {
                None => none,
                Some(message) => seq![told("tts_error"@, "message"@, message)],
            };
            if error is Some {
                lemma_told_is_no_answer("tts_error"@, "message"@, error.unwrap());
            }
            lemma_no_answers(ended);
            lemma_sound_answers(course.sound);
            lemma_answers_concat(sound_told(course.sound), ended);
            lemma_answers_concat(started, sound_told(course.sound) + ended);
            assert(none + none =~= none);
        } else {
            assert(started + none =~= started);
        }
    }
}

/// Whatever becomes of the sound (nobody can speak, the speaking fails, breaks off or
/// gives no sound), a typed message is answered with the model's reply, and that
/// comes last. Nothing before it answers the request, but for the failure of the
/// model, where there is no reply.
pub proof fn typed_messages_are_answered_last(
    state: ServeState,
    config: ServerConfig,
    session_id: Seq<char>,
    req_id: JsonView,
    want_audio: bool,
    course: Spoken,
)
    requires
        course.reply is Some == (course.stop is Replied),
        forall|i: int| 0 <= i < course.progress.len() ==> !is_answer(#[trigger] course.progress[i]),
    ensures
        ({
            let stream = chat_stream(state, config, session_id, req_id, want_audio, course);
            let answer = chat_body(req_id, course.reply);
            &&& stream.last() == answer
            &&& answers_in(stream) == failure_told(req_id, course.stop).push(answer)
            &&& !(course.stop is ProviderError) ==> answers_in(stream) == seq![answer]
            &&& !(course.stop is ProviderError) ==> forall|i: int|
                0 <= i < stream.len() - 1 ==> !is_answer(#[trigger] stream[i])
        }),
{
    let none = Seq::<JsonView>::empty();
    let stream = chat_stream(state, config, session_id, req_id, want_audio, course);
    let answer = chat_body(req_id, course.reply);
    let failure = failure_told(req_id, course.stop);
    let sound = chat_sound(state, config, session_id, want_audio, course);
    let before = course.progress + failure + sound;
    lemma_no_answers(course.progress);
    lemma_failure_answers(req_id, course.stop);
    lemma_chat_sound_answers(state, config, session_id, want_audio, course);
    lemma_answers_concat(course.progress, failure);
    lemma_answers_concat(course.progress + failure, sound);
    assert(none + failure + none =~= failure);
    let content = match course.reply {
        Some(t) => JsonView::Object(no_fields().push(field_text("content"@, t))),
        None => JsonView::Null,
    };
    lemma_answers(
        req_id,
        content,
        INTERNAL_ERROR as int,
        "No response generated"@,
        ""@,
        JsonView::Null,
    );
    assert(stream.drop_last() =~= before);
    assert(answers_in(stream) == failure.push(answer));
    if !(course.stop is ProviderError) {
        assert(failure.push(answer) =~= seq![answer]);
        assert forall|i: int| 0 <= i < stream.len() - 1 implies !is_answer(
            #[trigger] stream[i],
        ) by {
            assert(before[i] == stream[i]);
            if is_answer(before[i]) {
                lemma_answer_is_among(before, i);
            }
        }
    }
}

proof fn lemma_answer_is_among(events: Seq<JsonView>, i: int)
    requires
        0 <= i < events.len(),
        is_answer(events[i]),
    ensures
        answers_in(events).len() > 0,
    decreases events.len(),
{
    if i < events.len() - 1 {
        lemma_answer_is_among(events.drop_last(), i);
    }
}

/// Why the server could not say something on its own.
#[derive(Debug, PartialEq, Eq)]
pub enum VoicePushError {
    /// No voice provider is configured at all.
    NoVoice,
    /// The room is not known or has no pipeline.
    NotConfigured,
    /// No satellite listens for this device.
    Offline,
    /// Anything else, in words.
    Other(String),
}

/// The mathematical value of a [`VoicePushError`].
pub enum PushErrorView {
    NoVoice,
    NotConfigured,
    Offline,
    Other(Seq<char>),
}

impl View for VoicePushError {
    type V = PushErrorView;

    open spec fn view(&self) -> PushErrorView {
        match self {
            VoicePushError::NoVoice => PushErrorView::NoVoice,
            VoicePushError::NotConfigured => PushErrorView::NotConfigured,
            VoicePushError::Offline => PushErrorView::Offline,
            VoicePushError::Other(words) => PushErrorView::Other(words@),
        }
    }
}

/// The satellite that something is said to.
#[derive(Debug, PartialEq, Eq)]
pub struct PushTarget {
    pub room_profile: String,
    pub channel: u64,
    /// The namespace under which the session of the device is found or made.
    pub namespace: String,
}

/// What the server is about to say on its own.
#[derive(Debug, PartialEq, Eq)]
pub struct PushJob {
    pub session_id: String,
    pub tts_provider: String,
}

/// What goes to the satellite in a step, in order, and what comes of it.
#[derive(Debug, PartialEq)]
pub struct Pushed<T> {
    pub items: Vec<VoicePushItem>,
    pub next: Result<T, VoicePushError>,
}

/// Why there is nobody to speak in the session of a device.
pub open spec fn push_refusal(
    state: ServeState,
    config: ServerConfig,
    session_id: Seq<char>,
) -> Option<PushErrorView> {
    match pipeline_of(state, config, session_id) {
        Err(VoicePipelineLookup::NoVoice) => Some(PushErrorView::NoVoice),
        Err(VoicePipelineLookup::NotConfigured) => Some(PushErrorView::NotConfigured),
        Ok(p) => if !config.voice.unwrap().tts.deep_view().contains(p.tts_provider@) {
            Some(PushErrorView::Other(missing_provider("tts_provider"@, p.tts_provider@)))
        } else {
            None
        },
    }
}

impl ServeState {
    /// The satellite that something is to be said to: the one that listens for the
    /// device, in the room that it is in. No model is asked for one that does not.
    pub fn push_target(&self, config: &ServerConfig, device_id: &str) -> (r: Result<
        PushTarget,
        VoicePushError,
    >)
        requires
            self.wf(),
            config.wf(),
        ensures
            match r {
                Ok(target) => {
                    let s = self.voice_subscribers@[device_id@];
                    &&& self.voice_subscribers@.contains_key(device_id@)
                    &&& target.room_profile@ == s.room_profile@
                    &&& target.channel == s.channel
                    &&& config.room_profiles@.contains_key(s.room_profile@)
                    &&& target.namespace@ == config.namespace_of(s.room_profile@)
                },
                Err(e) => if !self.voice_subscribers@.contains_key(device_id@) {
                    e@ == PushErrorView::Offline
                } else {
                    &&& !config.room_profiles@.contains_key(
                        self.voice_subscribers@[device_id@].room_profile@,
                    )
                    &&& e@ == PushErrorView::NotConfigured
                },
            },
    {
        match self.voice_subscribers.get(device_id) {
            None => Err(VoicePushError::Offline),
            Some(s) => if !config.room_profiles.contains_key(s.room_profile.as_str()) {
                Err(VoicePushError::NotConfigured)
            } else {
                Ok(
                    PushTarget {
                        room_profile: s.room_profile.clone(),
                        channel: s.channel,
                        namespace: config.namespace_for_room_profile(s.room_profile.as_str()),
                    },
                )
            },
        }
    }

    /// Takes up the session of the device, once it was found or made: its room is
    /// pinned, and who will speak has to be there.
    pub fn push_voice_text_to_subscriber(
        &mut self,
        config: &ServerConfig,
        room_profile: &str,
        session: Result<String, String>,
    ) -> (r: Result<PushJob, VoicePushError>)
        requires
            old(self).wf(),
            config.wf(),
        ensures
            final(self).wf(),
            match session {
                Err(e) => {
                    &&& r matches Err(error)
                    &&& error@ == PushErrorView::Other("device-default lookup: "@ + e@)
                    &&& *final(self) == *old(self)
                },
                Ok(id) => {
                    &&& final(self).session_room_profiles.deep_view()
                        == old(self).session_room_profiles.deep_view().insert(id@, room_profile@)
                    &&& *final(self) == (ServeState {
                        session_room_profiles: final(self).session_room_profiles,
                        ..*old(self)
                    })
                    &&& match (r, push_refusal(*final(self), *config, id@)) {
                        (Ok(job), None) => {
                            &&& job.session_id == id
                            &&& job.tts_provider@ == pipeline_of(
                                *final(self),
                                *config,
                                id@,
                            )->Ok_0.tts_provider@
                        },
                        (Err(error), Some(e)) => error@ == e,
                        _ => false,
                    }
                },
            },
    {
        let id = match session {
            Err(e) => {
                return Err(
                    VoicePushError::Other(
                        "device-default lookup: ".to_owned().concat(e.as_str()),
                    ),
                );
            },
            Ok(id) => id,
        };
        self.pin_room(id.as_str(), room_profile);
        let pipeline = match resolve_voice_pipeline(self, config, id.as_str()) {
            Ok(p) => p,
            Err(VoicePipelineLookup::NoVoice) => {
                return Err(VoicePushError::NoVoice);
            },
            Err(VoicePipelineLookup::NotConfigured) => {
                return Err(VoicePushError::NotConfigured);
            },
        };
        let ready = match &config.voice {
            Some(v) => text::contains(&v.tts, pipeline.tts_provider.as_str()),
            None => false,
        };
        if !ready {
            return Err(
                VoicePushError::Other(missing("tts_provider", pipeline.tts_provider.as_str())),
            );
        }
        Ok(PushJob { session_id: id, tts_provider: pipeline.tts_provider })
    }
}

/// What the model is told in a user's place when the server speaks on its own: no
/// human typed or said it.
pub fn injected_message(text: &str) -> (r: ChatMessage)
    ensures
        r@.role == Role::User,
        r@.parts == seq![PartView::Text(text@)],
        r@.input_kind is None,
        r@.user_id is None,
{
    let mut parts: Vec<ContentPart> = Vec::new();
    parts.push(ContentPart::Text(text.to_owned()));
    assert(parts.deep_view() =~= seq![PartView::Text(text@)]);
    ChatMessage { role: Role::User, parts, input_kind: None, user_id: None }
}

/// What a satellite hears at the end of a push: that it is over, after what went
/// wrong, if anything did.
pub open spec fn push_ending(error: Option<Seq<char>>) -> Seq<PushItemView> {
    match error {
        None => seq![PushItemView::Done],
        Some(message) => seq![PushItemView::Error(message)].push(PushItemView::Done),
    }
}

fn failed_push(message: String) -> (r: (Vec<VoicePushItem>, VoicePushError))
    ensures
        r.0.deep_view() == push_ending(Some(message@)),
        r.1@ == PushErrorView::Other(message@),
{
    let mut items: Vec<VoicePushItem> = Vec::new();
    items.push(VoicePushItem::Error(message.clone()));
    items.push(VoicePushItem::Done);
    assert(items.deep_view() =~= seq![PushItemView::Error(message@)].push(PushItemView::Done));
    (items, VoicePushError::Other(message))
}

impl PushJob {
    /// What the satellite hears first, so that it can close its ears in time.
    pub fn start(&self, task: Option<String>) -> (r: VoicePushItem)
        ensures
            r@ == (PushItemView::Start { task: task.deep_view() }),
    {
        VoicePushItem::Start { task }
    }

    /// Takes up the model's reply. Without one the satellite is told, and the push
    /// is over.
    pub fn replied(self, reply: Option<String>) -> (r: Pushed<PushSpeaking>)
        ensures
            match reply {
                Some(t) => {
                    &&& r.items.deep_view() == seq![PushItemView::AssistantText(t@)]
                    &&& r.next matches Ok(speaking)
                    &&& speaking.tts_provider == self.tts_provider
                    &&& speaking.reply == t
                    &&& !speaking.spoke
                },
                None => {
                    &&& r.items.deep_view() == push_ending(Some("LLM turn produced no text"@))
                    &&& r.next matches Err(e)
                    &&& e@ == PushErrorView::Other("LLM turn produced no text"@)
                },
            },
    {
        match reply {
            Some(t) => {
                let mut items: Vec<VoicePushItem> = Vec::new();
                items.push(VoicePushItem::AssistantText(t.clone()));
                assert(items.deep_view() =~= seq![PushItemView::AssistantText(t@)]);
                Pushed {
                    items,
                    next: Ok(
                        PushSpeaking { tts_provider: self.tts_provider, reply: t, spoke: false },
                    ),
                }
            },
            None => {
                let (items, e) = failed_push("LLM turn produced no text".to_owned());
                Pushed { items, next: Err(e) }
            },
        }
    }
}

/// What the server says on its own, while it is being spoken.
#[derive(Debug, PartialEq, Eq)]
pub struct PushSpeaking {
    pub tts_provider: String,
    pub reply: String,
    /// Whether any sound reached the satellite.
    pub spoke: bool,
}

impl PushSpeaking {
    /// Takes up whether sound reached the satellite. Where it did not, the
    /// satellite is gone, and the speaking is to be broken off.
    pub fn delivered(&mut self, sent: bool) -> (r: Result<(), VoicePushError>)
        ensures
            match r {
                Ok(()) => sent && *final(self) == (PushSpeaking { spoke: true, ..*old(self) }),
                Err(e) => !sent && e@ == PushErrorView::Offline && *final(self) == *old(self),
            },
    {
        if sent {
            self.spoke = true;
            Ok(())
        } else {
            Err(VoicePushError::Offline)
        }
    }

    /// Ends the push. The satellite always hears that it is over, after it was told
    /// what went wrong, if anything did.
    pub fn finished(self, end: SynthesisEnd) -> (r: Pushed<()>)
        ensures
            ({
                let error = synthesis_error(end, self.spoke, no_sound(self.tts_provider@));
                &&& r.items.deep_view() == push_ending(error)
                &&& match (r.next, error) {
                    (Ok(()), None) => true,
                    (Err(e), Some(message)) => e@ == PushErrorView::Other(message),
                    _ => false,
                }
            }),
    {
        let silence = silent(self.tts_provider.as_str());
        match synthesis_failure(end, self.spoke, silence) {
            None => {
                let mut items: Vec<VoicePushItem> = Vec::new();
                items.push(VoicePushItem::Done);
                assert(items.deep_view() =~= seq![PushItemView::Done]);
                Pushed { items, next: Ok(()) }
            },
            Some(message) => {
                let (items, e) = failed_push(message);
                Pushed { items, next: Err(e) }
            },
        }
    }
}

/// How something that the server said on its own went on.
pub struct PushCourse {
    pub task: Option<Seq<char>>,
    /// The model's reply, where it gave one.
    pub reply: Option<Seq<char>>,
    /// The sound that reached the satellite, piece by piece.
    pub sound: Seq<Seq<i16>>,
    /// Whether the satellite was gone when the next piece was to reach it.
    pub gone: bool,
    pub end: SynthesisEnd,
}

/// What goes to a satellite of something that the server says on its own, from its
/// start to its end. Where nobody can speak, or the satellite is gone, nothing goes
/// out any more.
pub open spec fn push_stream(
    state: ServeState,
    config: ServerConfig,
    session_id: Seq<char>,
    course: PushCourse,
) -> Seq<PushItemView> {
    if push_refusal(state, config, session_id) is Some {
        Seq::empty()
    } else {
        seq![PushItemView::Start { task: course.task }] + match course.reply {
            None => push_ending(Some("LLM turn produced no text"@)),
            Some(t) => seq![PushItemView::AssistantText(t)] + course.sound.map_values(
                |pcm: Seq<i16>| PushItemView::AudioChunk(pcm),
            ) + if course.gone {
                Seq::empty()
            } else {
                push_ending(
                    synthesis_error(
                        course.end,
                        course.sound.len() > 0,
                        no_sound(pipeline_of(state, config, session_id)->Ok_0.tts_provider@),
                    ),
                )
            },
        }
    }
}

/// What comes of something that the server says on its own.
pub open spec fn push_outcome(
    state: ServeState,
    config: ServerConfig,
    session_id: Seq<char>,
    course: PushCourse,
) -> Result<(), PushErrorView> {
    match push_refusal(state, config, session_id) {
        Some(e) => Err(e),
        None => if course.reply is None {
            Err(PushErrorView::Other("LLM turn produced no text"@))
        } else if course.gone {
            Err(PushErrorView::Offline)
        } else {
            match synthesis_error(
                course.end,
                course.sound.len() > 0,
                no_sound(pipeline_of(state, config, session_id)->Ok_0.tts_provider@),
            ) {
                None => Ok(()),
                Some(message) => Err(PushErrorView::Other(message)),
            }
        },
    }
}

/// A satellite hears first that something begins, and nowhere else. It hears once
/// that it is over, and that last; just before it stands what went wrong, where
/// anything did, and nowhere else is anything said to have gone wrong. One that is
/// gone before the end hears neither, and where nobody can speak none hears anything.
pub proof fn pushes_begin_and_end_once(
    state: ServeState,
    config: ServerConfig,
    session_id: Seq<char>,
    course: PushCourse,
)
    ensures
        ({
            let items = push_stream(state, config, session_id, course);
            let outcome = push_outcome(state, config, session_id, course);
            let refused = push_refusal(state, config, session_id) is Some;
            let heard_out = !refused && (course.reply is None || !course.gone);
            let n = items.len() as int;
            &&& items.len() == 0 <==> refused
            &&& forall|i: int|
                0 <= i < n ==> ((#[trigger] items[i]) is Start <==> i == 0)
            &&& forall|i: int|
                0 <= i < n ==> ((#[trigger] items[i]) is Done <==> heard_out && i == n - 1)
            &&& forall|i: int|
                0 <= i < n ==> ((#[trigger] items[i]) is Error <==> heard_out && outcome is Err && i
                    == n - 2)
            &&& heard_out && outcome is Err ==> n >= 2 && outcome == Err::<(), PushErrorView>(
                PushErrorView::Other(items[n - 2]->Error_0),
            )
            &&& !refused && !heard_out ==> outcome == Err::<(), PushErrorView>(
                PushErrorView::Offline,
            )
        }),
{
}

proof fn lemma_told_keys()
    ensures
        "kind"@.len() == 4 && "kind"@[0] == 'k',
        "text"@.len() == 4 && "text"@[0] == 't',
        "data"@.len() == 4 && "data"@[0] == 'd',
        "stage"@.len() == 5,
        "status"@.len() == 6,
        "message"@.len() == 7,
        "transcript"@.len() == 10,
        "assistant_text"@.len() == 14,
        "stt"@.len() == 3 && "stt"@[0] == 's',
        "tts"@.len() == 3 && "tts"@[0] == 't',
        "intent"@.len() == 6,
{
    reveal_strlit("kind");
    reveal_strlit("text");
    reveal_strlit("data");
    reveal_strlit("stage");
    reveal_strlit("status");
    reveal_strlit("message");
    reveal_strlit("transcript");
    reveal_strlit("assistant_text");
    reveal_strlit("stt");
    reveal_strlit("tts");
    reveal_strlit("intent");
}

proof fn lemma_told(kind: Seq<char>, key: Seq<char>, value: Seq<char>)
    requires
        key == "text"@ || key == "data"@ || key == "message"@,
    ensures
        ({
            let event = told(kind, key, value);
            &&& event.get("id"@) is None
            &&& event.get_text("method"@) == Some("notifications/progress"@)
            &&& event.get("params"@) is Some
            &&& event.get("params"@).unwrap().get_text("kind"@) == Some(kind)
            &&& event.get("params"@).unwrap().get_text(key) == Some(value)
        }),
{
    lemma_told_keys();
    let a = ("kind"@, JsonView::Text(kind));
    let b = (key, JsonView::Text(value));
    let params = JsonView::Object(no_fields().push(a).push(b));
    notifications_are_brought_whole("notifications/progress"@, params);
    lemma_few_fields(a, b, a, b, "kind"@);
    lemma_few_fields(a, b, a, b, key);
}

proof fn lemma_stage_told(stage: Stage, start: bool)
    ensures
        ({
            let event = stage_told(stage, start);
            &&& event.get("id"@) is None
            &&& event.get_text("method"@) == Some("notifications/progress"@)
            &&& event.get("params"@) is Some
            &&& event.get("params"@).unwrap().get_text("kind"@) == Some("stage"@)
            &&& event.get("params"@).unwrap().get_text("stage"@) == Some(
                match stage {
                    Stage::Stt => "stt"@,
                    Stage::Intent => "intent"@,
                    Stage::Tts => "tts"@,
                },
            )
            &&& event.get("params"@).unwrap().get_text("status"@) == Some(
                if start {
                    "start"@
                } else {
                    "end"@
                },
            )
        }),
{
    lemma_told_keys();
    let a = ("kind"@, JsonView::Text("stage"@));
    let b = ("stage"@, JsonView::Text(stage_name(stage)));
    let c = (
        "status"@,
        JsonView::Text(
            if start {
                "start"@
            } else {
                "end"@
            },
        ),
    );
    let params = JsonView::Object(no_fields().push(a).push(b).push(c));
    notifications_are_brought_whole("notifications/progress"@, params);
    lemma_few_fields(a, b, c, c, "kind"@);
    lemma_few_fields(a, b, c, c, "stage"@);
    lemma_few_fields(a, b, c, c, "status"@);
}

/// The listener is told every character of what was made out, before it is told that
/// the listening has ended; and what was made out is what the turn goes on with.
/// Where nothing could be made out, the request is answered with the reason.
pub proof fn transcripts_are_told_whole(
    req_id: Json,
    transcript: Result<String, String>,
    r: Progressed<String>,
)
    requires
        call_ensures(transcribed, (&req_id, transcript), r),
    ensures
        transcript is Ok ==> {
            let first = r.events@[0]@;
            let last = r.events@[1]@;
            &&& r.next is Some
            &&& r.next.unwrap()@ == transcript->Ok_0@
            &&& r.events.len() == 2
            &&& first.get("id"@) is None
            &&& first.get("params"@).unwrap().get_text("kind"@) == Some("stt_final"@)
            &&& first.get("params"@).unwrap().get_text("text"@) == Some(transcript->Ok_0@)
            &&& last.get("id"@) is None
            &&& last.get("params"@).unwrap().get_text("kind"@) == Some("stage"@)
            &&& last.get("params"@).unwrap().get_text("stage"@) == Some("stt"@)
            &&& last.get("params"@).unwrap().get_text("status"@) == Some("end"@)
        },
        transcript is Err ==> {
            let event = r.events@[0]@;
            &&& r.next is None
            &&& r.events.len() == 1
            &&& event.get("id"@) == Some(req_id@)
            &&& event.get("error"@).unwrap().get("code"@) == Some(JsonView::Int(-32603))
            &&& event.get("error"@).unwrap().get_text("message"@) == Some(
                "STT failed: "@ + transcript->Err_0@,
            )
        },
{
    assert(r.events.deep_view().len() == r.events.len());
    assert(r.events.deep_view()[0] == r.events@[0]@);
    if transcript is Ok {
        lemma_told("stt_final"@, "text"@, transcript->Ok_0@);
        lemma_stage_told(Stage::Stt, false);
        assert(r.events.deep_view()[1] == r.events@[1]@);
    } else {
        errors_say_what_went_wrong(
            req_id@,
            INTERNAL_ERROR as int,
            "STT failed: "@ + transcript->Err_0@,
        );
    }
}

/// The listener is told every character of the reply, after it was told that the
/// thinking has ended and before it is told that the speaking starts; and the reply
/// is what will be spoken. A turn without a reply is over, and its request is answered
/// with an error, unless the model failed and that was told already.
pub proof fn replies_are_told_whole(
    thinking: Thinking,
    req_id: Json,
    reply: Option<String>,
    stop: TurnStop,
    r: Progressed<Speaking>,
)
    requires
        call_ensures(Thinking::replied, (thinking, &req_id, reply, &stop), r),
    ensures
        ({
            let first = r.events@[0]@;
            &&& first.get("id"@) is None
            &&& first.get("params"@).unwrap().get_text("kind"@) == Some("stage"@)
            &&& first.get("params"@).unwrap().get_text("stage"@) == Some("intent"@)
            &&& first.get("params"@).unwrap().get_text("status"@) == Some("end"@)
        }),
        reply is Some ==> {
            let second = r.events@[1]@;
            let third = r.events@[2]@;
            &&& r.events.len() == 3
            &&& second.get("id"@) is None
            &&& second.get("params"@).unwrap().get_text("kind"@) == Some("assistant_text"@)
            &&& second.get("params"@).unwrap().get_text("text"@) == Some(reply.unwrap()@)
            &&& third.get("id"@) is None
            &&& third.get("params"@).unwrap().get_text("kind"@) == Some("stage"@)
            &&& third.get("params"@).unwrap().get_text("stage"@) == Some("tts"@)
            &&& third.get("params"@).unwrap().get_text("status"@) == Some("start"@)
            &&& r.next is Some
            &&& r.next.unwrap().reply@ == reply.unwrap()@
            &&& r.next.unwrap().tts_provider@ == thinking.tts_provider@
            &&& !r.next.unwrap().spoke
        },
        reply is None ==> r.next is None,
        reply is None && stop is ProviderError ==> r.events.len() == 1,
        reply is None && !(stop is ProviderError) ==> {
            let last = r.events@[1]@;
            &&& r.events.len() == 2
            &&& last.get("id"@) == Some(req_id@)
            &&& last.get("error"@).unwrap().get("code"@) == Some(JsonView::Int(-32603))
            &&& last.get("error"@).unwrap().get_text("message"@) == Some("No response generated"@)
        },
{
    assert(r.events.deep_view().len() == r.events.len());
    assert(r.events.deep_view()[0] == r.events@[0]@);
    lemma_stage_told(Stage::Intent, false);
    if reply is Some {
        assert(reply.deep_view() == Some(reply.unwrap()@));
        lemma_told("assistant_text"@, "text"@, reply.unwrap()@);
        lemma_stage_told(Stage::Tts, true);
        assert(r.events.deep_view()[1] == r.events@[1]@);
        assert(r.events.deep_view()[2] == r.events@[2]@);
    } else if !(stop is ProviderError) {
        errors_say_what_went_wrong(req_id@, INTERNAL_ERROR as int, "No response generated"@);
        assert(r.events.deep_view()[1] == r.events@[1]@);
    }
}

/// Sound goes out whole: what is told of a piece of it, read again, gives every one of
/// its samples. After that some sound has gone out, and nothing else has changed.
pub proof fn sound_goes_out_whole(
    before: Speaking,
    after: Speaking,
    pcm: Vec<i16>,
    event: Json,
)
    requires
        exists|s: &mut Speaking|
            *s == before && *final(s) == after && #[trigger] call_ensures(
                Speaking::chunk,
                (s, &pcm),
                event,
            ),
    ensures
        ({
            let data = event@.get("params"@).unwrap().get_text("data"@);
            &&& event@.get("id"@) is None
            &&& event@.get_text("method"@) == Some("notifications/progress"@)
            &&& event@.get("params"@).unwrap().get_text("kind"@) == Some("audio_chunk"@)
            &&& data is Some
            &&& audio::decoded(data.unwrap()) == Ok::<Seq<i16>, AudioErrorView>(pcm@)
            &&& after.spoke
            &&& after.reply@ == before.reply@
            &&& after.tts_provider@ == before.tts_provider@
        }),
{
    lemma_told("audio_chunk"@, "data"@, audio::encoded(pcm@));
}

/// What is told of a piece of sound, read again, gives every one of its samples.
pub proof fn sound_is_told_whole(pcm: Vec<i16>, event: Json)
    requires
        call_ensures(audio_event, (&pcm,), event),
    ensures
        ({
            let data = event@.get("params"@).unwrap().get_text("data"@);
            &&& event@.get("id"@) is None
            &&& event@.get_text("method"@) == Some("notifications/progress"@)
            &&& event@.get("params"@).unwrap().get_text("kind"@) == Some("audio_chunk"@)
            &&& data is Some
            &&& audio::decoded(data.unwrap()) == Ok::<Seq<i16>, AudioErrorView>(pcm@)
        }),
{
    lemma_told("audio_chunk"@, "data"@, audio::encoded(pcm@));
}

/// A spoken turn ends with its result exactly where the speaking went through and some
/// sound went out. The result has every character of what was said and of the reply.
/// Otherwise it ends with an error in the words of whoever failed.
pub proof fn spoken_turns_end_with_what_was_said(
    speaking: Speaking,
    req_id: Json,
    user_text: &str,
    end: SynthesisEnd,
    r: Progressed<()>,
)
    requires
        call_ensures(Speaking::finished, (speaking, &req_id, user_text, end), r),
    ensures
        r.next is Some <==> end is Done && speaking.spoke,
        end is Done && speaking.spoke ==> {
            let first = r.events@[0]@;
            let last = r.events@[1]@;
            &&& r.events.len() == 2
            &&& first.get("id"@) is None
            &&& first.get("params"@).unwrap().get_text("kind"@) == Some("stage"@)
            &&& first.get("params"@).unwrap().get_text("stage"@) == Some("tts"@)
            &&& first.get("params"@).unwrap().get_text("status"@) == Some("end"@)
            &&& last.get("id"@) == Some(req_id@)
            &&& last.get("result"@) is Some
            &&& last.get("result"@).unwrap().get_text("transcript"@) == Some(user_text@)
            &&& last.get("result"@).unwrap().get_text("assistant_text"@) == Some(speaking.reply@)
        },
        !(end is Done && speaking.spoke) ==> {
            let event = r.events@[0]@;
            &&& r.events.len() == 1
            &&& event.get("id"@) == Some(req_id@)
            &&& event.get("error"@).unwrap().get("code"@) == Some(JsonView::Int(-32603))
            &&& event.get("error"@).unwrap().get_text("message"@) == Some(
                match end {
                    SynthesisEnd::Done => "TTS provider '"@ + speaking.tts_provider@
                        + "' produced no audio"@ + " (check fn_name / payload / audio_field)"@,
                    SynthesisEnd::Failed(e) => "TTS synthesis failed: "@ + e@,
                    SynthesisEnd::Panicked(e) => "TTS task panicked: "@ + e@,
                },
            )
        },
{
    assert(r.events.deep_view().len() == r.events.len());
    assert(r.events.deep_view()[0] == r.events@[0]@);
    if end is Done && speaking.spoke {
        lemma_stage_told(Stage::Tts, false);
        results_are_brought_whole(req_id@, spoken_result(user_text@, speaking.reply@));
        assert(r.events.deep_view()[1] == r.events@[1]@);
        lemma_told_keys();
        let a = ("transcript"@, JsonView::Text(user_text@));
        let b = ("assistant_text"@, JsonView::Text(speaking.reply@));
        lemma_few_fields(a, b, a, b, "transcript"@);
        lemma_few_fields(a, b, a, b, "assistant_text"@);
    } else {
        let error = speaking_error(speaking.tts_provider@, end, speaking.spoke).unwrap();
        errors_say_what_went_wrong(req_id@, INTERNAL_ERROR as int, error);
    }
}

/// A typed message is answered with every character of the reply, and with an error
/// where there is none.
pub proof fn typed_messages_are_answered_whole(req_id: Json, reply: Option<String>, r: Json)
    requires
        call_ensures(chat_answer, (&req_id, &reply), r),
    ensures
        r@.get("id"@) == Some(req_id@),
        r@.get("result"@) is Some <==> reply is Some,
        r@.get("error"@) is Some <==> reply is None,
        reply is Some ==> r@.get("result"@).unwrap().get_text("content"@) == Some(
            reply.unwrap()@,
        ),
        reply is None ==> r@.get("error"@).unwrap().get("code"@) == Some(JsonView::Int(-32603)),
        reply is None ==> r@.get("error"@).unwrap().get_text("message"@) == Some(
            "No response generated"@,
        ),
{
    errors_say_what_went_wrong(req_id@, INTERNAL_ERROR as int, "No response generated"@);
    if reply is Some {
        assert(reply.deep_view() == Some(reply.unwrap()@));
        let a = ("content"@, JsonView::Text(reply.unwrap()@));
        results_are_brought_whole(req_id@, JsonView::Object(no_fields().push(a)));
        lemma_few_fields(a, a, a, a, "content"@);
    }
}

/// Before the answer to a typed message is spoken, its listener is told every character
/// of it, and why it will not be spoken, where it will not: because no voice is
/// configured, the room has no pipeline, or its speaker is not there.
pub proof fn answers_are_told_before_they_are_spoken(
    state: ServeState,
    config: ServerConfig,
    session_id: &str,
    reply: &str,
    r: Progressed<Speaking>,
    found: Result<VoicePipeline, VoicePipelineLookup>,
)
    requires
        call_ensures(stream_chat_tts, (&state, &config, session_id, reply), r),
        call_ensures(resolve_voice_pipeline, (&state, &config, session_id), found),
    ensures
        ({
            let first = r.events@[0]@;
            &&& r.events.len() >= 1
            &&& first.get("id"@) is None
            &&& first.get("params"@).unwrap().get_text("kind"@) == Some("assistant_text"@)
            &&& first.get("params"@).unwrap().get_text("text"@) == Some(reply@)
        }),
        r.next is Some <==> found is Ok && config.voice.unwrap().tts.deep_view().contains(
            found->Ok_0.tts_provider@,
        ),
        r.next is Some ==> r.events.len() == 1 && r.next.unwrap().reply@ == reply@
            && !r.next.unwrap().spoke && r.next.unwrap().tts_provider@
            == found->Ok_0.tts_provider@,
        r.next is None ==> {
            let last = r.events@[1]@;
            &&& r.events.len() == 2
            &&& last.get("id"@) is None
            &&& last.get("params"@).unwrap().get_text("kind"@) == Some("tts_error"@)
            &&& last.get("params"@).unwrap().get_text("message"@) == Some(
                match found {
                    Err(VoicePipelineLookup::NoVoice) =>
                        "voice unavailable: no STT/TTS providers configured server-side"@,
                    Err(VoicePipelineLookup::NotConfigured) =>
                        "session's room_profile has no voice_pipeline configured"@,
                    Ok(p) => "tts_provider"@ + " '"@ + p.tts_provider@ + "' not instantiated"@,
                },
            )
        },
{
    assert(r.events.deep_view().len() == r.events.len());
    assert(r.events.deep_view()[0] == r.events@[0]@);
    lemma_told("assistant_text"@, "text"@, reply@);
    let refusal = chat_tts_refusal(state, config, session_id@);
    if refusal is Some {
        lemma_told("tts_error"@, "message"@, refusal.unwrap());
        assert(r.events.deep_view()[1] == r.events@[1]@);
    }
}

/// Nothing goes out of the sound of a typed message where nobody asks for it or there
/// is no reply. Otherwise the reply is spoken as if nothing else had been asked.
pub proof fn sound_is_made_where_it_is_wanted(
    state: ServeState,
    config: ServerConfig,
    session_id: &str,
    want_audio: bool,
    reply: Option<String>,
    r: Progressed<Speaking>,
    text: &str,
    spoken: Progressed<Speaking>,
)
    requires
        call_ensures(run_turn, (&state, &config, session_id, want_audio, &reply), r),
        reply is Some ==> text@ == reply.unwrap()@,
        call_ensures(stream_chat_tts, (&state, &config, session_id, text), spoken),
    ensures
        !(want_audio && reply is Some) ==> r.events.len() == 0 && r.next is None,
        want_audio && reply is Some ==> r.events.len() == spoken.events.len(),
        want_audio && reply is Some ==> (r.next is Some <==> spoken.next is Some),
        want_audio && reply is Some && r.next is Some ==> r.next.unwrap().reply@
            == reply.unwrap()@ && r.next.unwrap().tts_provider@
            == spoken.next.unwrap().tts_provider@ && !r.next.unwrap().spoke,
        forall|i: int|
            0 <= i < r.events.len() && want_audio && reply is Some ==> (#[trigger] r.events@[i])@
                == spoken.events@[i]@,
{
    assert(r.events.deep_view().len() == r.events.len());
    assert(spoken.events.deep_view().len() == spoken.events.len());
    if want_audio && reply is Some {
        assert forall|i: int| 0 <= i < r.events.len() implies (#[trigger] r.events@[i])@
            == spoken.events@[i]@ by {
            assert(r.events.deep_view()[i] == r.events@[i]@);
            assert(spoken.events.deep_view()[i] == spoken.events@[i]@);
        }
    }
}

/// Nothing is told of a speaking that went through with some sound. Of any other the
/// listener is told what went wrong, in the words of whoever failed.
pub proof fn failed_sound_is_told(speaking: Speaking, end: SynthesisEnd, r: Option<Json>)
    requires
        call_ensures(chat_tts_finished, (speaking, end), r),
    ensures
        r is None <==> end is Done && speaking.spoke,
        r is Some ==> r.unwrap()@.get("id"@) is None,
        r is Some ==> r.unwrap()@.get("params"@).unwrap().get_text("kind"@) == Some(
            "tts_error"@,
        ),
        r is Some ==> r.unwrap()@.get("params"@).unwrap().get_text("message"@) == Some(
            match end {
                SynthesisEnd::Done => "TTS provider '"@ + speaking.tts_provider@
                    + "' produced no audio"@,
                SynthesisEnd::Failed(e) => "TTS synthesis failed: "@ + e@,
                SynthesisEnd::Panicked(e) => "TTS task panicked: "@ + e@,
            },
        ),
{
    let error = synthesis_error(end, speaking.spoke, no_sound(speaking.tts_provider@));
    if error is Some {
        lemma_told("tts_error"@, "message"@, error.unwrap());
        assert(r.deep_view() is Some);
        assert(r.deep_view() == Some(r.unwrap()@));
    } else {
        assert(r.deep_view() is None);
    }
}

/// What is written down is every sample of what was sent, by the listener of the
/// room, in the language of the request or else of the room. It is, exactly where a
/// pipeline is found, its listener is there, and what was sent is sound.
pub proof fn listeners_get_what_was_sent(
    state: ServeState,
    config: ServerConfig,
    session_id: &str,
    audio_b64: &str,
    language: Option<String>,
    req_id: Json,
    r: Progressed<SttJob>,
    found: Result<VoicePipeline, VoicePipelineLookup>,
    read: Result<Vec<i16>, AudioError>,
)
    requires
        call_ensures(
            run_voice_turn,
            (&state, &config, session_id, audio_b64, language, &req_id),
            r,
        ),
        call_ensures(resolve_voice_pipeline, (&state, &config, session_id), found),
        call_ensures(audio::decode, (audio_b64,), read),
    ensures
        r.events.len() == 1,
        r.next is Some <==> found is Ok && read is Ok
            && config.voice.unwrap().stt.deep_view().contains(found->Ok_0.stt_provider@),
        r.next is Some ==> {
            let job = r.next.unwrap();
            let event = r.events@[0]@;
            &&& job.pcm@ == read->Ok_0@
            &&& job.stt_provider@ == found->Ok_0.stt_provider@
            &&& language is Some ==> job.language.deep_view() == Some(language.unwrap()@)
            &&& language is None ==> job.language.deep_view() == found->Ok_0.language.deep_view()
            &&& event.get("id"@) is None
            &&& event.get("params"@).unwrap().get_text("kind"@) == Some("stage"@)
            &&& event.get("params"@).unwrap().get_text("stage"@) == Some("stt"@)
            &&& event.get("params"@).unwrap().get_text("status"@) == Some("start"@)
        },
        r.next is None ==> {
            let event = r.events@[0]@;
            let code = event.get("error"@).unwrap().get("code"@);
            let message = event.get("error"@).unwrap().get_text("message"@);
            &&& event.get("id"@) == Some(req_id@)
            &&& match found {
                Err(VoicePipelineLookup::NoVoice) => code == Some(JsonView::Int(-32601)) && message
                    == Some(
                    "voice/pipeline_run unavailable: no STT/TTS providers configured"@,
                ),
                Err(VoicePipelineLookup::NotConfigured) => code == Some(JsonView::Int(-32602))
                    && message == Some(
                    "Session's room_profile has no voice_pipeline configured"@,
                ),
                Ok(p) => if !config.voice.unwrap().stt.deep_view().contains(p.stt_provider@) {
                    code == Some(JsonView::Int(-32603)) && message == Some(
                        "stt_provider"@ + " '"@ + p.stt_provider@ + "' not instantiated"@,
                    )
                } else {
                    code == Some(JsonView::Int(-32602)) && message == Some(
                        match read {
                            Err(AudioError::Base64(words)) => "Invalid base64 audio: "@ + words@,
                            _ => "Audio byte length is not a multiple of 2 (expected s16le)"@,
                        },
                    )
                },
            }
        },
{
    assert(r.events.deep_view().len() == r.events.len());
    assert(r.events.deep_view()[0] == r.events@[0]@);
    lemma_stage_told(Stage::Stt, true);
    let refusal = listening_refusal(state, config, session_id@, audio_b64@);
    if refusal is Some {
        errors_say_what_went_wrong(req_id@, refusal.unwrap().0, refusal.unwrap().1);
    }
}

/// The model is asked exactly where a pipeline is found and its speaker is there, and
/// that is who will speak.
pub proof fn speakers_are_there_before_the_model_is_asked(
    state: ServeState,
    config: ServerConfig,
    session_id: &str,
    req_id: Json,
    r: Progressed<Thinking>,
    found: Result<VoicePipeline, VoicePipelineLookup>,
)
    requires
        call_ensures(run_voice_turn_from_text_sse, (&state, &config, session_id, &req_id), r),
        call_ensures(resolve_voice_pipeline, (&state, &config, session_id), found),
    ensures
        r.events.len() == 1,
        r.next is Some <==> found is Ok && config.voice.unwrap().tts.deep_view().contains(
            found->Ok_0.tts_provider@,
        ),
        r.next is Some ==> {
            let event = r.events@[0]@;
            &&& r.next.unwrap().tts_provider@ == found->Ok_0.tts_provider@
            &&& event.get("id"@) is None
            &&& event.get("params"@).unwrap().get_text("kind"@) == Some("stage"@)
            &&& event.get("params"@).unwrap().get_text("stage"@) == Some("intent"@)
            &&& event.get("params"@).unwrap().get_text("status"@) == Some("start"@)
        },
        r.next is None ==> {
            let event = r.events@[0]@;
            let code = event.get("error"@).unwrap().get("code"@);
            let message = event.get("error"@).unwrap().get_text("message"@);
            &&& event.get("id"@) == Some(req_id@)
            &&& match found {
                Err(VoicePipelineLookup::NoVoice) => code == Some(JsonView::Int(-32601)) && message
                    == Some("voice unavailable: no STT/TTS providers configured"@),
                Err(VoicePipelineLookup::NotConfigured) => code == Some(JsonView::Int(-32602))
                    && message == Some(
                    "Session's room_profile has no voice_pipeline configured"@,
                ),
                Ok(p) => code == Some(JsonView::Int(-32603)) && message == Some(
                    "tts_provider"@ + " '"@ + p.tts_provider@ + "' not instantiated"@,
                ),
            }
        },
{
    assert(r.events.deep_view().len() == r.events.len());
    assert(r.events.deep_view()[0] == r.events@[0]@);
    lemma_stage_told(Stage::Intent, true);
    let refusal = speaking_refusal(state, config, session_id@);
    if refusal is Some {
        errors_say_what_went_wrong(req_id@, refusal.unwrap().0, refusal.unwrap().1);
    }
}

/// What the model is told in a user's place is one text of every character given, and
/// nobody's.
pub proof fn injected_messages_are_whole(text: &str, r: ChatMessage)
    requires
        call_ensures(injected_message, (text,), r),
    ensures
        r.role == Role::User,
        r.parts.len() == 1,
        r.parts@[0] is Text,
        r.parts@[0]->Text_0@ == text@,
        r.input_kind is None,
        r.user_id is None,
{
    assert(r@.parts.len() == r.parts.len());
    assert(r@.parts[0] == r.parts@[0]@);
}

/// Something is said to the satellite that listens for a device, on its own channel and
/// in its own room, exactly where one listens and its room is known.
pub proof fn pushes_go_to_who_listens(
    state: ServeState,
    config: ServerConfig,
    device_id: &str,
    r: Result<PushTarget, VoicePushError>,
    room: &str,
    namespace: String,
)
    requires
        call_ensures(ServeState::push_target, (&state, &config, device_id), r),
        call_ensures(ServerConfig::namespace_for_room_profile, (&config, room), namespace),
        r is Ok ==> room@ == state.voice_subscribers@[device_id@].room_profile@,
    ensures
        r is Ok <==> state.voice_subscribers@.contains_key(device_id@)
            && config.room_profiles@.contains_key(
            state.voice_subscribers@[device_id@].room_profile@,
        ),
        r is Ok ==> r->Ok_0.room_profile@ == state.voice_subscribers@[device_id@].room_profile@,
        r is Ok ==> r->Ok_0.channel == state.voice_subscribers@[device_id@].channel,
        r is Ok ==> r->Ok_0.namespace@ == namespace@,
        r is Err ==> (r->Err_0 is Offline <==> !state.voice_subscribers@.contains_key(device_id@)),
        r is Err ==> r->Err_0 is Offline || r->Err_0 is NotConfigured,
{
}

/// The session of a device is pinned to its room, and no other is. What is said goes
/// out in that session by the speaker of its room, exactly where a session and a
/// pipeline are found and the speaker is there.
pub proof fn pushes_are_spoken_in_the_room(
    before: ServeState,
    after: ServeState,
    config: ServerConfig,
    room_profile: &str,
    session: Result<String, String>,
    r: Result<PushJob, VoicePushError>,
    id: &str,
    found: Result<VoicePipeline, VoicePipelineLookup>,
    other: Seq<char>,
)
    requires
        exists|s: &mut ServeState|
            *s == before && *final(s) == after && #[trigger] call_ensures(
                ServeState::push_voice_text_to_subscriber,
                (s, &config, room_profile, session),
                r,
            ),
        session is Ok ==> id@ == session->Ok_0@,
        call_ensures(resolve_voice_pipeline, (&after, &config, id), found),
    ensures
        r is Ok <==> session is Ok && found is Ok
            && config.voice.unwrap().tts.deep_view().contains(found->Ok_0.tts_provider@),
        r is Ok ==> r->Ok_0.session_id@ == session->Ok_0@,
        r is Ok ==> r->Ok_0.tts_provider@ == found->Ok_0.tts_provider@,
        session is Ok ==> after.session_room_profiles@.contains_key(id@),
        session is Ok ==> after.session_room_profiles@[id@]@ == room_profile@,
        session is Err ==> after == before,
        other != id@ ==> after.session_room_profiles@.contains_key(other)
            == before.session_room_profiles@.contains_key(other),
        other != id@ && after.session_room_profiles@.contains_key(other)
            ==> after.session_room_profiles@[other]@ == before.session_room_profiles@[other]@,
        after.sessions == before.sessions,
        after.voice_subscribers == before.voice_subscribers,
        r is Err ==> match session {
            Err(e) => r->Err_0 is Other && r->Err_0->Other_0@ == "device-default lookup: "@ + e@,
            Ok(_) => match found {
                Err(VoicePipelineLookup::NoVoice) => r->Err_0 is NoVoice,
                Err(VoicePipelineLookup::NotConfigured) => r->Err_0 is NotConfigured,
                Ok(p) => r->Err_0 is Other && r->Err_0->Other_0@ == "tts_provider"@ + " '"@
                    + p.tts_provider@ + "' not instantiated"@,
            },
        },
{
    if session is Ok {
        assert(after.session_room_profiles.deep_view().contains_key(id@));
        assert(after.session_room_profiles.deep_view()[id@] == room_profile@);
        if other != id@ {
            assert(after.session_room_profiles.deep_view().contains_key(other)
                == before.session_room_profiles.deep_view().contains_key(other));
            if after.session_room_profiles@.contains_key(other) {
                assert(after.session_room_profiles.deep_view()[other]
                    == before.session_room_profiles.deep_view()[other]);
            }
        }
    }
}

/// A satellite hears of what task a push is, every character of the reply, and what
/// will be spoken is that reply. Without a reply it hears so, and that the push is
/// over.
pub proof fn pushes_tell_the_reply_whole(
    job: PushJob,
    task: Option<String>,
    start: VoicePushItem,
    reply: Option<String>,
    r: Pushed<PushSpeaking>,
)
    requires
        call_ensures(PushJob::start, (&job, task), start),
        call_ensures(PushJob::replied, (job, reply), r),
    ensures
        start is Start,
        start->Start_task.deep_view() == task.deep_view(),
        r.next is Ok <==> reply is Some,
        reply is Some ==> {
            &&& r.items.len() == 1
            &&& r.items@[0] is AssistantText
            &&& r.items@[0]->AssistantText_0@ == reply.unwrap()@
            &&& r.next->Ok_0.reply@ == reply.unwrap()@
            &&& r.next->Ok_0.tts_provider@ == job.tts_provider@
            &&& !r.next->Ok_0.spoke
        },
        reply is None ==> {
            &&& r.items.len() == 2
            &&& r.items@[0] is Error
            &&& r.items@[0]->Error_0@ == "LLM turn produced no text"@
            &&& r.items@[1] is Done
            &&& r.next->Err_0 is Other
            &&& r.next->Err_0->Other_0@ == "LLM turn produced no text"@
        },
{
    assert(r.items.deep_view().len() == r.items.len());
    assert(r.items.deep_view()[0] == r.items@[0]@);
    if reply is None {
        assert(r.items.deep_view()[1] == r.items@[1]@);
    }
}

/// A push ends well exactly where the speaking went through and some sound reached the
/// satellite. It hears last that the push is over, and just before what went wrong,
/// which is also what comes of the push.
pub proof fn pushes_end_with_what_went_wrong(
    speaking: PushSpeaking,
    end: SynthesisEnd,
    r: Pushed<()>,
)
    requires
        call_ensures(PushSpeaking::finished, (speaking, end), r),
    ensures
        r.next is Ok <==> end is Done && speaking.spoke,
        r.items.len() >= 1,
        r.items@[r.items.len() - 1] is Done,
        r.next is Ok ==> r.items.len() == 1,
        r.next is Err ==> {
            let words = match end {
                SynthesisEnd::Done => "TTS provider '"@ + speaking.tts_provider@
                    + "' produced no audio"@,
                SynthesisEnd::Failed(e) => "TTS synthesis failed: "@ + e@,
                SynthesisEnd::Panicked(e) => "TTS task panicked: "@ + e@,
            };
            &&& r.items.len() == 2
            &&& r.items@[0] is Error
            &&& r.items@[0]->Error_0@ == words
            &&& r.next->Err_0 is Other
            &&& r.next->Err_0->Other_0@ == words
        },
{
    assert(r.items.deep_view().len() == r.items.len());
    assert(r.items.deep_view()[0] == r.items@[0]@);
    if r.next is Err {
        assert(r.items.deep_view()[1] == r.items@[1]@);
    }
}

/// Sound counts as heard exactly where it reached the satellite; where it did not, the
/// satellite is gone.
pub proof fn sound_counts_where_it_arrives(
    before: PushSpeaking,
    after: PushSpeaking,
    sent: bool,
    r: Result<(), VoicePushError>,
)
    requires
        exists|s: &mut PushSpeaking|
            *s == before && *final(s) == after && #[trigger] call_ensures(
                PushSpeaking::delivered,
                (s, sent),
                r,
            ),
    ensures
        r is Ok <==> sent,
        r is Err ==> r->Err_0 is Offline,
        after.spoke == (before.spoke || sent),
        after.reply@ == before.reply@,
        after.tts_provider@ == before.tts_provider@,
{
}

} // verus!
