//! The voice requests of satellites: configuration, spoken turns, subscriptions.

use vstd::prelude::*;

use crate::audio;
use crate::json::{lemma_few_fields, no_fields, Fields, Json, JsonView};
use crate::outside::{
    after_slash, base64_bytes, base64_encode, base64_text, expand_tilde, file_name, last_component, piece_of, plain_path,
    resolve_tilde, sha256, sha256_digest, tilde_resolved,
};
use crate::rpc::{
    device_room_info, error_body, error_response, errors_say_what_went_wrong, field_text,
    notification_body, notification_event, notifications_are_brought_whole, param_str, param_text,
    result_body, result_event, results_are_brought_whole, room_info_of, with_room_info, Caller,
    INTERNAL_ERROR, INVALID_PARAMS, METHOD_NOT_FOUND,
};
use crate::state::{RoomInfo, ServeState, ServerConfig, Subscriber, VoicePipeline};
use crate::text;

verus! {

/// The digit of a number below sixteen.
pub open spec fn hex_digit(n: int) -> char {
    if n < 10 {
        ('0' as int + n) as char
    } else {
        ('a' as int + n - 10) as char
    }
}

/// Bytes as pairs of hexadecimal digits.
pub open spec fn hex(bytes: Seq<u8>) -> Seq<char>
    decreases bytes.len(),
{
    if bytes.len() == 0 {
        Seq::empty()
    } else {
        hex(bytes.drop_last()).push(hex_digit(bytes.last() as int / 16)).push(
            hex_digit(bytes.last() as int % 16),
        )
    }
}

fn digit(n: u8) -> (r: &'static str)
    requires
        n < 16,
    ensures
        r@ == seq![hex_digit(n as int)],
{
    proof {
        reveal_strlit("0");
        reveal_strlit("1");
        reveal_strlit("2");
        reveal_strlit("3");
        reveal_strlit("4");
        reveal_strlit("5");
        reveal_strlit("6");
        reveal_strlit("7");
        reveal_strlit("8");
        reveal_strlit("9");
        reveal_strlit("a");
        reveal_strlit("b");
        reveal_strlit("c");
        reveal_strlit("d");
        reveal_strlit("e");
        reveal_strlit("f");
    }
    let r = match n {
        0 => "0",
        1 => "1",
        2 => "2",
        3 => "3",
        4 => "4",
        5 => "5",
        6 => "6",
        7 => "7",
        8 => "8",
        9 => "9",
        10 => "a",
        11 => "b",
        12 => "c",
        13 => "d",
        14 => "e",
        _ => "f",
    };
    assert(r@ =~= seq![hex_digit(n as int)]);
    r
}

/// Bytes as pairs of hexadecimal digits.
pub fn hex_text(bytes: &Vec<u8>) -> (r: String)
    ensures
        r@ == hex(bytes@),
{
    let mut r = String::new();
    let mut i: usize = 0;
    while i < bytes.len()
        invariant
            i <= bytes.len(),
            r@ == hex(bytes@.take(i as int)),
        decreases bytes.len() - i,
    {
        let b: u8 = bytes[i];
        proof {
            assert(bytes@.take(i + 1).drop_last() =~= bytes@.take(i as int));
            assert(bytes@.take(i + 1).last() == b);
        }
        let ghost before = r@;
        r.append(digit(b / 16));
        r.append(digit(b % 16));
        assert(r@ =~= before.push(hex_digit(b as int / 16)).push(hex_digit(b as int % 16)));
        i += 1;
    }
    assert(bytes@.take(i as int) =~= bytes@);
    r
}

/// A digest's text is twice as long as the digest.
pub proof fn hex_is_twice_as_long(bytes: Seq<u8>)
    ensures
        hex(bytes).len() == 2 * bytes.len(),
    decreases bytes.len(),
{
    if bytes.len() > 0 {
        hex_is_twice_as_long(bytes.drop_last());
    }
}

/// The file of the word that wakes a satellite, as it was found.
#[derive(Debug, PartialEq, Eq)]
pub struct WakeWordFile {
    /// Its path, with a tilde resolved.
    pub path: String,
    /// Its bytes and the last part of its path, or why it could not be read.
    pub content: Result<(Vec<u8>, Option<String>), String>,
}

impl WakeWordFile {
    /// The file at this path, from what came of reading it.
    pub fn found(path: String, read: Result<Vec<u8>, String>) -> (r: WakeWordFile)
        ensures
            r.path == path,
            match read {
                Ok(bytes) => {
                    &&& r.content matches Ok(content)
                    &&& content.0 == bytes
                    &&& plain_path(path@) ==> content.1.deep_view() == last_component(path@)
                    &&& content.1 matches Some(name) ==> piece_of(path@, name@)
                },
                Err(e) => r.content == Err::<(Vec<u8>, Option<String>), String>(e),
            },
    {
        let content = match read {
            Ok(bytes) => {
                let name = file_name(path.as_str());
                Ok((bytes, name))
            },
            Err(e) => Err(e),
        };
        WakeWordFile { path, content }
    }
}

/// Whether this is the file that has to be read to answer what wakes a satellite,
/// where this is the home directory: none where none is configured, and a tilde at
/// the start of its path stands for the home directory.
pub open spec fn wake_word_at(
    model: Option<Seq<char>>,
    home: Option<Seq<char>>,
    path: Option<Seq<char>>,
) -> bool {
    match (model, path) {
        (Some(m), Some(p)) => tilde_resolved(m, home, p),
        (None, None) => true,
        _ => false,
    }
}

/// The file that has to be read to answer what wakes a satellite, from the home
/// directory.
pub fn wake_word_path_in(config: &ServerConfig, home: &Option<String>) -> (r: Option<String>)
    ensures
        wake_word_at(config.wake_word_model.deep_view(), home.deep_view(), r.deep_view()),
{
    match &config.wake_word_model {
        Some(p) => {
            let home = match home {
                Some(h) => Some(h.as_str()),
                None => None,
            };
            Some(resolve_tilde(p.as_str(), home))
        },
        None => None,
    }
}

/// The file that has to be read to answer what wakes a satellite, on this machine. A
/// machine without a home directory resolves a tilde to itself.
pub fn wake_word_path(config: &ServerConfig) -> (r: Option<String>)
    ensures
        exists|home: Option<Seq<char>>| #[trigger]
            wake_word_at(config.wake_word_model.deep_view(), home, r.deep_view()),
{
    let home = Some(expand_tilde("~"));
    wake_word_path_in(config, &home)
}

/// What a satellite is told of the word that wakes it.
pub open spec fn wake_word(bytes: Seq<u8>, filename: Option<Seq<char>>) -> JsonView {
    JsonView::Object(
        no_fields().push(field_text("format"@, "onnx_inline"@)).push(
            field_text(
                "filename"@,
                match filename {
                    Some(f) => f,
                    None => "wake.onnx"@,
                },
            ),
        ).push(field_text("sha256"@, hex(sha256_digest(bytes)))).push(
            field_text("data_b64"@, base64_text(bytes)),
        ),
    )
}

/// Tells a satellite how it is configured.
pub fn handle_voice_config(req_id: &Json, file: Option<WakeWordFile>) -> (r: Json)
    requires
        file matches Some(f) ==> f.content matches Ok(c) ==> 4 * c.0.len() <= usize::MAX,
    ensures
        r@ == match file {
            None => result_body(req_id@, JsonView::Object(no_fields())),
            Some(f) => match f.content {
                Ok((bytes, filename)) => result_body(
                    req_id@,
                    JsonView::Object(
                        no_fields().push(
                            ("wake_word_model"@, wake_word(bytes@, filename.deep_view())),
                        ),
                    ),
                ),
                Err(e) => error_body(
                    req_id@,
                    INTERNAL_ERROR as int,
                    "voice.wake_word_model '"@ + f.path@ + "' could not be read: "@ + e@,
                ),
            },
        },
        file matches Some(f) ==> (f.content matches Ok(c) ==> base64_bytes(base64_text(c.0@))
            == Ok::<Seq<u8>, Seq<char>>(c.0@)),
{
    let f = match file {
        None => {
            return result_event(req_id, Fields::new().object());
        },
        Some(f) => f,
    };
    match f.content {
        Ok((bytes, filename)) => {
            let name = match filename {
                Some(n) => n,
                None => "wake.onnx".to_owned(),
            };
            let digest = sha256(&bytes);
            let sha = hex_text(&digest);
            let b64 = base64_encode(&bytes);
            let model = Fields::new().with_text("format", "onnx_inline").with_text(
                "filename",
                name.as_str(),
            ).with_text("sha256", sha.as_str()).with_text("data_b64", b64.as_str()).object();
            result_event(req_id, Fields::new().with("wake_word_model", model).object())
        },
        Err(e) => error_response(
            req_id,
            INTERNAL_ERROR,
            "voice.wake_word_model '".to_owned().concat(f.path.as_str()).concat(
                "' could not be read: ",
            ).concat(e.as_str()).as_str(),
        ),
    }
}

/// Why a request that names a device is refused: it has to name one, and that has
/// to be the one that its token belongs to.
pub open spec fn device_refusal(params: Option<Json>, device_id: Seq<char>) -> Option<
    (int, Seq<char>),
> {
    match param_text(params, "device_id"@) {
        None => Some((INVALID_PARAMS as int, "Missing params.device_id"@)),
        Some(claimed) => if claimed != device_id {
            Some(
                (
                    INVALID_PARAMS as int,
                    "params.device_id does not match the authenticated device"@,
                ),
            )
        } else {
            None
        },
    }
}

/// Why a spoken request is refused.
pub open spec fn pipeline_refusal(
    has_voice: bool,
    params: Option<Json>,
    device_id: Seq<char>,
) -> Option<(int, Seq<char>)> {
    if !has_voice {
        Some(
            (
                METHOD_NOT_FOUND as int,
                "voice/pipeline_run unavailable: no STT/TTS providers configured"@,
            ),
        )
    } else if param_text(params, "audio"@) is None {
        Some((INVALID_PARAMS as int, "Missing params.audio (base64 PCM)"@))
    } else {
        device_refusal(params, device_id)
    }
}

/// A spoken request.
#[derive(Debug, PartialEq, Eq)]
pub struct PipelineRequest {
    pub audio_b64: String,
    pub device_id: String,
    /// The language that the satellite asks for.
    pub language: Option<String>,
}

fn claimed_device(req_id: &Json, params: &Option<Json>, device_id: &str) -> (r: Result<
    String,
    Json,
>)
    ensures
        match (r, device_refusal(*params, device_id@)) {
            (Ok(d), None) => d@ == device_id@,
            (Err(body), Some((code, message))) => body@ == error_body(req_id@, code, message),
            _ => false,
        },
{
    match param_str(params, "device_id") {
        None => Err(error_response(req_id, INVALID_PARAMS, "Missing params.device_id")),
        Some(claimed) => if !text::same(claimed, device_id) {
            Err(
                error_response(
                    req_id,
                    INVALID_PARAMS,
                    "params.device_id does not match the authenticated device",
                ),
            )
        } else {
            Ok(claimed.to_owned())
        },
    }
}

/// Reads a spoken request.
pub fn handle_voice_pipeline_run(
    has_voice: bool,
    req_id: &Json,
    params: &Option<Json>,
    caller: &Caller,
) -> (r: Result<PipelineRequest, Json>)
    ensures
        match (r, pipeline_refusal(has_voice, *params, caller.device_id@)) {
            (Ok(request), None) => {
                &&& param_text(*params, "audio"@) == Some(request.audio_b64@)
                &&& request.device_id@ == caller.device_id@
                &&& request.language.deep_view() == param_text(*params, "language"@)
            },
            (Err(body), Some((code, message))) => body@ == error_body(req_id@, code, message),
            _ => false,
        },
{
    if !has_voice {
        return Err(
            error_response(
                req_id,
                METHOD_NOT_FOUND,
                "voice/pipeline_run unavailable: no STT/TTS providers configured",
            ),
        );
    }
    let audio_b64 = match param_str(params, "audio") {
        Some(a) => a.to_owned(),
        None => {
            return Err(
                error_response(req_id, INVALID_PARAMS, "Missing params.audio (base64 PCM)"),
            );
        },
    };
    match claimed_device(req_id, params, caller.device_id.as_str()) {
        Ok(device_id) => {
            let language = match param_str(params, "language") {
                Some(l) => Some(l.to_owned()),
                None => None,
            };
            Ok(PipelineRequest { audio_b64, device_id, language })
        },
        Err(body) => Err(body),
    }
}

/// Whether a device listens on a channel.
pub open spec fn listens_on(
    subscribers: Map<Seq<char>, Subscriber>,
    device_id: Seq<char>,
    channel: u64,
) -> bool {
    subscribers.contains_key(device_id) && subscribers[device_id].channel == channel
}

impl ServeState {
    /// Takes up the session of a device, once it was found or made: its room is
    /// pinned, and what the satellite says of itself is noted anew.
    pub fn device_session_resolved(
        &mut self,
        req_id: &Json,
        params: &Option<Json>,
        caller: &Caller,
        session: Result<String, String>,
    ) -> (r: Result<String, Json>)
        requires
            old(self).wf(),
        ensures
            final(self).wf(),
            match session {
                Ok(id) => {
                    &&& r matches Ok(s)
                    &&& s == id
                    &&& final(self).session_room_profiles.deep_view()
                        == old(self).session_room_profiles.deep_view().insert(
                        id@,
                        caller.room_profile@,
                    )
                    &&& final(self).session_room_metadata.deep_view() == with_room_info(
                        old(self).session_room_metadata.deep_view(),
                        id@,
                        room_info_of(*params),
                    )
                    &&& *final(self) == (ServeState {
                        session_room_profiles: final(self).session_room_profiles,
                        session_room_metadata: final(self).session_room_metadata,
                        ..*old(self)
                    })
                },
                Err(e) => {
                    &&& r matches Err(body)
                    &&& body@ == error_body(
                        req_id@,
                        INTERNAL_ERROR as int,
                        "failed to resolve device-default session: "@ + e@,
                    )
                    &&& *final(self) == *old(self)
                },
            },
    {
        match session {
            Ok(id) => {
                self.pin_room(id.as_str(), caller.room_profile.as_str());
                self.note_device(id.as_str(), params);
                Ok(id)
            },
            Err(e) => Err(
                error_response(
                    req_id,
                    INTERNAL_ERROR,
                    "failed to resolve device-default session: ".to_owned().concat(
                        e.as_str(),
                    ).as_str(),
                ),
            ),
        }
    }

    /// Puts a session into a room.
    pub fn pin_room(&mut self, session_id: &str, room_profile: &str)
        requires
            old(self).wf(),
        ensures
            final(self).wf(),
            final(self).session_room_profiles.deep_view()
                == old(self).session_room_profiles.deep_view().insert(session_id@, room_profile@),
            *final(self) == (ServeState {
                session_room_profiles: final(self).session_room_profiles,
                ..*old(self)
            }),
    {
        let ghost rooms = self.session_room_profiles.deep_view();
        self.session_room_profiles.insert(session_id.to_owned(), room_profile.to_owned());
        assert(self.session_room_profiles.deep_view() =~= rooms.insert(session_id@, room_profile@));
    }

    /// Registers a satellite that listens, in place of an earlier registration of
    /// the same device. A request that names another device registers nothing.
    pub fn handle_voice_subscribe(
        &mut self,
        req_id: &Json,
        params: &Option<Json>,
        caller: &Caller,
        channel: u64,
    ) -> (r: Result<String, Json>)
        requires
            old(self).wf(),
        ensures
            final(self).wf(),
            match (r, device_refusal(*params, caller.device_id@)) {
                (Ok(device), None) => {
                    let subscribers = final(self).voice_subscribers@;
                    &&& device@ == caller.device_id@
                    &&& subscribers.contains_key(device@)
                    &&& subscribers[device@].room_profile@ == caller.room_profile@
                    &&& subscribers[device@].channel == channel
                    &&& subscribers == old(self).voice_subscribers@.insert(
                        device@,
                        subscribers[device@],
                    )
                    &&& *final(self) == (ServeState {
                        voice_subscribers: final(self).voice_subscribers,
                        ..*old(self)
                    })
                },
                (Err(body), Some((code, message))) => {
                    &&& body@ == error_body(req_id@, code, message)
                    &&& *final(self) == *old(self)
                },
                _ => false,
            },
    {
        match claimed_device(req_id, params, caller.device_id.as_str()) {
            Ok(device) => {
                let subscriber = Subscriber {
                    room_profile: caller.room_profile.clone(),
                    channel,
                };
                self.voice_subscribers.insert(device.clone(), subscriber);
                Ok(device)
            },
            Err(body) => Err(body),
        }
    }

    /// Drops a satellite's registration when its channel is gone, unless a newer
    /// one has taken its place.
    pub fn unsubscribe_voice(&mut self, device_id: &str, channel: u64) -> (r: bool)
        requires
            old(self).wf(),
        ensures
            final(self).wf(),
            r == listens_on(old(self).voice_subscribers@, device_id@, channel),
            final(self).voice_subscribers@ == if r {
                old(self).voice_subscribers@.remove(device_id@)
            } else {
                old(self).voice_subscribers@
            },
            *final(self) == (ServeState {
                voice_subscribers: final(self).voice_subscribers,
                ..*old(self)
            }),
    {
        let ours = match self.voice_subscribers.get(device_id) {
            Some(s) => s.channel == channel,
            None => false,
        };
        if ours {
            self.voice_subscribers.remove(device_id);
        }
        ours
    }
}

/// What the server says to a satellite on its own.
#[derive(Debug, PartialEq, Eq)]
pub enum VoicePushItem {
    Start { task: Option<String> },
    AssistantText(String),
    AudioChunk(Vec<i16>),
    Done,
    Error(String),
}

/// The mathematical value of a [`VoicePushItem`].
pub enum PushItemView {
    Start { task: Option<Seq<char>> },
    AssistantText(Seq<char>),
    AudioChunk(Seq<i16>),
    Done,
    Error(Seq<char>),
}

impl View for VoicePushItem {
    type V = PushItemView;

    open spec fn view(&self) -> PushItemView {
        match self {
            VoicePushItem::Start { task } => PushItemView::Start { task: task.deep_view() },
            VoicePushItem::AssistantText(t) => PushItemView::AssistantText(t@),
            VoicePushItem::AudioChunk(pcm) => PushItemView::AudioChunk(pcm@),
            VoicePushItem::Done => PushItemView::Done,
            VoicePushItem::Error(m) => PushItemView::Error(m@),
        }
    }
}

impl DeepView for VoicePushItem {
    type V = PushItemView;

    open spec fn deep_view(&self) -> PushItemView {
        self@
    }
}

/// What goes over the wire for what the server says on its own.
pub open spec fn push_params(item: PushItemView) -> JsonView {
    JsonView::Object(
        match item {
            PushItemView::Start { task } => crate::rpc::with_optional(
                no_fields().push(field_text("kind"@, "push_start"@)),
                "task"@,
                task,
            ),
            PushItemView::AssistantText(t) => no_fields().push(
                field_text("kind"@, "assistant_text"@),
            ).push(field_text("text"@, t)),
            PushItemView::AudioChunk(pcm) => no_fields().push(
                field_text("kind"@, "audio_chunk"@),
            ).push(field_text("data"@, audio::encoded(pcm))),
            PushItemView::Done => no_fields().push(field_text("kind"@, "push_done"@)),
            PushItemView::Error(m) => no_fields().push(field_text("kind"@, "error"@)).push(
                field_text("message"@, m),
            ),
        },
    )
}

/// What goes over the wire for what the server says on its own.
pub fn translate_voice_push(item: &VoicePushItem) -> (r: Json)
    requires
        item matches VoicePushItem::AudioChunk(pcm) ==> 8 * pcm.len() <= usize::MAX,
    ensures
        r@ == notification_body("notifications/voice_push"@, push_params(item@)),
        item matches VoicePushItem::AudioChunk(pcm) ==> audio::decoded(audio::encoded(pcm@)) == Ok::<
            Seq<i16>,
            audio::AudioErrorView,
        >(pcm@),
{
    let fields = match item {
        VoicePushItem::Start { task } => {
            let fields = Fields::new().with_text("kind", "push_start");
            match task {
                Some(t) => fields.with_text("task", t.as_str()),
                None => fields,
            }
        },
        VoicePushItem::AssistantText(t) => Fields::new().with_text(
            "kind",
            "assistant_text",
        ).with_text("text", t.as_str()),
        VoicePushItem::AudioChunk(pcm) => {
            let data = audio::encode(pcm);
            Fields::new().with_text("kind", "audio_chunk").with_text("data", data.as_str())
        },
        VoicePushItem::Done => Fields::new().with_text("kind", "push_done"),
        VoicePushItem::Error(m) => Fields::new().with_text("kind", "error").with_text(
            "message",
            m.as_str(),
        ),
    };
    notification_event("notifications/voice_push", fields.object())
}

/// Why there is nobody to speak or listen in a session.
#[derive(Clone, Copy, Debug, PartialEq, Eq, Structural)]
pub enum VoicePipelineLookup {
    /// No voice provider is configured at all.
    NoVoice,
    /// The session's room has no pipeline.
    NotConfigured,
}

/// Who speaks and listens in a session.
pub open spec fn pipeline_of(
    state: ServeState,
    config: ServerConfig,
    session_id: Seq<char>,
) -> Result<VoicePipeline, VoicePipelineLookup> {
    if config.voice is None {
        Err(VoicePipelineLookup::NoVoice)
    } else {
        match state.room_of(session_id) {
            Some(room) => if config.room_profiles@.contains_key(room)
                && config.room_profiles@[room].voice_pipeline is Some {
                Ok(config.room_profiles@[room].voice_pipeline.unwrap())
            } else {
                Err(VoicePipelineLookup::NotConfigured)
            },
            None => Err(VoicePipelineLookup::NotConfigured),
        }
    }
}

/// Who speaks and listens in a session.
pub fn resolve_voice_pipeline(state: &ServeState, config: &ServerConfig, session_id: &str) -> (r:
    Result<VoicePipeline, VoicePipelineLookup>)
    requires
        state.wf(),
        config.wf(),
    ensures
        r == pipeline_of(*state, *config, session_id@),
{
    if config.voice.is_none() {
        return Err(VoicePipelineLookup::NoVoice);
    }
    match state.session_room_profiles.get(session_id) {
        Some(room) => match config.room_profiles.get(room.as_str()) {
            Some(profile) => match &profile.voice_pipeline {
                Some(p) => Ok(p.copy()),
                None => Err(VoicePipelineLookup::NotConfigured),
            },
            None => Err(VoicePipelineLookup::NotConfigured),
        },
        None => Err(VoicePipelineLookup::NotConfigured),
    }
}

/// A satellite that comes back is not dropped by the end of its earlier channel.
pub proof fn newer_subscriptions_survive(
    subscribers: Map<Seq<char>, Subscriber>,
    device_id: Seq<char>,
    newer: Subscriber,
    channel: u64,
)
    requires
        newer.channel != channel,
    ensures
        !listens_on(subscribers.insert(device_id, newer), device_id, channel),
{
}

/// What a hexadecimal digit stands for.
pub open spec fn digit_value(c: char) -> int {
    if '0' <= c <= '9' {
        c as int - '0' as int
    } else {
        c as int - 'a' as int + 10
    }
}

proof fn lemma_hex_place(bytes: Seq<u8>, i: int)
    requires
        0 <= i < bytes.len(),
    ensures
        hex(bytes).len() == 2 * bytes.len(),
        hex(bytes)[2 * i] == hex_digit(bytes[i] as int / 16),
        hex(bytes)[2 * i + 1] == hex_digit(bytes[i] as int % 16),
    decreases bytes.len(),
{
    hex_is_twice_as_long(bytes);
    hex_is_twice_as_long(bytes.drop_last());
    if i < bytes.len() - 1 {
        lemma_hex_place(bytes.drop_last(), i);
    }
}

/// Bytes are written as two digits each, in order, the higher first: digits and the
/// letters from `a` to `f`, which come to the byte.
pub proof fn digits_come_to_the_bytes(bytes: Vec<u8>, r: String, i: int)
    requires
        call_ensures(hex_text, (&bytes,), r),
    ensures
        r@.len() == 2 * bytes.len(),
        0 <= i < bytes.len() ==> {
            let (a, b) = (r@[2 * i], r@[2 * i + 1]);
            &&& '0' <= a <= '9' || 'a' <= a <= 'f'
            &&& '0' <= b <= '9' || 'a' <= b <= 'f'
            &&& 16 * digit_value(a) + digit_value(b) == bytes@[i]
        },
{
    hex_is_twice_as_long(bytes@);
    if 0 <= i < bytes.len() {
        lemma_hex_place(bytes@, i);
        let n = bytes@[i] as int;
        assert(0 <= n / 16 < 16 && 0 <= n % 16 < 16 && 16 * (n / 16) + n % 16 == n);
    }
}

proof fn lemma_voice_keys()
    ensures
        "format"@.len() == 6 && "format"@[0] == 'f',
        "filename"@.len() == 8 && "filename"@[0] == 'f',
        "sha256"@.len() == 6 && "sha256"@[0] == 's',
        "data_b64"@.len() == 8 && "data_b64"@[0] == 'd',
        "kind"@.len() == 4 && "kind"@[0] == 'k',
        "task"@.len() == 4 && "task"@[0] == 't' && "task"@[1] == 'a',
        "text"@.len() == 4 && "text"@[0] == 't' && "text"@[1] == 'e',
        "data"@.len() == 4 && "data"@[0] == 'd',
        "message"@.len() == 7,
{
    reveal_strlit("format");
    reveal_strlit("filename");
    reveal_strlit("sha256");
    reveal_strlit("data_b64");
    reveal_strlit("kind");
    reveal_strlit("task");
    reveal_strlit("text");
    reveal_strlit("data");
    reveal_strlit("message");
}

/// A satellite is told nothing where no word is configured. Otherwise it is told the
/// file's name, the digits of its digest, and its bytes, all of which come back out of
/// the base64. Of a file that cannot be read it is told so, with its path and why.
pub proof fn wake_words_are_told_whole(
    req_id: Json,
    file: Option<WakeWordFile>,
    r: Json,
    digest: Vec<u8>,
    digits: String,
)
    requires
        call_ensures(handle_voice_config, (&req_id, file), r),
        call_ensures(hex_text, (&digest,), digits),
        file is Some && file.unwrap().content is Ok ==> digest@ == sha256_digest(
            file.unwrap().content->Ok_0.0@,
        ),
    ensures
        r@.get("id"@) == Some(req_id@),
        file is None ==> r@.get("result"@) is Some && r@.get("result"@).unwrap().get(
            "wake_word_model"@,
        ) is None,
        file is Some && file.unwrap().content is Ok ==> {
            let (bytes, name) = file.unwrap().content->Ok_0;
            let told = r@.get("result"@).unwrap().get("wake_word_model"@).unwrap();
            &&& r@.get("result"@) is Some
            &&& r@.get("result"@).unwrap().get("wake_word_model"@) is Some
            &&& told.get_text("format"@) == Some("onnx_inline"@)
            &&& name is Some ==> told.get_text("filename"@) == Some(name.unwrap()@)
            &&& name is None ==> told.get_text("filename"@) == Some("wake.onnx"@)
            &&& told.get_text("sha256"@) == Some(digits@)
            &&& told.get_text("data_b64"@) is Some
            &&& base64_bytes(told.get_text("data_b64"@).unwrap()) == Ok::<Seq<u8>, Seq<char>>(
                bytes@,
            )
        },
        file is Some && file.unwrap().content is Err ==> {
            &&& r@.get("error"@).unwrap().get("code"@) == Some(JsonView::Int(-32603))
            &&& r@.get("error"@).unwrap().get_text("message"@) == Some(
                "voice.wake_word_model '"@ + file.unwrap().path@ + "' could not be read: "@
                    + file.unwrap().content->Err_0@,
            )
        },
{
    lemma_voice_keys();
    if file is None {
        results_are_brought_whole(req_id@, JsonView::Object(no_fields()));
        let a = ("format"@, JsonView::Null);
        lemma_few_fields(a, a, a, a, "wake_word_model"@);
    } else if file.unwrap().content is Ok {
        let (bytes, name) = file.unwrap().content->Ok_0;
        let model = wake_word(bytes@, name.deep_view());
        let top = ("wake_word_model"@, model);
        results_are_brought_whole(req_id@, JsonView::Object(no_fields().push(top)));
        lemma_few_fields(top, top, top, top, "wake_word_model"@);
        let a = model->Object_0[0];
        let b = model->Object_0[1];
        let c = model->Object_0[2];
        let d = model->Object_0[3];
        lemma_few_fields(a, b, c, d, "format"@);
        lemma_few_fields(a, b, c, d, "filename"@);
        lemma_few_fields(a, b, c, d, "sha256"@);
        lemma_few_fields(a, b, c, d, "data_b64"@);
        if name is Some {
            assert(name.deep_view() == Some(name.unwrap()@));
        } else {
            assert(name.deep_view() is None);
        }
    } else {
        errors_say_what_went_wrong(
            req_id@,
            INTERNAL_ERROR as int,
            "voice.wake_word_model '"@ + file.unwrap().path@ + "' could not be read: "@
                + file.unwrap().content->Err_0@,
        );
    }
}

/// The file of the word that wakes a satellite is what was read at its path, and there
/// is a path exactly where a word is configured.
pub proof fn wake_words_are_read_where_configured(
    path: String,
    read: Result<Vec<u8>, String>,
    r: WakeWordFile,
    config: ServerConfig,
    home: Option<String>,
    at: Option<String>,
)
    requires
        call_ensures(WakeWordFile::found, (path, read), r),
        call_ensures(wake_word_path_in, (&config, &home), at),
    ensures
        r.path@ == path@,
        r.content is Ok <==> read is Ok,
        read is Ok ==> r.content->Ok_0.0@ == read->Ok_0@,
        read is Err ==> r.content->Err_0@ == read->Err_0@,
        at is Some <==> config.wake_word_model is Some,
        at is Some ==> tilde_resolved(
            config.wake_word_model.unwrap()@,
            home.deep_view(),
            at.unwrap()@,
        ),
{
    assert(config.wake_word_model.deep_view() is Some == config.wake_word_model is Some);
    assert(at.deep_view() is Some == at is Some);
    if at is Some {
        assert(at.deep_view() == Some(at.unwrap()@));
        assert(config.wake_word_model.deep_view() == Some(config.wake_word_model.unwrap()@));
    }
}

/// A spoken request is taken with all of its sound, for the device that its token
/// belongs to and in the language that it names. It is refused exactly where no voice
/// is configured, it has no sound, or it names no device or another.
pub proof fn spoken_requests_are_taken_whole(
    has_voice: bool,
    req_id: Json,
    params: Option<Json>,
    caller: Caller,
    r: Result<PipelineRequest, Json>,
    fields: JsonView,
)
    requires
        call_ensures(handle_voice_pipeline_run, (has_voice, &req_id, &params, &caller), r),
        fields == if params is Some {
            params.unwrap()@
        } else {
            JsonView::Null
        },
    ensures
        r is Ok <==> has_voice && fields.get_text("audio"@) is Some && fields.get_text(
            "device_id"@,
        ) == Some(caller.device_id@),
        r is Ok ==> Some(r->Ok_0.audio_b64@) == fields.get_text("audio"@),
        r is Ok ==> r->Ok_0.device_id@ == caller.device_id@,
        r is Ok ==> r->Ok_0.language.deep_view() == fields.get_text("language"@),
        r is Err ==> {
            let code = r->Err_0@.get("error"@).unwrap().get("code"@);
            let message = r->Err_0@.get("error"@).unwrap().get_text("message"@);
            &&& r->Err_0@.get("id"@) == Some(req_id@)
            &&& !has_voice ==> code == Some(JsonView::Int(-32601)) && message == Some(
                "voice/pipeline_run unavailable: no STT/TTS providers configured"@,
            )
            &&& has_voice ==> code == Some(JsonView::Int(-32602))
            &&& has_voice && fields.get_text("audio"@) is None ==> message == Some(
                "Missing params.audio (base64 PCM)"@,
            )
            &&& has_voice && fields.get_text("audio"@) is Some && fields.get_text("device_id"@)
                is None ==> message == Some("Missing params.device_id"@)
            &&& has_voice && fields.get_text("audio"@) is Some && fields.get_text("device_id"@)
                is Some ==> message == Some(
                "params.device_id does not match the authenticated device"@,
            )
        },
{
    let refusal = pipeline_refusal(has_voice, params, caller.device_id@);
    if refusal is Some {
        errors_say_what_went_wrong(req_id@, refusal.unwrap().0, refusal.unwrap().1);
    }
}

/// The session of a device is pinned to the caller's room and notes anew what the
/// satellite says of itself; no other session is touched. Where there is none, nothing
/// changes and the request is answered with the reason.
pub proof fn devices_are_pinned_to_their_rooms(
    before: ServeState,
    after: ServeState,
    req_id: Json,
    params: Option<Json>,
    caller: Caller,
    session: Result<String, String>,
    r: Result<String, Json>,
    info: Option<RoomInfo>,
    other: Seq<char>,
)
    requires
        exists|s: &mut ServeState|
            *s == before && *final(s) == after && #[trigger] call_ensures(
                ServeState::device_session_resolved,
                (s, &req_id, &params, &caller, session),
                r,
            ),
        call_ensures(device_room_info, (&params,), info),
        session is Ok ==> other != session->Ok_0@,
    ensures
        r is Ok <==> session is Ok,
        r is Ok ==> r->Ok_0@ == session->Ok_0@,
        session is Ok ==> {
            let id = session->Ok_0@;
            &&& after.session_room_profiles@.contains_key(id)
            &&& after.session_room_profiles@[id]@ == caller.room_profile@
            &&& info is Some ==> after.session_room_metadata@.contains_key(id)
                && after.session_room_metadata@[id].deep_view() == info.unwrap().deep_view()
        },
        after.session_room_profiles@.contains_key(other)
            == before.session_room_profiles@.contains_key(other),
        after.session_room_profiles@.contains_key(other)
            ==> after.session_room_profiles@[other]@ == before.session_room_profiles@[other]@,
        after.session_room_metadata@.contains_key(other)
            == before.session_room_metadata@.contains_key(other),
        after.session_room_metadata@.contains_key(other)
            ==> after.session_room_metadata@[other].deep_view()
            == before.session_room_metadata@[other].deep_view(),
        after.sessions == before.sessions,
        session is Err ==> after == before && r->Err_0@.get("id"@) == Some(req_id@)
            && r->Err_0@.get("error"@).unwrap().get("code"@) == Some(JsonView::Int(-32603))
            && r->Err_0@.get("error"@).unwrap().get_text("message"@) == Some(
            "failed to resolve device-default session: "@ + session->Err_0@,
        ),
{
    if session is Ok {
        let id = session->Ok_0@;
        let rooms = after.session_room_profiles.deep_view();
        let infos = after.session_room_metadata.deep_view();
        assert(rooms.contains_key(id));
        assert(rooms[id] == caller.room_profile@);
        assert(rooms.contains_key(other)
            == before.session_room_profiles.deep_view().contains_key(other));
        if after.session_room_profiles@.contains_key(other) {
            assert(rooms[other] == before.session_room_profiles.deep_view()[other]);
        }
        assert(infos.contains_key(other)
            == before.session_room_metadata.deep_view().contains_key(other));
        if after.session_room_metadata@.contains_key(other) {
            assert(infos[other] == before.session_room_metadata.deep_view()[other]);
        }
        if info is Some {
            assert(info.deep_view() == Some(info.unwrap().deep_view()));
            assert(infos.contains_key(id));
            assert(infos[id] == info.unwrap().deep_view());
        }
    } else {
        errors_say_what_went_wrong(
            req_id@,
            INTERNAL_ERROR as int,
            "failed to resolve device-default session: "@ + session->Err_0@,
        );
    }
}

/// A satellite listens from then on, on its channel and in the room of its caller,
/// exactly where it names the device that its token belongs to. No other is touched.
pub proof fn satellites_listen_for_their_own_device(
    before: ServeState,
    after: ServeState,
    req_id: Json,
    params: Option<Json>,
    caller: Caller,
    channel: u64,
    r: Result<String, Json>,
    other: Seq<char>,
)
    requires
        exists|s: &mut ServeState|
            *s == before && *final(s) == after && #[trigger] call_ensures(
                ServeState::handle_voice_subscribe,
                (s, &req_id, &params, &caller, channel),
                r,
            ),
        other != caller.device_id@,
    ensures
        r is Ok <==> params is Some && params.unwrap()@.get_text("device_id"@) == Some(
            caller.device_id@,
        ),
        r is Ok ==> {
            let device = caller.device_id@;
            &&& r->Ok_0@ == device
            &&& after.voice_subscribers@.contains_key(device)
            &&& after.voice_subscribers@[device].channel == channel
            &&& after.voice_subscribers@[device].room_profile@ == caller.room_profile@
        },
        after.voice_subscribers@.contains_key(other) == before.voice_subscribers@.contains_key(
            other,
        ),
        after.voice_subscribers@.contains_key(other) ==> after.voice_subscribers@[other]
            == before.voice_subscribers@[other],
        after.sessions == before.sessions,
        r is Err ==> after == before && r->Err_0@.get("id"@) == Some(req_id@)
            && r->Err_0@.get("error"@).unwrap().get("code"@) == Some(JsonView::Int(-32602))
            && r->Err_0@.get("error"@).unwrap().get_text("message"@) == Some(
            if params is Some && params.unwrap()@.get_text("device_id"@) is Some {
                "params.device_id does not match the authenticated device"@
            } else {
                "Missing params.device_id"@
            },
        ),
{
    let refusal = device_refusal(params, caller.device_id@);
    if refusal is Some {
        errors_say_what_went_wrong(req_id@, refusal.unwrap().0, refusal.unwrap().1);
    }
}

/// A satellite stops listening when its own channel is gone, and not when an earlier
/// one is. No other is touched.
pub proof fn satellites_stop_with_their_channel(
    before: ServeState,
    after: ServeState,
    device_id: &str,
    channel: u64,
    r: bool,
    other: Seq<char>,
)
    requires
        exists|s: &mut ServeState|
            *s == before && *final(s) == after && #[trigger] call_ensures(
                ServeState::unsubscribe_voice,
                (s, device_id, channel),
                r,
            ),
    ensures
        r <==> before.voice_subscribers@.contains_key(device_id@)
            && before.voice_subscribers@[device_id@].channel == channel,
        r ==> !after.voice_subscribers@.contains_key(device_id@),
        !r ==> after.voice_subscribers@ == before.voice_subscribers@,
        other != device_id@ ==> after.voice_subscribers@.contains_key(other)
            == before.voice_subscribers@.contains_key(other),
        after.voice_subscribers@.contains_key(other) ==> after.voice_subscribers@[other]
            == before.voice_subscribers@[other],
        after.sessions == before.sessions,
{
}

/// What the server says to a satellite goes over the wire whole and by its kind: every
/// character of a text, an error or a task, and sound from which every sample is read
/// again.
pub proof fn pushes_go_over_the_wire_whole(item: VoicePushItem, r: Json)
    requires
        call_ensures(translate_voice_push, (&item,), r),
    ensures
        ({
            let params = r@.get("params"@).unwrap();
            let data = params.get_text("data"@);
            &&& r@.get("id"@) is None
            &&& r@.get_text("method"@) == Some("notifications/voice_push"@)
            &&& r@.get("params"@) is Some
            &&& item is Start ==> params.get_text("kind"@) == Some("push_start"@)
                && params.get_text("task"@) == item->task.deep_view()
            &&& item is AssistantText ==> params.get_text("kind"@) == Some("assistant_text"@)
                && params.get_text("text"@) == Some(item->AssistantText_0@)
            &&& item is AudioChunk ==> params.get_text("kind"@) == Some("audio_chunk"@) && data
                is Some && audio::decoded(data.unwrap()) == Ok::<Seq<i16>, audio::AudioErrorView>(
                item->AudioChunk_0@,
            )
            &&& item is Done ==> params.get_text("kind"@) == Some("push_done"@)
            &&& item is Error ==> params.get_text("kind"@) == Some("error"@) && params.get_text(
                "message"@,
            ) == Some(item->Error_0@)
        }),
{
    lemma_voice_keys();
    let params = push_params(item@);
    notifications_are_brought_whole("notifications/voice_push"@, params);
    let a = params->Object_0[0];
    let b = params->Object_0[1];
    lemma_few_fields(a, b, b, b, "kind"@);
    lemma_few_fields(a, b, b, b, "task"@);
    lemma_few_fields(a, b, b, b, "text"@);
    lemma_few_fields(a, b, b, b, "data"@);
    lemma_few_fields(a, b, b, b, "message"@);
    if item is Start {
        if item->task is Some {
            assert(item->task.deep_view() == Some(item->task.unwrap()@));
        } else {
            assert(item->task.deep_view() is None);
        }
    }
}

/// A session's pipeline is that of its room, whole. There is none where no voice is
/// configured at all, the session is in no room, or its room has none.
pub proof fn pipelines_are_those_of_the_room(
    state: ServeState,
    config: ServerConfig,
    session_id: &str,
    r: Result<VoicePipeline, VoicePipelineLookup>,
)
    requires
        call_ensures(resolve_voice_pipeline, (&state, &config, session_id), r),
    ensures
        ({
            let placed = state.session_room_profiles@.contains_key(session_id@);
            let room = state.session_room_profiles@[session_id@]@;
            let known = placed && config.room_profiles@.contains_key(room);
            let pipeline = config.room_profiles@[room].voice_pipeline;
            &&& r == Err::<VoicePipeline, _>(VoicePipelineLookup::NoVoice) <==> config.voice is None
            &&& r is Ok <==> config.voice is Some && known && pipeline is Some
            &&& r is Ok ==> r->Ok_0 == pipeline.unwrap()
        }),
{
}

/// A session is in the room that it is put into, and every other stays where it is.
pub proof fn rooms_are_pinned_one_by_one(
    before: ServeState,
    after: ServeState,
    session_id: &str,
    room: &str,
    other: Seq<char>,
)
    requires
        exists|s: &mut ServeState|
            *s == before && *final(s) == after && #[trigger] call_ensures(
                ServeState::pin_room,
                (s, session_id, room),
                (),
            ),
    ensures
        after.session_room_profiles@.contains_key(session_id@),
        after.session_room_profiles@[session_id@]@ == room@,
        other != session_id@ ==> after.session_room_profiles@.contains_key(other)
            == before.session_room_profiles@.contains_key(other),
        other != session_id@ && after.session_room_profiles@.contains_key(other)
            ==> after.session_room_profiles@[other]@ == before.session_room_profiles@[other]@,
        after.sessions == before.sessions,
        after.session_room_metadata == before.session_room_metadata,
        after.voice_subscribers == before.voice_subscribers,
{
    let rooms = after.session_room_profiles.deep_view();
    assert(rooms.contains_key(session_id@));
    assert(rooms[session_id@] == room@);
    if other != session_id@ {
        assert(rooms.contains_key(other)
            == before.session_room_profiles.deep_view().contains_key(other));
        if after.session_room_profiles@.contains_key(other) {
            assert(rooms[other] == before.session_room_profiles.deep_view()[other]);
        }
    }
}

proof fn lemma_after_slash(head: Seq<char>, name: Seq<char>)
    requires
        !name.contains('/'),
        head.len() > 0 ==> head.last() == '/',
    ensures
        after_slash(head + name) == name,
    decreases name.len(),
{
    let path = head + name;
    if name.len() == 0 {
        assert(path =~= head);
    } else {
        let before = name.drop_last();
        assert(name.contains(name.last()));
        assert(!before.contains('/')) by {
            if before.contains('/') {
                let k = choose|k: int| 0 <= k < before.len() && before[k] == '/';
                assert(name[k] == '/');
            }
        }
        lemma_after_slash(head, before);
        assert(path.drop_last() =~= head + before);
        assert(path.last() == name.last());
        assert(before.push(name.last()) =~= name);
    }
}

/// A file goes by what stands after the last slash of its path, all of it, or by the
/// whole path where that has none; wherever paths are spelled with slashes alone, and
/// unless that is a dot or two.
pub proof fn files_go_by_the_end_of_their_path(
    head: Seq<char>,
    name: Seq<char>,
    path: String,
    bytes: Vec<u8>,
    r: WakeWordFile,
)
    requires
        path@ == head + name,
        head.len() > 0 ==> head.last() == '/',
        name.len() > 0,
        !name.contains('/'),
        !(name.len() <= 2 && name[0] == '.'),
        !path@.contains('\\'),
        !path@.contains(':'),
        !(path@.len() >= 2 && path@[0] == '/' && path@[1] == '/'),
        call_ensures(WakeWordFile::found, (path, Ok::<Vec<u8>, String>(bytes)), r),
    ensures
        r.content is Ok,
        r.content->Ok_0.1 is Some,
        r.content->Ok_0.1.unwrap()@ == name,
{
    lemma_after_slash(head, name);
    assert(name.contains(name.last()));
    assert(path@.last() == name.last());
    assert(last_component(path@) == Some(name));
    let found = r.content->Ok_0.1;
    assert(found.deep_view() == Some(name));
    assert(found is Some);
}

} // verus!
