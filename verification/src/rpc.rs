//! The JSON-RPC endpoint: envelopes, credentials, routing, and the requests that
//! open, list and read sessions.

use vstd::prelude::*;

use crate::json::{no_fields, Fields, Json, JsonView};
use crate::message::{ChatMessage, ContentPart, MessageView, PartView, Role};
use crate::outside::{
    fresh_grain, fresh_uuid, header_text, header_texts, is_grain, is_uuid_v7,
};
use crate::state::{RoomInfo, RoomInfoView, ServeState};
use crate::text;

verus! {

/// The code for a bearer token that is not known.
pub const RPC_AUTH_REQUIRED: i64 = -32001;

/// The code for a method that there is not, or not here.
pub const METHOD_NOT_FOUND: i64 = -32601;

/// The code for a request that cannot be served as it was put.
pub const INVALID_PARAMS: i64 = -32602;

/// The code for a request that failed on this side.
pub const INTERNAL_ERROR: i64 = -32603;

/// The answer to a request that failed.
pub open spec fn error_body(id: JsonView, code: int, message: Seq<char>) -> JsonView {
    JsonView::Object(
        no_fields()
            .push(("jsonrpc"@, JsonView::Text("2.0"@)))
            .push(("id"@, id))
            .push(
                (
                    "error"@,
                    JsonView::Object(
                        no_fields()
                            .push(("code"@, JsonView::Int(code)))
                            .push(("message"@, JsonView::Text(message))),
                    ),
                ),
            ),
    )
}

/// The answer to a request that went well.
pub open spec fn result_body(id: JsonView, result: JsonView) -> JsonView {
    JsonView::Object(
        no_fields()
            .push(("jsonrpc"@, JsonView::Text("2.0"@)))
            .push(("id"@, id))
            .push(("result"@, result)),
    )
}

/// A message that answers no request.
pub open spec fn notification_body(method: Seq<char>, params: JsonView) -> JsonView {
    JsonView::Object(
        no_fields()
            .push(("jsonrpc"@, JsonView::Text("2.0"@)))
            .push(("method"@, JsonView::Text(method)))
            .push(("params"@, params)),
    )
}

/// The answer to a request that failed.
pub fn error_response(id: &Json, code: i64, message: &str) -> (r: Json)
    ensures
        r@ == error_body(id@, code as int, message@),
{
    let error = Fields::new().with("code", Json::Int(code)).with_text("message", message).object();
    Fields::new().with_text("jsonrpc", "2.0").with("id", id.copy()).with("error", error).object()
}

/// The event of a stream that ends it with an error.
pub fn error_event(id: &Json, code: i64, message: &str) -> (r: Json)
    ensures
        r@ == error_body(id@, code as int, message@),
{
    error_response(id, code, message)
}

/// The event of a stream that ends it with a result.
pub fn result_event(id: &Json, result: Json) -> (r: Json)
    ensures
        r@ == result_body(id@, result@),
{
    Fields::new().with_text("jsonrpc", "2.0").with("id", id.copy()).with("result", result).object()
}

/// The event of a stream that tells of progress.
pub fn notification_event(method: &str, params: Json) -> (r: Json)
    ensures
        r@ == notification_body(method@, params@),
{
    Fields::new().with_text("jsonrpc", "2.0").with_text("method", method).with(
        "params",
        params,
    ).object()
}

/// A request that is turned away before it is read.
#[derive(Debug, PartialEq, Eq)]
pub struct HttpRefusal {
    pub status: u16,
    pub text: String,
}

/// Whether a refusal has this status and text.
pub open spec fn refuses_with(refusal: HttpRefusal, status: u16, text: Seq<char>) -> bool {
    refusal.status == status && refusal.text@ == text
}

/// A refusal with this status and text.
pub fn http_refusal(status: u16, text: &str) -> (r: HttpRefusal)
    ensures
        refuses_with(r, status, text@),
{
    HttpRefusal { status, text: text.to_owned() }
}

/// What reading the endpoint gets.
pub fn rpc_get() -> (r: HttpRefusal)
    ensures
        refuses_with(
            r,
            405,
            "GET /rpc is reserved for Phase 2 server-initiated tool requests"@,
        ),
{
    http_refusal(405, "GET /rpc is reserved for Phase 2 server-initiated tool requests")
}

/// The token of an authorization: what follows the scheme, without white space at
/// its ends, unless that is nothing.
pub open spec fn bearer_token(authorization: Seq<char>) -> Option<Seq<char>> {
    let token = match text::after_prefix(authorization, "Bearer "@) {
        Some(t) => Some(t),
        None => text::after_prefix(authorization, "bearer "@),
    };
    match token {
        Some(t) => if text::trimmed(t).len() == 0 {
            None
        } else {
            Some(text::trimmed(t))
        },
        None => None,
    }
}

/// The token of an authorization.
pub fn bearer_of(authorization: &str) -> (r: Option<String>)
    ensures
        r.deep_view() == bearer_token(authorization@),
{
    let token = match text::strip_prefix(authorization, "Bearer ") {
        Some(t) => Some(t),
        None => text::strip_prefix(authorization, "bearer "),
    };
    match token {
        Some(t) => {
            let trimmed = text::trim(t);
            if trimmed.is_empty() {
                None
            } else {
                Some(trimmed.to_owned())
            }
        },
        None => None,
    }
}

/// The bearer token of a request. A request without the header, with another
/// scheme or with an empty token has none.
pub fn extract_bearer(headers: &axum::http::HeaderMap<axum::http::HeaderValue>) -> (r: Option<
    String,
>)
    ensures
        r.deep_view() == if header_texts(*headers).contains_key("authorization"@) {
            bearer_token(header_texts(*headers)["authorization"@])
        } else {
            None
        },
{
    match header_text(headers, "authorization") {
        Some(value) => bearer_of(value),
        None => None,
    }
}

/// The session that a request names in its headers.
pub fn session_header(headers: &axum::http::HeaderMap<axum::http::HeaderValue>) -> (r: Option<
    String,
>)
    ensures
        r.deep_view() == if header_texts(*headers).contains_key("session-id"@) {
            Some(header_texts(*headers)["session-id"@])
        } else {
            None
        },
{
    match header_text(headers, "session-id") {
        Some(value) => Some(value.to_owned()),
        None => None,
    }
}

/// Who a bearer token belongs to.
#[derive(Debug, PartialEq, Eq)]
pub struct Caller {
    pub room_profile: String,
    pub device_id: String,
}

/// The methods of the endpoint.
#[derive(Clone, Copy, Debug, PartialEq, Eq, Structural)]
pub enum RpcMethod {
    Initialize,
    Chat,
    ListSessions,
    GetSession,
    VoiceConfig,
    VoicePipelineRun,
    VoiceSubscribe,
}

/// The name of a method.
pub open spec fn method_name(method: RpcMethod) -> Seq<char> {
    match method {
        RpcMethod::Initialize => "initialize"@,
        RpcMethod::Chat => "chat"@,
        RpcMethod::ListSessions => "list_sessions"@,
        RpcMethod::GetSession => "get_session"@,
        RpcMethod::VoiceConfig => "voice/config"@,
        RpcMethod::VoicePipelineRun => "voice/pipeline_run"@,
        RpcMethod::VoiceSubscribe => "voice/subscribe"@,
    }
}

/// The method with this name.
pub fn rpc_method(name: &str) -> (r: Option<RpcMethod>)
    ensures
        r matches Some(m) ==> method_name(m) == name@,
        r is None ==> forall|m: RpcMethod|
            #![trigger method_name(m)]
            method_name(m) != name@,
{
    if text::same(name, "initialize") {
        Some(RpcMethod::Initialize)
    } else if text::same(name, "chat") {
        Some(RpcMethod::Chat)
    } else if text::same(name, "list_sessions") {
        Some(RpcMethod::ListSessions)
    } else if text::same(name, "get_session") {
        Some(RpcMethod::GetSession)
    } else if text::same(name, "voice/config") {
        Some(RpcMethod::VoiceConfig)
    } else if text::same(name, "voice/pipeline_run") {
        Some(RpcMethod::VoicePipelineRun)
    } else if text::same(name, "voice/subscribe") {
        Some(RpcMethod::VoiceSubscribe)
    } else {
        None
    }
}

/// Two methods never share a name.
pub proof fn method_names_differ(a: RpcMethod, b: RpcMethod)
    ensures
        method_name(a) == method_name(b) ==> a == b,
{
    reveal_strlit("initialize");
    reveal_strlit("chat");
    reveal_strlit("list_sessions");
    reveal_strlit("get_session");
    reveal_strlit("voice/config");
    reveal_strlit("voice/pipeline_run");
    reveal_strlit("voice/subscribe");
    assert("initialize"@.len() == 10);
    assert("chat"@.len() == 4);
    assert("list_sessions"@.len() == 13);
    assert("get_session"@.len() == 11);
    assert("voice/config"@.len() == 12);
    assert("voice/pipeline_run"@.len() == 18);
    assert("voice/subscribe"@.len() == 15);
}

/// What a request to the endpoint says of itself before it is routed.
#[derive(Debug, PartialEq, Eq)]
pub struct RpcCredentials {
    pub bearer: String,
    pub session_id: Option<String>,
}

/// Reads the headers of a request. One without a bearer token is turned away.
pub fn rpc_credentials(headers: &axum::http::HeaderMap<axum::http::HeaderValue>) -> (r: Result<
    RpcCredentials,
    HttpRefusal,
>)
    ensures
        ({
            let texts = header_texts(*headers);
            let token = if texts.contains_key("authorization"@) {
                bearer_token(texts["authorization"@])
            } else {
                None
            };
            match r {
                Ok(c) => {
                    &&& token == Some(c.bearer@)
                    &&& c.session_id.deep_view() == if texts.contains_key("session-id"@) {
                        Some(texts["session-id"@])
                    } else {
                        None
                    }
                },
                Err(refusal) => token is None && refuses_with(
                    refusal,
                    401,
                    "missing bearer token"@,
                ),
            }
        }),
{
    let session_id = session_header(headers);
    match extract_bearer(headers) {
        Some(bearer) => Ok(RpcCredentials { bearer, session_id }),
        None => Err(http_refusal(401, "missing bearer token")),
    }
}

/// Routes a request, once it is known whom its token belongs to. A token that
/// belongs to nobody is refused before the method is looked at.
pub fn rpc_post(req_id: &Json, method: &str, caller: Option<Caller>) -> (r: Result<
    (RpcMethod, Caller),
    Json,
>)
    ensures
        match (r, caller) {
            (Ok((m, c)), Some(known)) => c == known && method_name(m) == method@,
            (Ok(_), None) => false,
            (Err(body), None) => body@ == error_body(
                req_id@,
                RPC_AUTH_REQUIRED as int,
                "unknown or revoked bearer token"@,
            ),
            (Err(body), Some(_)) => {
                &&& forall|m: RpcMethod|
                    #![trigger method_name(m)]
                    method_name(m) != method@
                &&& body@ == error_body(req_id@, METHOD_NOT_FOUND as int, "Method not found"@)
            },
        },
{
    match caller {
        None => Err(
            error_response(req_id, RPC_AUTH_REQUIRED, "unknown or revoked bearer token"),
        ),
        Some(known) => match rpc_method(method) {
            Some(m) => Ok((m, known)),
            None => Err(error_response(req_id, METHOD_NOT_FOUND, "Method not found")),
        },
    }
}

/// The text under a key of a request's parameters.
pub open spec fn param_text(params: Option<Json>, key: Seq<char>) -> Option<Seq<char>> {
    match params {
        Some(p) => p@.get_text(key),
        None => None,
    }
}

/// The text under a key of a request's parameters.
pub fn param_str<'a>(params: &'a Option<Json>, key: &str) -> (r: Option<&'a str>)
    ensures
        text::opt(r) == param_text(*params, key@),
{
    match params {
        Some(p) => p.get_str(key),
        None => None,
    }
}

/// Which session a client wants to open.
#[derive(Debug, PartialEq, Eq)]
pub enum InitializeTarget {
    /// One by the identifier that it was given before.
    Session(String),
    /// One by its short identifier, which has to be looked up.
    Lookup(String),
    /// A new one.
    Fresh,
    /// What it says is no identifier.
    Invalid,
}

/// The mathematical value of an [`InitializeTarget`].
pub enum TargetView {
    Session(Seq<char>),
    Lookup(Seq<char>),
    Fresh,
    Invalid,
}

impl View for InitializeTarget {
    type V = TargetView;

    open spec fn view(&self) -> TargetView {
        match self {
            InitializeTarget::Session(id) => TargetView::Session(id@),
            InitializeTarget::Lookup(id) => TargetView::Lookup(id@),
            InitializeTarget::Fresh => TargetView::Fresh,
            InitializeTarget::Invalid => TargetView::Invalid,
        }
    }
}

/// Which session a client wants to open: the one that the header names, else the
/// one with the short identifier of seven bytes that the parameters give, else a
/// new one.
pub open spec fn target_of(header: Option<Seq<char>>, given: Option<Seq<char>>) -> TargetView {
    match (header, given) {
        (Some(id), _) => TargetView::Session(id),
        (None, None) => TargetView::Fresh,
        (None, Some(id)) => if id == "new"@ {
            TargetView::Fresh
        } else if text::byte_len(id) == 7 {
            TargetView::Lookup(id)
        } else {
            TargetView::Invalid
        },
    }
}

/// Which session a client wants to open.
pub fn initialize_target(header: Option<String>, params: &Option<Json>) -> (r: InitializeTarget)
    ensures
        r@ == target_of(header.deep_view(), param_text(*params, "session_id"@)),
{
    if let Some(id) = header {
        return InitializeTarget::Session(id);
    }
    match param_str(params, "session_id") {
        None => InitializeTarget::Fresh,
        Some(id) => if text::same(id, "new") {
            InitializeTarget::Fresh
        } else if id.as_bytes().len() == 7 {
            InitializeTarget::Lookup(id.to_owned())
        } else {
            InitializeTarget::Invalid
        },
    }
}

/// A short identifier that was reserved for a session leads back to it.
pub proof fn reserved_ids_can_be_looked_up(public_id: Seq<char>)
    requires
        is_grain(public_id),
    ensures
        target_of(None, Some(public_id)) == TargetView::Lookup(public_id),
{
    reveal_strlit("new");
    assert("new"@.len() == 3);
    assert(vstd::utf8::is_ascii_chars(public_id));
    vstd::utf8::is_ascii_chars_encode_utf8(public_id);
}

/// The answer to what is no identifier of a session.
pub fn invalid_session_id(req_id: &Json) -> (r: Json)
    ensures
        r@ == error_body(
            req_id@,
            INVALID_PARAMS as int,
            "Invalid session id (expected 7-char grain-id)"@,
        ),
{
    error_response(req_id, INVALID_PARAMS, "Invalid session id (expected 7-char grain-id)")
}

/// Takes up what the lookup of a short identifier found.
pub fn initialize_lookup(req_id: &Json, found: Option<String>) -> (r: Result<String, Json>)
    ensures
        match (found, r) {
            (Some(id), Ok(s)) => s == id,
            (None, Err(body)) => body@ == error_body(
                req_id@,
                INVALID_PARAMS as int,
                "Session not found"@,
            ),
            _ => false,
        },
{
    match found {
        Some(id) => Ok(id),
        None => Err(error_response(req_id, INVALID_PARAMS, "Session not found")),
    }
}

/// What a store's listing says of a session.
#[derive(Debug, PartialEq, Eq)]
pub struct SessionMeta {
    pub session_id: String,
    pub created_at: String,
    pub public_id: Option<String>,
    pub title: Option<String>,
}

/// Whether the session at `i` is the first of a listing with this identifier.
pub open spec fn is_first_listed(metas: Seq<SessionMeta>, session_id: Seq<char>, i: int) -> bool {
    &&& 0 <= i < metas.len()
    &&& metas[i].session_id@ == session_id
    &&& forall|k: int| 0 <= k < i ==> (#[trigger] metas[k]).session_id@ != session_id
}

/// The short identifier that a listing gives for a session, if any.
pub open spec fn short_id_in(metas: Seq<SessionMeta>, session_id: Seq<char>) -> Option<Seq<char>> {
    let i = choose|i: int| is_first_listed(metas, session_id, i);
    if is_first_listed(metas, session_id, i) {
        metas[i].public_id.deep_view()
    } else {
        None
    }
}

/// The short identifier of a session, as a listing gives it.
pub fn public_id_of(metas: &Vec<SessionMeta>, session_id: &str) -> (r: Option<String>)
    ensures
        forall|i: int|
            is_first_listed(metas@, session_id@, i) ==> r.deep_view()
                == metas@[i].public_id.deep_view(),
        (forall|i: int| !is_first_listed(metas@, session_id@, i)) ==> r is None,
        r.deep_view() == short_id_in(metas@, session_id@),
{
    let mut i: usize = 0;
    while i < metas.len()
        invariant
            i <= metas.len(),
            forall|k: int| 0 <= k < i ==> (#[trigger] metas@[k]).session_id@ != session_id@,
        decreases metas.len() - i,
    {
        if text::same(metas[i].session_id.as_str(), session_id) {
            assert(is_first_listed(metas@, session_id@, i as int));
            assert forall|k: int| is_first_listed(metas@, session_id@, k) implies k == i by {
                if k < i {
                    assert(metas@[k].session_id@ != session_id@);
                } else if i < k {
                    assert(metas@[i as int].session_id@ != session_id@);
                }
            }
            return text::copy_option(&metas[i].public_id);
        }
        i += 1;
    }
    None
}

/// A session that a client is about to open.
#[derive(Debug, PartialEq)]
#[allow(inconsistent_fields)]
pub enum OpeningSession {
    /// One that holds nothing yet. Its file comes with its first message; its
    /// short identifier is reserved now.
    New { session_id: String, public_id: String },
    /// One that is kept. `loaded` is what it holds, where that was read because
    /// it was not in memory.
    Existing { session_id: String, public_id: Option<String>, loaded: Option<Vec<ChatMessage>> },
}

impl OpeningSession {
    /// The session's identifier.
    pub open spec fn id(self) -> Seq<char> {
        match self {
            OpeningSession::New { session_id, .. } => session_id@,
            OpeningSession::Existing { session_id, .. } => session_id@,
        }
    }

    /// The session's short identifier, where it has one.
    pub open spec fn short_id(self) -> Option<Seq<char>> {
        match self {
            OpeningSession::New { public_id, .. } => Some(public_id@),
            OpeningSession::Existing { public_id, .. } => public_id.deep_view(),
        }
    }

    /// The session to open: the one that the client named, where it is kept, and a
    /// new one otherwise, which goes by the name that the client gave, if it did.
    /// `loaded` is what a kept session holds, where that had to be read.
    pub fn open(
        named: Option<String>,
        is_kept: bool,
        listing: &Vec<SessionMeta>,
        loaded: Option<Vec<ChatMessage>>,
    ) -> (r: OpeningSession)
        ensures
            match named {
                Some(id) if is_kept => {
                    &&& r is Existing
                    &&& r.id() == id@
                    &&& r->Existing_loaded == loaded
                    &&& forall|i: int|
                        is_first_listed(listing@, id@, i) ==> r.short_id()
                            == listing@[i].public_id.deep_view()
                    &&& (forall|i: int| !is_first_listed(listing@, id@, i)) ==> r.short_id()
                        is None
                    &&& r.short_id() == short_id_in(listing@, id@)
                },
                Some(id) => r is New && r.id() == id@ && is_grain(r->New_public_id@),
                None => r is New && is_uuid_v7(r.id()) && is_grain(r->New_public_id@),
            },
    {
        match named {
            Some(id) if is_kept => {
                let public_id = public_id_of(listing, id.as_str());
                OpeningSession::Existing { session_id: id, public_id, loaded }
            },
            other => OpeningSession::fresh(other),
        }
    }

    /// A session that holds nothing yet, with the identifier that the client has
    /// for it or else a fresh one, and a fresh short identifier.
    pub fn fresh(given: Option<String>) -> (r: OpeningSession)
        ensures
            r is New,
            is_grain(r->New_public_id@),
            match given {
                Some(id) => r.id() == id@,
                None => is_uuid_v7(r.id()),
            },
    {
        let session_id = match given {
            Some(id) => id,
            None => fresh_uuid(),
        };
        OpeningSession::New { session_id, public_id: fresh_grain() }
    }
}

/// What a client says of the device that it is, as the room that the model is told
/// of; nothing where it gives no name.
pub open spec fn room_info_of(params: Option<Json>) -> Option<RoomInfoView> {
    match params {
        Some(p) => match p@.get("device"@) {
            Some(device) => match device.get_text("name"@) {
                Some(name) => Some(
                    RoomInfoView {
                        name: "voice channel with "@ + name,
                        description: device.get_text("description"@),
                        kind: "voice"@,
                    },
                ),
                None => None,
            },
            None => None,
        },
        None => None,
    }
}

/// What a client says of the device that it is.
pub fn device_room_info(params: &Option<Json>) -> (r: Option<RoomInfo>)
    ensures
        r.deep_view() == room_info_of(*params),
{
    match params {
        Some(p) => match p.get("device") {
            Some(device) => match device.get_str("name") {
                Some(name) => {
                    let description = match device.get_str("description") {
                        Some(d) => Some(d.to_owned()),
                        None => None,
                    };
                    Some(
                        RoomInfo {
                            name: "voice channel with ".to_owned().concat(name),
                            description,
                            kind: "voice".to_owned(),
                        },
                    )
                },
                None => None,
            },
            None => None,
        },
        None => None,
    }
}

/// Rooms after a client may have said something of a session's.
pub open spec fn with_room_info(
    rooms: Map<Seq<char>, RoomInfoView>,
    session_id: Seq<char>,
    info: Option<RoomInfoView>,
) -> Map<Seq<char>, RoomInfoView> {
    match info {
        Some(i) => rooms.insert(session_id, i),
        None => rooms,
    }
}

/// A fields list with one more text, where there is one.
pub open spec fn with_optional(
    fields: Seq<(Seq<char>, JsonView)>,
    key: Seq<char>,
    value: Option<Seq<char>>,
) -> Seq<(Seq<char>, JsonView)> {
    match value {
        Some(v) => fields.push((key, JsonView::Text(v))),
        None => fields,
    }
}

fn add_optional(fields: Fields, key: &str, value: &Option<String>) -> (r: Fields)
    ensures
        r@ == with_optional(fields@, key@, value.deep_view()),
{
    match value {
        Some(v) => fields.with_text(key, v.as_str()),
        None => fields,
    }
}

/// What a client is told of the session that it opened.
pub open spec fn initialized(
    session_id: Seq<char>,
    is_new: bool,
    public_id: Option<Seq<char>>,
    room_profile: Seq<char>,
) -> JsonView {
    JsonView::Object(
        with_optional(
            no_fields()
                .push(("session_id"@, JsonView::Text(session_id)))
                .push(("is_new"@, JsonView::Bool(is_new))),
            "public_id"@,
            public_id,
        ).push(("room_profile"@, JsonView::Text(room_profile))),
    )
}

/// The short identifiers that are reserved after a session was opened: a new one's
/// is.
pub open spec fn pending_after_opening(
    pending: Map<Seq<char>, Seq<char>>,
    session: OpeningSession,
) -> Map<Seq<char>, Seq<char>> {
    match session {
        OpeningSession::New { session_id, public_id } => pending.insert(session_id@, public_id@),
        OpeningSession::Existing { .. } => pending,
    }
}

impl ServeState {
    /// Records what a client says of the device that it is.
    pub fn note_device(&mut self, session_id: &str, params: &Option<Json>)
        requires
            old(self).wf(),
        ensures
            final(self).wf(),
            final(self).session_room_metadata.deep_view() == with_room_info(
                old(self).session_room_metadata.deep_view(),
                session_id@,
                room_info_of(*params),
            ),
            *final(self) == (ServeState {
                session_room_metadata: final(self).session_room_metadata,
                ..*old(self)
            }),
    {
        let ghost before = self.session_room_metadata.deep_view();
        match device_room_info(params) {
            Some(info) => {
                let ghost view = info.deep_view();
                self.session_room_metadata.insert(session_id.to_owned(), info);
                assert(self.session_room_metadata.deep_view() =~= before.insert(session_id@, view));
            },
            None => {},
        }
    }

    /// Opens a session for a client: its room is pinned, a new one has its short
    /// identifier reserved, a kept one is brought into memory unless it is there.
    pub fn handle_initialize(
        &mut self,
        req_id: &Json,
        session: OpeningSession,
        profile_name: &str,
        params: &Option<Json>,
    ) -> (r: (String, Json))
        requires
            old(self).wf(),
        ensures
            final(self).wf(),
            r.0@ == session.id(),
            r.1@ == result_body(
                req_id@,
                initialized(session.id(), session is New, session.short_id(), profile_name@),
            ),
            final(self).session_room_profiles.deep_view()
                == old(self).session_room_profiles.deep_view().insert(session.id(), profile_name@),
            final(self).session_room_metadata.deep_view() == with_room_info(
                old(self).session_room_metadata.deep_view(),
                session.id(),
                room_info_of(*params),
            ),
            final(self).pending_sessions.deep_view() == pending_after_opening(
                old(self).pending_sessions.deep_view(),
                session,
            ),
            final(self).sessions.deep_view() == match session {
                OpeningSession::Existing { session_id, loaded, .. } => if old(
                    self,
                ).sessions@.contains_key(session_id@) {
                    old(self).sessions.deep_view()
                } else {
                    old(self).sessions.deep_view().insert(
                        session_id@,
                        match loaded {
                            Some(h) => h.deep_view(),
                            None => Seq::empty(),
                        },
                    )
                },
                OpeningSession::New { .. } => old(self).sessions.deep_view(),
            },
            *final(self) == (ServeState {
                session_room_profiles: final(self).session_room_profiles,
                session_room_metadata: final(self).session_room_metadata,
                pending_sessions: final(self).pending_sessions,
                sessions: final(self).sessions,
                ..*old(self)
            }),
    {
        let ghost pending = self.pending_sessions.deep_view();
        let ghost kept = self.sessions.deep_view();
        let ghost rooms = self.session_room_profiles.deep_view();
        let mut is_new = false;
        let session_id;
        let public_id;
        match session {
            OpeningSession::New { session_id: id, public_id: short } => {
                is_new = true;
                self.pending_sessions.insert(id.clone(), short.clone());
                assert(self.pending_sessions.deep_view() =~= pending.insert(id@, short@));
                session_id = id;
                public_id = Some(short);
            },
            OpeningSession::Existing { session_id: id, public_id: short, loaded } => {
                if !self.sessions.contains_key(id.as_str()) {
                    let history: Vec<ChatMessage> = match loaded {
                        Some(h) => h,
                        None => Vec::new(),
                    };
                    let ghost view = history.deep_view();
                    assert(loaded is None ==> view =~= Seq::empty());
                    self.sessions.insert(id.clone(), history);
                    assert(self.sessions.deep_view() =~= kept.insert(id@, view));
                }
                session_id = id;
                public_id = short;
            },
        }
        self.session_room_profiles.insert(session_id.clone(), profile_name.to_owned());
        assert(self.session_room_profiles.deep_view() =~= rooms.insert(
            session_id@,
            profile_name@,
        ));
        self.note_device(session_id.as_str(), params);
        let fields = Fields::new().with_text("session_id", session_id.as_str()).with(
            "is_new",
            Json::Bool(is_new),
        );
        let fields = add_optional(fields, "public_id", &public_id).with_text(
            "room_profile",
            profile_name,
        );
        let body = result_event(req_id, fields.object());
        (session_id, body)
    }
}

/// A message that a client sends to a session.
#[derive(Debug, PartialEq, Eq)]
pub struct ChatRequest {
    pub session_id: String,
    pub content: String,
    /// Whether the client wants the answer spoken too.
    pub want_audio: bool,
}

/// Whether a client asks for sound among the forms that it names. Forms that are
/// not known are passed over.
pub open spec fn wants_audio(params: Option<Json>) -> bool {
    match params {
        Some(p) => match p@.get("modalities"@) {
            Some(JsonView::Array(items)) => items.contains(JsonView::Text("audio"@)),
            _ => false,
        },
        None => false,
    }
}

fn asks_for_audio(params: &Option<Json>) -> (r: bool)
    ensures
        r == wants_audio(*params),
{
    match params {
        Some(p) => match p.get("modalities") {
            Some(Json::Array(items)) => {
                let ghost all = items.deep_view();
                proof {
                    crate::json::lemma_array(*items);
                }
                let mut i: usize = 0;
                while i < items.len()
                    invariant
                        i <= items.len(),
                        all == items.deep_view(),
                        wants_audio(*params) == all.contains(JsonView::Text("audio"@)),
                        forall|k: int| 0 <= k < i ==> #[trigger] all[k] != JsonView::Text("audio"@),
                    decreases items.len() - i,
                {
                    assert(all[i as int] == items@[i as int]@);
                    if let Some(t) = items[i].as_str() {
                        if text::same(t, "audio") {
                            assert(all[i as int] == JsonView::Text("audio"@));
                            return true;
                        }
                    }
                    i += 1;
                }
                false
            },
            _ => false,
        },
        None => false,
    }
}

/// Reads a message that a client sends. One without a session or without content
/// is refused.
pub fn handle_chat(req_id: &Json, params: &Option<Json>, session_id: Option<String>) -> (r: Result<
    ChatRequest,
    Json,
>)
    ensures
        match r {
            Ok(chat) => {
                &&& session_id == Some(chat.session_id)
                &&& param_text(*params, "content"@) == Some(chat.content@)
                &&& chat.want_audio == wants_audio(*params)
            },
            Err(body) => {
                ||| session_id is None && body@ == error_body(
                    req_id@,
                    INVALID_PARAMS as int,
                    "Missing Session-Id header"@,
                )
                ||| session_id is Some && param_text(*params, "content"@) is None && body@
                    == error_body(req_id@, INVALID_PARAMS as int, "Missing params.content"@)
            },
        },
{
    let session_id = match session_id {
        Some(id) => id,
        None => {
            return Err(error_response(req_id, INVALID_PARAMS, "Missing Session-Id header"));
        },
    };
    match param_str(params, "content") {
        Some(content) => Ok(
            ChatRequest {
                session_id,
                content: content.to_owned(),
                want_audio: asks_for_audio(params),
            },
        ),
        None => Err(error_response(req_id, INVALID_PARAMS, "Missing params.content")),
    }
}

/// What a client is told of a session in a listing.
pub open spec fn listed(meta: SessionMeta) -> JsonView {
    JsonView::Object(
        with_optional(
            with_optional(
                no_fields()
                    .push(("session_id"@, JsonView::Text(meta.session_id@)))
                    .push(("created_at"@, JsonView::Text(meta.created_at@))),
                "public_id"@,
                meta.public_id.deep_view(),
            ),
            "title"@,
            meta.title.deep_view(),
        ),
    )
}

/// Lists sessions for a client.
pub fn handle_list_sessions(req_id: &Json, metas: &Vec<SessionMeta>) -> (r: Json)
    ensures
        r@ == result_body(
            req_id@,
            JsonView::Object(
                no_fields()
                    .push(
                        (
                            "sessions"@,
                            JsonView::Array(metas@.map_values(|m: SessionMeta| listed(m))),
                        ),
                    ),
            ),
        ),
{
    let ghost want = metas@.map_values(|m: SessionMeta| listed(m));
    let mut items: Vec<Json> = Vec::new();
    assert(items.deep_view() =~= want.take(0));
    let mut i: usize = 0;
    while i < metas.len()
        invariant
            i <= metas.len(),
            want == metas@.map_values(|m: SessionMeta| listed(m)),
            items.deep_view() == want.take(i as int),
        decreases metas.len() - i,
    {
        let meta = &metas[i];
        let fields = Fields::new().with_text("session_id", meta.session_id.as_str()).with_text(
            "created_at",
            meta.created_at.as_str(),
        );
        let fields = add_optional(fields, "public_id", &meta.public_id);
        let fields = add_optional(fields, "title", &meta.title);
        let ghost before = items.deep_view();
        items.push(fields.object());
        assert(items.deep_view() =~= before.push(want[i as int]));
        assert(want.take(i + 1) =~= want.take(i as int).push(want[i as int]));
        i += 1;
    }
    assert(want.take(i as int) =~= want);
    let result = Fields::new().with("sessions", Json::array(items)).object();
    result_event(req_id, result)
}

/// The name of a role.
pub open spec fn role_name(role: Role) -> Seq<char> {
    match role {
        Role::User => "user"@,
        Role::Assistant => "assistant"@,
    }
}

/// A field that holds a text.
pub open spec fn field_text(key: Seq<char>, value: Seq<char>) -> (Seq<char>, JsonView) {
    (key, JsonView::Text(value))
}

/// What a client is shown of a part of a message: never the bytes of a picture,
/// and the key of a body that is kept elsewhere in place of the body.
pub open spec fn shown_part(part: PartView) -> JsonView {
    match part {
        PartView::Text(t) => JsonView::Object(
            no_fields().push(field_text("type"@, "text"@)).push(field_text("text"@, t)),
        ),
        PartView::Image { media_type, .. } => JsonView::Object(
            no_fields()
                .push(field_text("type"@, "image"@))
                .push(field_text("media_type"@, media_type)),
        ),
        PartView::ImageRef { media_type, sha256 } => JsonView::Object(
            no_fields()
                .push(field_text("type"@, "image"@))
                .push(field_text("media_type"@, media_type))
                .push(field_text("sha256"@, sha256)),
        ),
        PartView::ToolUse { id, name, input } => JsonView::Object(
            no_fields()
                .push(field_text("type"@, "tool_use"@))
                .push(field_text("id"@, id))
                .push(field_text("name"@, name))
                .push(("input"@, input)),
        ),
        PartView::ToolUseRef { id, name, sha256 } => JsonView::Object(
            no_fields()
                .push(field_text("type"@, "tool_use"@))
                .push(field_text("id"@, id))
                .push(field_text("name"@, name))
                .push(field_text("sha256"@, sha256)),
        ),
        PartView::ToolResult { tool_use_id, content } => JsonView::Object(
            no_fields()
                .push(field_text("type"@, "tool_result"@))
                .push(field_text("tool_use_id"@, tool_use_id))
                .push(field_text("content"@, content)),
        ),
        PartView::ToolResultRef { tool_use_id, sha256 } => JsonView::Object(
            no_fields()
                .push(field_text("type"@, "tool_result"@))
                .push(field_text("tool_use_id"@, tool_use_id))
                .push(field_text("sha256"@, sha256)),
        ),
    }
}

/// What a client is shown of a message.
pub open spec fn shown_message(msg: MessageView) -> JsonView {
    JsonView::Object(
        no_fields()
            .push(field_text("role"@, role_name(msg.role)))
            .push(("parts"@, JsonView::Array(msg.parts.map_values(|p: PartView| shown_part(p))))),
    )
}

fn show_part(part: &ContentPart) -> (r: Json)
    ensures
        r@ == shown_part(part@),
{
    match part {
        ContentPart::Text(t) => Fields::new().with_text("type", "text").with_text(
            "text",
            t.as_str(),
        ).object(),
        ContentPart::Image { media_type, .. } => Fields::new().with_text("type", "image").with_text(
            "media_type",
            media_type.as_str(),
        ).object(),
        ContentPart::ImageRef { media_type, sha256 } => Fields::new().with_text(
            "type",
            "image",
        ).with_text("media_type", media_type.as_str()).with_text(
            "sha256",
            sha256.as_str(),
        ).object(),
        ContentPart::ToolUse { id, name, input } => Fields::new().with_text(
            "type",
            "tool_use",
        ).with_text("id", id.as_str()).with_text("name", name.as_str()).with(
            "input",
            input.copy(),
        ).object(),
        ContentPart::ToolUseRef { id, name, sha256 } => Fields::new().with_text(
            "type",
            "tool_use",
        ).with_text("id", id.as_str()).with_text("name", name.as_str()).with_text(
            "sha256",
            sha256.as_str(),
        ).object(),
        ContentPart::ToolResult { tool_use_id, content } => Fields::new().with_text(
            "type",
            "tool_result",
        ).with_text("tool_use_id", tool_use_id.as_str()).with_text(
            "content",
            content.as_str(),
        ).object(),
        ContentPart::ToolResultRef { tool_use_id, sha256 } => Fields::new().with_text(
            "type",
            "tool_result",
        ).with_text("tool_use_id", tool_use_id.as_str()).with_text(
            "sha256",
            sha256.as_str(),
        ).object(),
    }
}

fn show_message(msg: &ChatMessage) -> (r: Json)
    ensures
        r@ == shown_message(msg@),
{
    let role = match msg.role {
        Role::User => "user",
        Role::Assistant => "assistant",
    };
    let ghost want = msg@.parts.map_values(|p: PartView| shown_part(p));
    let mut parts: Vec<Json> = Vec::new();
    assert(parts.deep_view() =~= want.take(0));
    let mut i: usize = 0;
    while i < msg.parts.len()
        invariant
            i <= msg.parts.len(),
            want == msg@.parts.map_values(|p: PartView| shown_part(p)),
            parts.deep_view() == want.take(i as int),
        decreases msg.parts.len() - i,
    {
        let ghost before = parts.deep_view();
        parts.push(show_part(&msg.parts[i]));
        assert(parts.deep_view() =~= before.push(want[i as int]));
        assert(want.take(i + 1) =~= want.take(i as int).push(want[i as int]));
        i += 1;
    }
    assert(want.take(i as int) =~= want);
    Fields::new().with_text("role", role).with("parts", Json::array(parts)).object()
}

/// The session whose record a client asks for.
pub fn get_session_id(req_id: &Json, session_id: Option<String>) -> (r: Result<String, Json>)
    ensures
        match (session_id, r) {
            (Some(id), Ok(s)) => s == id,
            (None, Err(body)) => body@ == error_body(
                req_id@,
                INVALID_PARAMS as int,
                "Missing Session-Id header"@,
            ),
            _ => false,
        },
{
    match session_id {
        Some(id) => Ok(id),
        None => Err(error_response(req_id, INVALID_PARAMS, "Missing Session-Id header")),
    }
}

/// Shows a client the whole record of its session, untrimmed.
pub fn handle_get_session(req_id: &Json, messages: &Vec<ChatMessage>) -> (r: Json)
    ensures
        r@ == result_body(
            req_id@,
            JsonView::Object(
                no_fields().push((
                        "messages"@,
                        JsonView::Array(
                            messages.deep_view().map_values(|m: MessageView| shown_message(m)),
                        ),
                    )),
            ),
        ),
{
    let ghost want = messages.deep_view().map_values(|m: MessageView| shown_message(m));
    let mut items: Vec<Json> = Vec::new();
    assert(items.deep_view() =~= want.take(0));
    let mut i: usize = 0;
    while i < messages.len()
        invariant
            i <= messages.len(),
            want == messages.deep_view().map_values(|m: MessageView| shown_message(m)),
            items.deep_view() == want.take(i as int),
        decreases messages.len() - i,
    {
        let ghost before = items.deep_view();
        items.push(show_message(&messages[i]));
        assert(items.deep_view() =~= before.push(want[i as int]));
        assert(want.take(i + 1) =~= want.take(i as int).push(want[i as int]));
        i += 1;
    }
    assert(want.take(i as int) =~= want);
    let result = Fields::new().with("messages", Json::array(items)).object();
    result_event(req_id, result)
}

/// A listing of a record never shows the bytes of a picture: two pictures of one
/// type look the same in it.
pub proof fn picture_bytes_are_not_shown(media_type: Seq<char>, a: Seq<char>, b: Seq<char>)
    ensures
        shown_part(PartView::Image { media_type, data_base64: a }) == shown_part(
            PartView::Image { media_type, data_base64: b },
        ),
{
}

proof fn lemma_body(
    id: JsonView,
    key: Seq<char>,
    value: JsonView,
    asked: Seq<char>,
)
    ensures
        JsonView::Object(
            no_fields().push(("jsonrpc"@, JsonView::Text("2.0"@))).push(("id"@, id)).push(
                (key, value),
            ),
        ).get(asked) == if asked == "jsonrpc"@ {
            Some(JsonView::Text("2.0"@))
        } else if asked == "id"@ {
            Some(id)
        } else if asked == key {
            Some(value)
        } else {
            None
        },
{
    crate::json::lemma_few_fields(
        ("jsonrpc"@, JsonView::Text("2.0"@)),
        ("id"@, id),
        (key, value),
        (key, value),
        asked,
    );
}

proof fn lemma_envelope_keys()
    ensures
        "jsonrpc"@.len() == 7,
        "id"@.len() == 2,
        "error"@.len() == 5,
        "result"@.len() == 6 && "result"@[0] == 'r',
        "method"@.len() == 6 && "method"@[0] == 'm',
        "params"@.len() == 6 && "params"@[0] == 'p',
        "code"@.len() == 4,
        "message"@.len() == 7 && "message"@[0] == 'm',
{
    reveal_strlit("jsonrpc");
    reveal_strlit("id");
    reveal_strlit("error");
    reveal_strlit("result");
    reveal_strlit("method");
    reveal_strlit("params");
    reveal_strlit("code");
    reveal_strlit("message");
}

/// What a body that tells of an error holds: the request that it answers, the code and
/// the whole message, and no result.
pub proof fn errors_say_what_went_wrong(id: JsonView, code: int, message: Seq<char>)
    ensures
        ({
            let body = error_body(id, code, message);
            &&& body.get("id"@) == Some(id)
            &&& body.get("result"@) is None
            &&& body.get_text("jsonrpc"@) == Some("2.0"@)
            &&& body.get("error"@) is Some
            &&& body.get("error"@).unwrap().get("code"@) == Some(JsonView::Int(code))
            &&& body.get("error"@).unwrap().get_text("message"@) == Some(message)
        }),
{
    lemma_envelope_keys();
    let error = JsonView::Object(
        no_fields().push(("code"@, JsonView::Int(code))).push(
            ("message"@, JsonView::Text(message)),
        ),
    );
    lemma_body(id, "error"@, error, "id"@);
    lemma_body(id, "error"@, error, "result"@);
    lemma_body(id, "error"@, error, "jsonrpc"@);
    lemma_body(id, "error"@, error, "error"@);
    let a = ("code"@, JsonView::Int(code));
    let b = ("message"@, JsonView::Text(message));
    crate::json::lemma_few_fields(a, b, a, b, "code"@);
    crate::json::lemma_few_fields(a, b, a, b, "message"@);
}

/// What a body that brings a result holds: the request that it answers and the whole
/// result, and no error.
pub proof fn results_are_brought_whole(id: JsonView, result: JsonView)
    ensures
        ({
            let body = result_body(id, result);
            &&& body.get("id"@) == Some(id)
            &&& body.get("error"@) is None
            &&& body.get_text("jsonrpc"@) == Some("2.0"@)
            &&& body.get("result"@) == Some(result)
        }),
{
    lemma_envelope_keys();
    lemma_body(id, "result"@, result, "id"@);
    lemma_body(id, "result"@, result, "error"@);
    lemma_body(id, "result"@, result, "jsonrpc"@);
    lemma_body(id, "result"@, result, "result"@);
}

/// What a notification holds: its method and the whole of its parameters, and no
/// request that it answers.
pub proof fn notifications_are_brought_whole(method: Seq<char>, params: JsonView)
    ensures
        ({
            let body = notification_body(method, params);
            &&& body.get("id"@) is None
            &&& body.get_text("jsonrpc"@) == Some("2.0"@)
            &&& body.get_text("method"@) == Some(method)
            &&& body.get("params"@) == Some(params)
        }),
{
    lemma_envelope_keys();
    let a = ("jsonrpc"@, JsonView::Text("2.0"@));
    let b = ("method"@, JsonView::Text(method));
    let c = ("params"@, params);
    crate::json::lemma_few_fields(a, b, c, c, "id"@);
    crate::json::lemma_few_fields(a, b, c, c, "jsonrpc"@);
    crate::json::lemma_few_fields(a, b, c, c, "method"@);
    crate::json::lemma_few_fields(a, b, c, c, "params"@);
}

/// What goes over the wire says what it was made from: an error its code and message,
/// a result itself, a notification its method and parameters.
pub proof fn envelopes_hold_what_they_carry(
    id: Json,
    code: i64,
    message: &str,
    result: Json,
    method: &str,
    params: Json,
    refused: Json,
    failed: Json,
    done: Json,
    noted: Json,
)
    requires
        call_ensures(error_response, (&id, code, message), refused),
        call_ensures(error_event, (&id, code, message), failed),
        call_ensures(result_event, (&id, result), done),
        call_ensures(notification_event, (method, params), noted),
    ensures
        refused@ == failed@,
        failed@.get("id"@) == Some(id@),
        failed@.get("result"@) is None,
        failed@.get("error"@) is Some,
        failed@.get("error"@).unwrap().get("code"@) == Some(JsonView::Int(code as int)),
        failed@.get("error"@).unwrap().get_text("message"@) == Some(message@),
        done@.get("id"@) == Some(id@),
        done@.get("result"@) == Some(result@),
        done@.get("error"@) is None,
        noted@.get("id"@) is None,
        noted@.get_text("method"@) == Some(method@),
        noted@.get("params"@) == Some(params@),
{
    errors_say_what_went_wrong(id@, code as int, message@);
    results_are_brought_whole(id@, result@);
    notifications_are_brought_whole(method@, params@);
}

/// The codes of the protocol.
pub proof fn codes_are_those_of_the_protocol()
    ensures
        RPC_AUTH_REQUIRED == -32001,
        METHOD_NOT_FOUND == -32601,
        INVALID_PARAMS == -32602,
        INTERNAL_ERROR == -32603,
{
}

/// A bearer token is what follows the scheme, whichever way that is written, without
/// the white space around it, unless nothing is left then. Nothing but such an
/// authorization has one.
pub proof fn tokens_follow_the_scheme(
    authorization: &str,
    r: Option<String>,
    rest: Seq<char>,
)
    requires
        call_ensures(bearer_of, (authorization,), r),
    ensures
        authorization@ == "Bearer "@ + rest || authorization@ == "bearer "@ + rest ==> (r is Some
            <==> text::trimmed(rest).len() > 0) && (r is Some ==> r.unwrap()@ == text::trimmed(
            rest,
        )),
        r is Some ==> "Bearer "@.is_prefix_of(authorization@) || "bearer "@.is_prefix_of(
            authorization@,
        ),
{
    text::prefixes_are_cut_whole(authorization@, "Bearer "@, rest);
    text::prefixes_are_cut_whole(authorization@, "bearer "@, rest);
    reveal_strlit("Bearer ");
    reveal_strlit("bearer ");
    assert("Bearer "@[0] == 'B' && "bearer "@[0] == 'b');
    if authorization@ == "bearer "@ + rest {
        assert(authorization@[0] == 'b');
        if "Bearer "@.is_prefix_of(authorization@) {
            assert(authorization@.subrange(0, 7)[0] == 'B');
        }
    }
}

/// The token of a request is that of its authorization, and a request without one has
/// none; its session is what its header names.
pub proof fn requests_are_told_by_their_headers(
    headers: &axum::http::HeaderMap<axum::http::HeaderValue>,
    authorization: &str,
    token: Option<String>,
    alone: Option<String>,
    session: Option<String>,
    credentials: Result<RpcCredentials, HttpRefusal>,
)
    requires
        call_ensures(extract_bearer, (headers,), token),
        call_ensures(bearer_of, (authorization,), alone),
        call_ensures(session_header, (headers,), session),
        call_ensures(rpc_credentials, (headers,), credentials),
    ensures
        !header_texts(*headers).contains_key("authorization"@) ==> token is None,
        header_texts(*headers).contains_key("authorization"@) && header_texts(
            *headers,
        )["authorization"@] == authorization@ ==> (token is Some <==> alone is Some) && (
        token is Some ==> token.unwrap()@ == alone.unwrap()@),
        session is Some <==> header_texts(*headers).contains_key("session-id"@),
        session is Some ==> session.unwrap()@ == header_texts(*headers)["session-id"@],
        credentials is Ok <==> token is Some,
        credentials matches Ok(c) ==> c.bearer@ == token.unwrap()@ && (c.session_id is Some
            <==> session is Some) && (session is Some ==> c.session_id.unwrap()@
            == session.unwrap()@),
        credentials matches Err(e) ==> e.status == 401 && e.text@ == "missing bearer token"@,
{
}

proof fn lemma_methods()
    ensures
        method_name(RpcMethod::Initialize) == "initialize"@,
        method_name(RpcMethod::Chat) == "chat"@,
        method_name(RpcMethod::ListSessions) == "list_sessions"@,
        method_name(RpcMethod::GetSession) == "get_session"@,
        method_name(RpcMethod::VoiceConfig) == "voice/config"@,
        method_name(RpcMethod::VoicePipelineRun) == "voice/pipeline_run"@,
        method_name(RpcMethod::VoiceSubscribe) == "voice/subscribe"@,
        forall|a: RpcMethod, b: RpcMethod| #[trigger]
            method_name(a) == #[trigger] method_name(b) ==> a == b,
{
    assert forall|a: RpcMethod, b: RpcMethod| #[trigger] method_name(a) == #[trigger] method_name(
        b,
    ) implies a == b by {
        method_names_differ(a, b);
    }
}

/// Each method goes by its own name, and by no other.
pub proof fn methods_go_by_their_names(name: &str, r: Option<RpcMethod>)
    requires
        call_ensures(rpc_method, (name,), r),
    ensures
        r == Some(RpcMethod::Initialize) <==> name@ == "initialize"@,
        r == Some(RpcMethod::Chat) <==> name@ == "chat"@,
        r == Some(RpcMethod::ListSessions) <==> name@ == "list_sessions"@,
        r == Some(RpcMethod::GetSession) <==> name@ == "get_session"@,
        r == Some(RpcMethod::VoiceConfig) <==> name@ == "voice/config"@,
        r == Some(RpcMethod::VoicePipelineRun) <==> name@ == "voice/pipeline_run"@,
        r == Some(RpcMethod::VoiceSubscribe) <==> name@ == "voice/subscribe"@,
{
    lemma_methods();
}

/// A request is routed by its method on behalf of whom its token belongs to. One whose
/// token belongs to nobody is refused whatever it asks, and one for a method that
/// there is not is told so.
pub proof fn requests_are_routed_by_method(
    id: Json,
    method: &str,
    caller: Option<Caller>,
    r: Result<(RpcMethod, Caller), Json>,
    known: Option<RpcMethod>,
)
    requires
        call_ensures(rpc_post, (&id, method, caller), r),
        call_ensures(rpc_method, (method,), known),
    ensures
        r is Ok <==> caller is Some && known is Some,
        r matches Ok(ok) ==> Some(ok.0) == known && Some(ok.1) == caller,
        r matches Err(body) ==> body@.get("id"@) == Some(id@) && body@.get("error"@) is Some
            && body@.get("error"@).unwrap().get("code"@) == Some(
            JsonView::Int(
                if caller is None {
                    -32001
                } else {
                    -32601
                },
            ),
        ) && body@.get("error"@).unwrap().get_text("message"@) == Some(
            if caller is None {
                "unknown or revoked bearer token"@
            } else {
                "Method not found"@
            },
        ),
{
    lemma_methods();
    errors_say_what_went_wrong(
        id@,
        RPC_AUTH_REQUIRED as int,
        "unknown or revoked bearer token"@,
    );
    errors_say_what_went_wrong(id@, METHOD_NOT_FOUND as int, "Method not found"@);
    if r is Ok {
        assert(method_name(r->Ok_0.0) == method@);
    }
    if known is Some {
        assert(method_name(known.unwrap()) == method@);
    }
}

/// A parameter is the text under its key, and there is none without parameters.
pub proof fn parameters_are_looked_up(params: Json, key: &str, r: Option<&str>, none: Option<&str>)
    requires
        call_ensures(param_str, (&Some(params), key), r),
        call_ensures(param_str, (&None::<Json>, key), none),
    ensures
        none is None,
        r is Some <==> params@.get(key@) is Some && params@.get(key@).unwrap() is Text,
        r is Some ==> params@.get(key@) == Some(JsonView::Text(r.unwrap()@)),
{
    crate::json::only_objects_have_fields(params@, key@);
}

/// Which session a client wants: the one of its header, whatever its parameters say;
/// else a new one where they name none or say so; else the one with the short
/// identifier that they give, if it has the length of one.
pub proof fn clients_open_what_they_name(
    header: Option<String>,
    params: Option<Json>,
    r: InitializeTarget,
    named: Option<&str>,
    key: &str,
)
    requires
        call_ensures(initialize_target, (header, &params), r),
        key@ == "session_id"@,
        call_ensures(param_str, (&params, key), named),
    ensures
        header is Some ==> r is Session && r->Session_0@ == header.unwrap()@,
        header is None && named is None ==> r is Fresh,
        header is None && named is Some && named.unwrap()@ == "new"@ ==> r is Fresh,
        header is None && named is Some && named.unwrap()@ != "new"@ ==> if text::byte_len(
            named.unwrap()@,
        ) == 7 {
            r is Lookup && r->Lookup_0@ == named.unwrap()@
        } else {
            r is Invalid
        },
{
}

/// A session that was looked up is opened by its identifier; one that was not found,
/// or whose identifier is none, is refused.
pub proof fn lookups_open_what_they_find(
    id: Json,
    found: Option<String>,
    r: Result<String, Json>,
    invalid: Json,
    asked: Result<String, Json>,
)
    requires
        call_ensures(initialize_lookup, (&id, found), r),
        call_ensures(invalid_session_id, (&id,), invalid),
        call_ensures(get_session_id, (&id, found), asked),
    ensures
        found matches Some(f) ==> r == Ok::<String, Json>(f) && asked == Ok::<String, Json>(f),
        found is None ==> r is Err && r->Err_0@.get("id"@) == Some(id@)
            && r->Err_0@.get("error"@).unwrap().get("code"@) == Some(JsonView::Int(-32602))
            && r->Err_0@.get("error"@).unwrap().get_text("message"@) == Some("Session not found"@),
        found is None ==> asked is Err && asked->Err_0@.get("id"@) == Some(id@)
            && asked->Err_0@.get("error"@).unwrap().get("code"@) == Some(JsonView::Int(-32602)),
        invalid@.get("id"@) == Some(id@),
        invalid@.get("error"@).unwrap().get("code"@) == Some(JsonView::Int(-32602)),
{
    errors_say_what_went_wrong(id@, INVALID_PARAMS as int, "Session not found"@);
    errors_say_what_went_wrong(id@, INVALID_PARAMS as int, "Missing Session-Id header"@);
    errors_say_what_went_wrong(
        id@,
        INVALID_PARAMS as int,
        "Invalid session id (expected 7-char grain-id)"@,
    );
}

/// A session that is kept is opened as it is, with what was read of it and its short
/// identifier. One that is not is new under the name that the client has for it, and
/// one without a name is new under a fresh one; a new one has a fresh short
/// identifier.
pub proof fn kept_sessions_are_opened_as_they_are(
    named: Option<String>,
    is_kept: bool,
    metas: Vec<SessionMeta>,
    loaded: Option<Vec<ChatMessage>>,
    r: OpeningSession,
    short: Option<String>,
    id: &str,
)
    requires
        call_ensures(OpeningSession::open, (named, is_kept, &metas, loaded), r),
        named is Some ==> id@ == named.unwrap()@,
        call_ensures(public_id_of, (&metas, id), short),
    ensures
        r is Existing <==> named is Some && is_kept,
        r is Existing ==> r->Existing_session_id@ == named.unwrap()@,
        r is Existing ==> r->Existing_loaded == loaded,
        r is Existing ==> (r->Existing_public_id is Some <==> short is Some),
        r is Existing && short is Some ==> r->Existing_public_id.unwrap()@ == short.unwrap()@,
        r is New ==> r->New_public_id@.len() == 7,
        r is New && named is Some ==> r->New_session_id@ == named.unwrap()@,
        r is New && named is None ==> is_uuid_v7(r->New_session_id@),
{
    if r is Existing {
        assert(r.short_id() == short_id_in(metas@, id@));
        assert(short.deep_view() == short_id_in(metas@, id@));
    }
}

/// What a client says of its device becomes the room that the model is told of, under
/// the name and with the description that the client gives; without a name there is
/// none.
pub proof fn devices_become_rooms(
    params: Option<Json>,
    r: Option<RoomInfo>,
    device: JsonView,
)
    requires
        call_ensures(device_room_info, (&params,), r),
    ensures
        params is None ==> r is None,
        params is Some && params.unwrap()@.get("device"@) is None ==> r is None,
        params is Some && params.unwrap()@.get("device"@) == Some(device) ==> {
            &&& r is Some <==> device.get_text("name"@) is Some
            &&& r is Some ==> r.unwrap().name@ == "voice channel with "@ + device.get_text(
                "name"@,
            ).unwrap()
            &&& r is Some ==> r.unwrap().kind@ == "voice"@
            &&& r is Some ==> r.unwrap().description.deep_view() == device.get_text(
                "description"@,
            )
        },
{
}

proof fn lemma_initialized_keys()
    ensures
        "session_id"@.len() == 10,
        "is_new"@.len() == 6,
        "public_id"@.len() == 9,
        "room_profile"@.len() == 12,
{
    reveal_strlit("session_id");
    reveal_strlit("is_new");
    reveal_strlit("public_id");
    reveal_strlit("room_profile");
}

/// What a client is told of the session that it opened: its identifier, whether it is
/// new, its short identifier where it has one, and its room.
pub proof fn opened_sessions_are_described(
    session_id: Seq<char>,
    is_new: bool,
    public_id: Option<Seq<char>>,
    room: Seq<char>,
)
    ensures
        ({
            let told = initialized(session_id, is_new, public_id, room);
            &&& told.get_text("session_id"@) == Some(session_id)
            &&& told.get("is_new"@) == Some(JsonView::Bool(is_new))
            &&& told.get_text("public_id"@) == public_id
            &&& told.get_text("room_profile"@) == Some(room)
        }),
{
    lemma_initialized_keys();
    let a = ("session_id"@, JsonView::Text(session_id));
    let b = ("is_new"@, JsonView::Bool(is_new));
    let d = ("room_profile"@, JsonView::Text(room));
    let c = match public_id {
        Some(p) => ("public_id"@, JsonView::Text(p)),
        None => d,
    };
    crate::json::lemma_few_fields(a, b, c, d, "session_id"@);
    crate::json::lemma_few_fields(a, b, c, d, "is_new"@);
    crate::json::lemma_few_fields(a, b, c, d, "public_id"@);
    crate::json::lemma_few_fields(a, b, c, d, "room_profile"@);
}

/// Opening a session pins its room and tells of it, reserves the short identifier of a
/// new one, and brings a kept one into memory unless it is there. What is known of
/// every other session stays as it was.
#[verifier::rlimit(50)]
pub proof fn opening_a_session_touches_no_other(
    before: ServeState,
    after: ServeState,
    req_id: Json,
    session: OpeningSession,
    room: &str,
    params: Option<Json>,
    r: (String, Json),
    other: Seq<char>,
)
    requires
        before.wf(),
        exists|s: &mut ServeState|
            *s == before && *final(s) == after && #[trigger] call_ensures(
                ServeState::handle_initialize,
                (s, &req_id, session, room, &params),
                r,
            ),
        other != session.id(),
    ensures
        ({
            let id = session.id();
            let result = r.1@.get("result"@).unwrap();
            let kept = before.sessions@.contains_key(id);
            &&& session is New ==> id == session->New_session_id@
            &&& session is Existing ==> id == session->Existing_session_id@
            &&& r.0@ == id
            &&& r.1@.get("id"@) == Some(req_id@)
            &&& r.1@.get("result"@) is Some
            &&& result.get_text("session_id"@) == Some(id)
            &&& result.get("is_new"@) == Some(JsonView::Bool(session is New))
            &&& result.get_text("room_profile"@) == Some(room@)
            &&& session is New ==> result.get_text("public_id"@) == Some(session->New_public_id@)
            &&& session is Existing ==> result.get_text("public_id"@)
                == session->Existing_public_id.deep_view()
            &&& after.session_room_profiles@.contains_key(id)
            &&& after.session_room_profiles@[id]@ == room@
            &&& session is New ==> after.pending_sessions@.contains_key(id)
                && after.pending_sessions@[id]@ == session->New_public_id@
            &&& session is Existing ==> after.sessions@.contains_key(id)
            &&& session is Existing && kept ==> after.sessions@[id].deep_view()
                == before.sessions@[id].deep_view()
            &&& session is Existing && !kept && session->Existing_loaded is Some
                ==> after.sessions@[id].deep_view() == session->Existing_loaded.unwrap().deep_view()
            &&& session is New ==> after.sessions@.contains_key(id) == kept
            &&& after.sessions@.contains_key(other) == before.sessions@.contains_key(other)
            &&& after.sessions@.contains_key(other) ==> after.sessions@[other].deep_view()
                == before.sessions@[other].deep_view()
            &&& after.session_room_profiles@.contains_key(other)
                == before.session_room_profiles@.contains_key(other)
            &&& after.session_room_profiles@.contains_key(other)
                ==> after.session_room_profiles@[other]@ == before.session_room_profiles@[other]@
            &&& after.pending_sessions@.contains_key(other)
                == before.pending_sessions@.contains_key(other)
            &&& after.pending_sessions@.contains_key(other) ==> after.pending_sessions@[other]@
                == before.pending_sessions@[other]@
            &&& after.session_room_metadata@.contains_key(other)
                == before.session_room_metadata@.contains_key(other)
            &&& after.acp_sessions == before.acp_sessions
            &&& after.open_acp_sessions == before.open_acp_sessions
            &&& after.voice_subscribers == before.voice_subscribers
            &&& after.acp_terminals == before.acp_terminals
            &&& after.mcp_project_index == before.mcp_project_index
        }),
{
    let id = session.id();
    results_are_brought_whole(
        req_id@,
        initialized(id, session is New, session.short_id(), room@),
    );
    opened_sessions_are_described(id, session is New, session.short_id(), room@);
    assert(after.session_room_profiles.deep_view().contains_key(id));
    assert(after.session_room_profiles.deep_view()[id] == room@);
    assert(after.sessions.deep_view().contains_key(other)
        == before.sessions.deep_view().contains_key(other));
    assert(after.sessions.deep_view().contains_key(id) == after.sessions@.contains_key(id));
    assert(before.sessions.deep_view().contains_key(id) == before.sessions@.contains_key(id));
    if after.sessions@.contains_key(other) {
        assert(after.sessions.deep_view()[other] == before.sessions.deep_view()[other]);
    }
    assert(after.session_room_profiles.deep_view().contains_key(other)
        == before.session_room_profiles.deep_view().contains_key(other));
    if after.session_room_profiles@.contains_key(other) {
        assert(after.session_room_profiles.deep_view()[other]
            == before.session_room_profiles.deep_view()[other]);
    }
    assert(after.pending_sessions.deep_view().contains_key(other)
        == before.pending_sessions.deep_view().contains_key(other));
    if after.pending_sessions@.contains_key(other) {
        assert(after.pending_sessions.deep_view()[other]
            == before.pending_sessions.deep_view()[other]);
    }
    assert(after.session_room_metadata.deep_view().contains_key(other)
        == before.session_room_metadata.deep_view().contains_key(other));
    if session is New {
        assert(after.pending_sessions.deep_view().contains_key(id));
        assert(after.pending_sessions.deep_view()[id] == session->New_public_id@);
    } else {
        assert(after.sessions.deep_view().contains_key(id));
        if before.sessions@.contains_key(id) {
            assert(after.sessions.deep_view()[id] == before.sessions.deep_view()[id]);
        } else if session->Existing_loaded is Some {
            assert(after.sessions.deep_view()[id]
                == session->Existing_loaded.unwrap().deep_view());
        }
    }
}

/// A message that a client sends is taken with all of its content, for the session
/// that its header names. Sound is wanted exactly where it is among the forms that
/// the client names.
pub proof fn messages_are_taken_whole(
    id: Json,
    params: Option<Json>,
    session: Option<String>,
    r: Result<ChatRequest, Json>,
)
    requires
        call_ensures(handle_chat, (&id, &params, session), r),
    ensures
        r is Ok <==> session is Some && params is Some && params.unwrap()@.get_text("content"@)
            is Some,
        r matches Ok(chat) ==> chat.session_id@ == session.unwrap()@ && Some(chat.content@)
            == params.unwrap()@.get_text("content"@),
        r matches Ok(chat) ==> (chat.want_audio <==> exists|i: int|
            0 <= i < params.unwrap()@.get("modalities"@).unwrap()->Array_0.len() && (
            #[trigger] params.unwrap()@.get("modalities"@).unwrap()->Array_0[i])
                == JsonView::Text("audio"@) && params.unwrap()@.get("modalities"@) is Some
                && params.unwrap()@.get("modalities"@).unwrap() is Array),
        r matches Err(body) ==> body@.get("id"@) == Some(id@) && body@.get(
            "error"@,
        ).unwrap().get("code"@) == Some(JsonView::Int(-32602)) && body@.get(
            "error"@,
        ).unwrap().get_text("message"@) == Some(
            if session is None {
                "Missing Session-Id header"@
            } else {
                "Missing params.content"@
            },
        ),
{
    errors_say_what_went_wrong(id@, INVALID_PARAMS as int, "Missing Session-Id header"@);
    errors_say_what_went_wrong(id@, INVALID_PARAMS as int, "Missing params.content"@);
    if r is Ok {
        let forms = params.unwrap()@.get("modalities"@);
        if forms is Some && forms.unwrap() is Array {
            let items = forms.unwrap()->Array_0;
            if items.contains(JsonView::Text("audio"@)) {
                let i = choose|i: int| 0 <= i < items.len() && items[i] == JsonView::Text("audio"@);
                assert(items[i] == JsonView::Text("audio"@));
            }
        }
    }
}

/// What a client is told of a session in a listing: its identifier, when it was made,
/// and its short identifier and title where it has them.
pub proof fn listed_sessions_are_described(meta: SessionMeta)
    ensures
        listed(meta).get_text("session_id"@) == Some(meta.session_id@),
        listed(meta).get_text("created_at"@) == Some(meta.created_at@),
        listed(meta).get_text("public_id"@) == meta.public_id.deep_view(),
        listed(meta).get_text("title"@) == meta.title.deep_view(),
{
    lemma_initialized_keys();
    reveal_strlit("created_at");
    reveal_strlit("title");
    assert("created_at"@.len() == 10 && "created_at"@[0] == 'c');
    reveal_strlit("session_id");
    assert("session_id"@[0] == 's');
    assert("title"@.len() == 5);
    let a = ("session_id"@, JsonView::Text(meta.session_id@));
    let b = ("created_at"@, JsonView::Text(meta.created_at@));
    let p = ("public_id"@, JsonView::Text(meta.public_id.unwrap()@));
    let t = ("title"@, JsonView::Text(meta.title.unwrap()@));
    let c = if meta.public_id is Some {
        p
    } else {
        t
    };
    crate::json::lemma_few_fields(a, b, c, t, "session_id"@);
    crate::json::lemma_few_fields(a, b, c, t, "created_at"@);
    crate::json::lemma_few_fields(a, b, c, t, "public_id"@);
    crate::json::lemma_few_fields(a, b, c, t, "title"@);
}

/// A listing tells of every session of its store, in order.
pub proof fn listings_leave_no_session_out(
    id: Json,
    metas: Vec<SessionMeta>,
    r: Json,
    i: int,
)
    requires
        call_ensures(handle_list_sessions, (&id, &metas), r),
    ensures
        ({
            let shown = r@.get("result"@).unwrap().get("sessions"@).unwrap();
            &&& r@.get("id"@) == Some(id@)
            &&& r@.get("result"@) is Some
            &&& r@.get("result"@).unwrap().get("sessions"@) is Some
            &&& shown is Array
            &&& shown->Array_0.len() == metas.len()
            &&& 0 <= i < metas.len() ==> shown->Array_0[i].get_text("session_id"@) == Some(
                metas@[i].session_id@,
            )
            &&& 0 <= i < metas.len() ==> shown->Array_0[i].get_text("created_at"@) == Some(
                metas@[i].created_at@,
            )
            &&& 0 <= i < metas.len() ==> shown->Array_0[i].get_text("public_id"@)
                == metas@[i].public_id.deep_view()
            &&& 0 <= i < metas.len() ==> shown->Array_0[i].get_text("title"@)
                == metas@[i].title.deep_view()
        }),
{
    let all = JsonView::Array(metas@.map_values(|m: SessionMeta| listed(m)));
    let a = ("sessions"@, all);
    results_are_brought_whole(id@, JsonView::Object(no_fields().push(a)));
    crate::json::lemma_few_fields(a, a, a, a, "sessions"@);
    if 0 <= i < metas.len() {
        listed_sessions_are_described(metas@[i]);
    }
}

proof fn lemma_part_keys()
    ensures
        "type"@.len() == 4 && "type"@[1] == 'y',
        "text"@.len() == 4 && "text"@[1] == 'e',
        "media_type"@.len() == 10,
        "sha256"@.len() == 6,
        "id"@.len() == 2,
        "name"@.len() == 4 && "name"@[0] == 'n',
        "input"@.len() == 5,
        "tool_use_id"@.len() == 11,
        "content"@.len() == 7,
        "data_base64"@.len() == 11 && "data_base64"@[0] == 'd',
        "type"@[0] == 't',
        "tool_use_id"@[0] == 't',
{
    reveal_strlit("type");
    reveal_strlit("text");
    reveal_strlit("media_type");
    reveal_strlit("sha256");
    reveal_strlit("id");
    reveal_strlit("name");
    reveal_strlit("input");
    reveal_strlit("tool_use_id");
    reveal_strlit("content");
    reveal_strlit("data_base64");
}

/// A client is shown a part by its kind, with all that it says: a text and an output
/// whole, a call with its input, a body that is kept elsewhere by its key. Of a
/// picture it is shown the type.
pub proof fn parts_are_shown_whole(part: PartView)
    ensures
        part is Text ==> shown_part(part).get_text("type"@) == Some("text"@) && shown_part(
            part,
        ).get_text("text"@) == Some(part->Text_0),
        part is Image || part is ImageRef ==> shown_part(part).get_text("type"@) == Some("image"@),
        part is Image ==> shown_part(part).get_text("media_type"@) == Some(part->Image_media_type),
        part is ImageRef ==> shown_part(part).get_text("media_type"@) == Some(
            part->ImageRef_media_type,
        ) && shown_part(part).get_text("sha256"@) == Some(part->ImageRef_sha256),
        part is ToolUse || part is ToolUseRef ==> shown_part(part).get_text("type"@) == Some(
            "tool_use"@,
        ),
        part is ToolUse ==> shown_part(part).get_text("id"@) == Some(part->ToolUse_id)
            && shown_part(part).get_text("name"@) == Some(part->ToolUse_name) && shown_part(
            part,
        ).get("input"@) == Some(part->input),
        part is ToolUseRef ==> shown_part(part).get_text("id"@) == Some(part->ToolUseRef_id)
            && shown_part(part).get_text("name"@) == Some(part->ToolUseRef_name) && shown_part(
            part,
        ).get_text("sha256"@) == Some(part->ToolUseRef_sha256),
        part is ToolResult || part is ToolResultRef ==> shown_part(part).get_text("type"@) == Some(
            "tool_result"@,
        ),
        part is ToolResult ==> shown_part(part).get_text("tool_use_id"@) == Some(
            part->ToolResult_tool_use_id,
        ) && shown_part(part).get_text("content"@) == Some(part->content),
        part is ToolResultRef ==> shown_part(part).get_text("tool_use_id"@) == Some(
            part->ToolResultRef_tool_use_id,
        ) && shown_part(part).get_text("sha256"@) == Some(part->ToolResultRef_sha256),
{
    lemma_part_keys();
    let kind = |t: Seq<char>| field_text("type"@, t);
    let a = shown_part(part)->Object_0[0];
    let b = shown_part(part)->Object_0[1];
    let c = shown_part(part)->Object_0[2];
    let d = shown_part(part)->Object_0[3];
    crate::json::lemma_few_fields(a, b, c, d, "type"@);
    crate::json::lemma_few_fields(a, b, c, d, "text"@);
    crate::json::lemma_few_fields(a, b, c, d, "media_type"@);
    crate::json::lemma_few_fields(a, b, c, d, "sha256"@);
    crate::json::lemma_few_fields(a, b, c, d, "id"@);
    crate::json::lemma_few_fields(a, b, c, d, "name"@);
    crate::json::lemma_few_fields(a, b, c, d, "input"@);
    crate::json::lemma_few_fields(a, b, c, d, "tool_use_id"@);
    crate::json::lemma_few_fields(a, b, c, d, "content"@);
}

/// A client is shown the whole record of a session: every message, in order, by whom
/// it is, with every part of it in order.
pub proof fn records_leave_nothing_out(
    id: Json,
    messages: Vec<ChatMessage>,
    r: Json,
    i: int,
    k: int,
)
    requires
        call_ensures(handle_get_session, (&id, &messages), r),
    ensures
        ({
            let shown = r@.get("result"@).unwrap().get("messages"@).unwrap();
            let one = shown->Array_0[i];
            &&& r@.get("id"@) == Some(id@)
            &&& r@.get("result"@) is Some
            &&& r@.get("result"@).unwrap().get("messages"@) is Some
            &&& shown is Array
            &&& shown->Array_0.len() == messages.len()
            &&& 0 <= i < messages.len() ==> {
                &&& one.get_text("role"@) == Some(
                    if messages@[i].role == Role::User {
                        "user"@
                    } else {
                        "assistant"@
                    },
                )
                &&& one.get("parts"@) is Some
                &&& one.get("parts"@).unwrap() is Array
                &&& one.get("parts"@).unwrap()->Array_0.len() == messages@[i].parts.len()
                &&& 0 <= k < messages@[i].parts.len() ==> one.get("parts"@).unwrap()->Array_0[k]
                    == shown_part(messages@[i].parts@[k]@)
            }
        }),
{
    let all = JsonView::Array(
        messages.deep_view().map_values(|m: MessageView| shown_message(m)),
    );
    let a = ("messages"@, all);
    results_are_brought_whole(id@, JsonView::Object(no_fields().push(a)));
    crate::json::lemma_few_fields(a, a, a, a, "messages"@);
    assert(messages.deep_view().len() == messages.len());
    if 0 <= i < messages.len() {
        let msg = messages@[i]@;
        assert(messages.deep_view()[i] == msg);
        reveal_strlit("role");
        reveal_strlit("parts");
        assert("role"@.len() == 4 && "parts"@.len() == 5);
        let x = field_text("role"@, role_name(msg.role));
        let y = (
            "parts"@,
            JsonView::Array(msg.parts.map_values(|p: PartView| shown_part(p))),
        );
        crate::json::lemma_few_fields(x, y, x, y, "role"@);
        crate::json::lemma_few_fields(x, y, x, y, "parts"@);
        assert(msg.parts.len() == messages@[i].parts.len());
        if 0 <= k < messages@[i].parts.len() {
            assert(msg.parts[k] == messages@[i].parts@[k]@);
        }
    }
}

/// The short identifier of a session is that of the first entry of a listing that is
/// the session's, and there is none where no entry is.
pub proof fn listings_give_short_identifiers(
    metas: Vec<SessionMeta>,
    session_id: &str,
    r: Option<String>,
    i: int,
)
    requires
        call_ensures(public_id_of, (&metas, session_id), r),
    ensures
        0 <= i < metas.len() && metas@[i].session_id@ == session_id@ && (forall|k: int|
            0 <= k < i ==> (#[trigger] metas@[k]).session_id@ != session_id@) ==> (r is Some
            <==> metas@[i].public_id is Some) && (r is Some ==> r.unwrap()@
            == metas@[i].public_id.unwrap()@),
        (forall|k: int| 0 <= k < metas.len() ==> (#[trigger] metas@[k]).session_id@ != session_id@)
            ==> r is None,
{
    if 0 <= i < metas.len() && metas@[i].session_id@ == session_id@ && (forall|k: int|
        0 <= k < i ==> (#[trigger] metas@[k]).session_id@ != session_id@) {
        assert(is_first_listed(metas@, session_id@, i));
        let k = choose|k: int| is_first_listed(metas@, session_id@, k);
        assert(k == i) by {
            if k < i {
                assert(metas@[k].session_id@ != session_id@);
            } else if i < k {
                assert(metas@[i].session_id@ != session_id@);
            }
        }
        assert(r.deep_view() == metas@[i].public_id.deep_view());
    } else if forall|k: int|
        0 <= k < metas.len() ==> (#[trigger] metas@[k]).session_id@ != session_id@ {
        assert(r.deep_view() is None);
    }
}

/// A refusal has the status and every character of the text that it was given; reading
/// the endpoint is refused.
pub proof fn refusals_say_why(status: u16, text: &str, r: HttpRefusal, read: HttpRefusal)
    requires
        call_ensures(http_refusal, (status, text), r),
        call_ensures(rpc_get, (), read),
    ensures
        r.status == status,
        r.text@ == text@,
        read.status == 405,
        read.text@ == "GET /rpc is reserved for Phase 2 server-initiated tool requests"@,
{
}

/// A record is of the session that the request names, and one that names none is
/// answered so.
pub proof fn records_are_of_the_named_session(
    req_id: Json,
    session_id: Option<String>,
    r: Result<String, Json>,
    invalid: Json,
)
    requires
        call_ensures(get_session_id, (&req_id, session_id), r),
        call_ensures(invalid_session_id, (&req_id,), invalid),
    ensures
        r is Ok <==> session_id is Some,
        r is Ok ==> r->Ok_0@ == session_id.unwrap()@,
        r is Err ==> r->Err_0@.get("id"@) == Some(req_id@) && r->Err_0@.get("error"@).unwrap().get(
            "code"@,
        ) == Some(JsonView::Int(-32602)) && r->Err_0@.get("error"@).unwrap().get_text("message"@)
            == Some("Missing Session-Id header"@),
        invalid@.get("id"@) == Some(req_id@),
        invalid@.get("error"@).unwrap().get("code"@) == Some(JsonView::Int(-32602)),
        invalid@.get("error"@).unwrap().get_text("message"@) == Some(
            "Invalid session id (expected 7-char grain-id)"@,
        ),
{
    errors_say_what_went_wrong(req_id@, INVALID_PARAMS as int, "Missing Session-Id header"@);
    errors_say_what_went_wrong(
        req_id@,
        INVALID_PARAMS as int,
        "Invalid session id (expected 7-char grain-id)"@,
    );
}

/// A new session has the identifier that the client has for it, or else a fresh one,
/// and a fresh short identifier.
pub proof fn new_sessions_have_fresh_identifiers(given: Option<String>, r: OpeningSession)
    requires
        call_ensures(OpeningSession::fresh, (given,), r),
    ensures
        r is New,
        r->New_public_id@.len() == 7,
        given is Some ==> r->New_session_id@ == given.unwrap()@,
        given is None ==> is_uuid_v7(r->New_session_id@),
{
}

/// What a client says of its device is noted for its session, in place of what it said
/// before; one that says nothing leaves that as it is. No other session is touched.
pub proof fn devices_are_noted_for_their_session(
    before: ServeState,
    after: ServeState,
    session_id: &str,
    params: Option<Json>,
    info: Option<RoomInfo>,
    other: Seq<char>,
)
    requires
        exists|s: &mut ServeState|
            *s == before && *final(s) == after && #[trigger] call_ensures(
                ServeState::note_device,
                (s, session_id, &params),
                (),
            ),
        call_ensures(device_room_info, (&params,), info),
    ensures
        info is Some ==> {
            let noted = after.session_room_metadata@[session_id@];
            &&& after.session_room_metadata@.contains_key(session_id@)
            &&& noted.name@ == info.unwrap().name@
            &&& noted.kind@ == info.unwrap().kind@
            &&& noted.description.deep_view() == info.unwrap().description.deep_view()
        },
        other != session_id@ || info is None ==> after.session_room_metadata@.contains_key(other)
            == before.session_room_metadata@.contains_key(other),
        (other != session_id@ || info is None) && after.session_room_metadata@.contains_key(other)
            ==> after.session_room_metadata@[other].deep_view()
            == before.session_room_metadata@[other].deep_view(),
        after.session_room_profiles == before.session_room_profiles,
        after.sessions == before.sessions,
        after.pending_sessions == before.pending_sessions,
{
    let noted = after.session_room_metadata.deep_view();
    let had = before.session_room_metadata.deep_view();
    assert(info.deep_view() is Some == info is Some);
    if info is Some {
        assert(info.deep_view() == Some(info.unwrap().deep_view()));
        assert(noted.contains_key(session_id@));
        assert(noted[session_id@] == after.session_room_metadata@[session_id@].deep_view());
    }
    if other != session_id@ || info is None {
        assert(noted.contains_key(other) == had.contains_key(other));
        if after.session_room_metadata@.contains_key(other) {
            assert(noted[other] == had[other]);
        }
    }
}

/// Opening a session notes what its client says of its device, as noting that alone
/// does.
pub proof fn opening_a_session_notes_its_device(
    before: ServeState,
    opened: ServeState,
    noted: ServeState,
    req_id: Json,
    session: OpeningSession,
    room: &str,
    params: Option<Json>,
    r: (String, Json),
    id: &str,
    any: Seq<char>,
)
    requires
        exists|s: &mut ServeState|
            *s == before && *final(s) == opened && #[trigger] call_ensures(
                ServeState::handle_initialize,
                (s, &req_id, session, room, &params),
                r,
            ),
        id@ == session.id(),
        exists|s: &mut ServeState|
            *s == before && *final(s) == noted && #[trigger] call_ensures(
                ServeState::note_device,
                (s, id, &params),
                (),
            ),
    ensures
        opened.session_room_metadata@.contains_key(any)
            == noted.session_room_metadata@.contains_key(any),
        opened.session_room_metadata@.contains_key(any)
            ==> opened.session_room_metadata@[any].deep_view()
            == noted.session_room_metadata@[any].deep_view(),
{
    let a = opened.session_room_metadata.deep_view();
    let b = noted.session_room_metadata.deep_view();
    assert(a == b);
    assert(a.contains_key(any) == opened.session_room_metadata@.contains_key(any));
    assert(b.contains_key(any) == noted.session_room_metadata@.contains_key(any));
    if opened.session_room_metadata@.contains_key(any) {
        assert(a[any] == opened.session_room_metadata@[any].deep_view());
        assert(b[any] == noted.session_room_metadata@[any].deep_view());
    }
}

} // verus!
