//! Who a turn reports to, and who it asks.

use vstd::prelude::*;

use crate::editor::{
    fs_caps_from, terminal_cap_from, ClientCapabilities, SessionUpdate, ToolCallStatus, UpdateView,
};
use crate::json::{lemma_few_fields, no_fields, Fields, Json, JsonView};
use crate::message::ToolCall;
use crate::policy::{Approval, Origin, RoundBudget, SessionMode, ToolKind};
use crate::rpc::{
    error_body, error_event, errors_say_what_went_wrong, field_text, notification_body,
    notification_event, notifications_are_brought_whole, INTERNAL_ERROR,
};
use crate::text;
use crate::turn::HostFacts;

verus! {

/// What a host sends to the other end.
#[derive(Debug, PartialEq)]
pub enum HostMessage {
    /// An event of a stream.
    Rpc(Json),
    /// An update of an editor's session.
    Acp(SessionUpdate),
}

/// The mathematical value of a [`HostMessage`].
pub enum HostMessageView {
    Rpc(JsonView),
    Acp(UpdateView),
}

impl DeepView for HostMessage {
    type V = HostMessageView;

    open spec fn deep_view(&self) -> HostMessageView {
        match self {
            HostMessage::Rpc(json) => HostMessageView::Rpc(json@),
            HostMessage::Acp(update) => HostMessageView::Acp(update@),
        }
    }
}

/// A question to a human whether a call may run. Its options are
/// [`permission_options`].
#[derive(Debug, PartialEq)]
pub struct PermissionRequest {
    pub tool_call_id: String,
    pub title: String,
    pub kind: ToolKind,
    pub raw_input: Json,
}

/// How a host goes about a call that the permission table leaves to a human.
#[derive(Debug, PartialEq)]
pub enum Approving {
    Settled(Approval),
    Ask(PermissionRequest),
}

/// Who a turn reports to, and who it asks. What a report sends is handed back; a
/// host that sends nothing hands back nothing.
pub trait TurnHost {
    /// A call is about to be judged.
    fn tool_start(&self, id: &str, name: &str, input: &Json) -> Option<HostMessage>;

    /// A call has ended, whether it ran or was refused.
    fn tool_end(&self, id: &str, name: &str) -> Option<HostMessage>;

    /// The model failed.
    fn turn_error(&mut self, message: &str) -> Option<HostMessage>;

    /// A piece of the model's prose.
    fn message_chunk(&self, text: &str) -> (r: Option<HostMessage>)
        default_ensures
            r is None,
    {
        None
    }

    /// Which round budget the turn is judged by: the bounded one, unless the host
    /// says otherwise.
    fn round_budget(&self) -> (r: RoundBudget)
        default_ensures
            r == RoundBudget::Unattended,
    {
        RoundBudget::Unattended
    }

    /// Which row of the permission table the turn is judged by.
    fn origin(&self) -> (r: Origin)
        default_ensures
            r == Origin::Trusted,
    {
        Origin::Trusted
    }

    /// Whether there is an editor at the other end.
    fn has_client(&self) -> (r: bool)
        default_ensures
            !r,
    {
        false
    }

    /// Where the session is on the editor's machine.
    fn cwd(&self) -> (r: Option<String>)
        default_ensures
            r is None,
    {
        None
    }

    /// Whether the editor reads files, and whether it writes them.
    fn client_fs_caps(&self) -> (r: (bool, bool))
        default_ensures
            r == (false, false),
    {
        (false, false)
    }

    /// Whether the editor runs terminals.
    fn client_terminal_cap(&self) -> (r: bool)
        default_ensures
            !r,
    {
        false
    }

    /// A call was let through and is about to run.
    fn tool_allowed(&self, id: &str) -> (r: Option<HostMessage>)
        default_ensures
            r is None,
    {
        None
    }

    /// Goes about a call that is left to a human, who may have given a standing
    /// answer for the tool.
    fn approve(&self, call: &ToolCall, kind: ToolKind, standing: Option<bool>) -> (r: Approving)
        default_ensures
            r == Approving::Settled(Approval::AllowOnce),
    {
        Approving::Settled(Approval::AllowOnce)
    }
}

/// What a turn takes from its host at its start.
pub fn host_facts<H: TurnHost>(host: &H) -> (r: HostFacts)
    ensures
        call_ensures(H::has_client, (host,), r.has_client),
        call_ensures(H::client_fs_caps, (host,), (r.client_fs_read, r.client_fs_write)),
        call_ensures(H::client_terminal_cap, (host,), r.client_terminal),
        call_ensures(H::round_budget, (host,), r.round_budget),
{
    let (client_fs_read, client_fs_write) = host.client_fs_caps();
    HostFacts {
        has_client: host.has_client(),
        client_fs_read,
        client_fs_write,
        client_terminal: host.client_terminal_cap(),
        round_budget: host.round_budget(),
    }
}

/// What is told of a call on a stream: which it is, and of which tool.
pub open spec fn tool_event(id: Seq<char>, name: Seq<char>) -> JsonView {
    JsonView::Object(no_fields().push(field_text("id"@, id)).push(field_text("name"@, name)))
}

/// What is told of a call on a stream.
pub fn tool_event_params(id: &str, name: &str) -> (r: Json)
    ensures
        r@ == tool_event(id@, name@),
{
    Fields::new().with_text("id", id).with_text("name", name).object()
}

/// The host of a turn whose caller listens on a stream.
#[derive(Debug, PartialEq)]
pub struct SseProgress {
    pub req_id: Json,
}

impl SseProgress {
    /// The host of a turn that answers this request.
    pub fn new(req_id: Json) -> (r: SseProgress)
        ensures
            r.req_id == req_id,
    {
        SseProgress { req_id }
    }
}

impl TurnHost for SseProgress {
    fn tool_start(&self, id: &str, name: &str, input: &Json) -> (r: Option<HostMessage>)
        ensures
            r.deep_view() == Some(
                HostMessageView::Rpc(notification_body("tool_start"@, tool_event(id@, name@))),
            ),
    {
        Some(HostMessage::Rpc(notification_event("tool_start", tool_event_params(id, name))))
    }

    fn tool_end(&self, id: &str, name: &str) -> (r: Option<HostMessage>)
        ensures
            r.deep_view() == Some(
                HostMessageView::Rpc(notification_body("tool_end"@, tool_event(id@, name@))),
            ),
    {
        Some(HostMessage::Rpc(notification_event("tool_end", tool_event_params(id, name))))
    }

    fn turn_error(&mut self, message: &str) -> (r: Option<HostMessage>)
        ensures
            *final(self) == *old(self),
            r.deep_view() == Some(
                HostMessageView::Rpc(
                    error_body(old(self).req_id@, INTERNAL_ERROR as int, message@),
                ),
            ),
    {
        Some(HostMessage::Rpc(error_event(&self.req_id, INTERNAL_ERROR, message)))
    }
}

/// The host of a turn that nobody watches.
#[derive(Clone, Copy, Debug, PartialEq, Eq, Structural)]
pub struct NullProgress;

impl TurnHost for NullProgress {
    fn tool_start(&self, id: &str, name: &str, input: &Json) -> (r: Option<HostMessage>)
        ensures
            r is None,
    {
        None
    }

    fn tool_end(&self, id: &str, name: &str) -> (r: Option<HostMessage>)
        ensures
            r is None,
    {
        None
    }

    fn turn_error(&mut self, message: &str) -> (r: Option<HostMessage>)
        ensures
            *final(self) == *old(self),
            r is None,
    {
        None
    }
}

/// The host of a turn that the agent runs on its own. Nobody can stop such a turn,
/// so it keeps the bounded round budget.
#[derive(Clone, Copy, Debug, PartialEq, Eq, Structural)]
pub struct AutonomousHost {
    pub origin: Origin,
}

impl TurnHost for AutonomousHost {
    fn tool_start(&self, id: &str, name: &str, input: &Json) -> (r: Option<HostMessage>)
        ensures
            r is None,
    {
        None
    }

    fn tool_end(&self, id: &str, name: &str) -> (r: Option<HostMessage>)
        ensures
            r is None,
    {
        None
    }

    fn turn_error(&mut self, message: &str) -> (r: Option<HostMessage>)
        ensures
            *final(self) == *old(self),
            r is None,
    {
        None
    }

    fn origin(&self) -> (r: Origin)
        ensures
            r == self.origin,
    {
        self.origin
    }
}

/// The host of a turn that an editor prompted. It remembers why the turn failed.
#[derive(Debug, PartialEq)]
pub struct AcpProgress {
    pub session_id: String,
    /// The room under which standing answers are kept.
    pub profile: String,
    /// The session's mode when the turn started; a later change does not reach it.
    pub mode: SessionMode,
    pub client_capabilities: ClientCapabilities,
    pub cwd: String,
    /// What the model's last failure was.
    pub error: Option<String>,
}

impl AcpProgress {
    /// The host of a turn of a session.
    pub fn new(
        session_id: String,
        profile: String,
        mode: SessionMode,
        client_capabilities: ClientCapabilities,
        cwd: String,
    ) -> (r: AcpProgress)
        ensures
            r == (AcpProgress {
                session_id,
                profile,
                mode,
                client_capabilities,
                cwd,
                error: None,
            }),
    {
        AcpProgress { session_id, profile, mode, client_capabilities, cwd, error: None }
    }

    /// Why the turn failed, if it did.
    pub fn failure(&self) -> (r: Option<String>)
        ensures
            r == self.error,
    {
        text::copy_option(&self.error)
    }
}

impl TurnHost for AcpProgress {
    fn tool_start(&self, id: &str, name: &str, input: &Json) -> (r: Option<HostMessage>)
        ensures
            r.deep_view() == Some(
                HostMessageView::Acp(
                    UpdateView::ToolCall {
                        id: id@,
                        title: name@,
                        raw_input: input@,
                        status: ToolCallStatus::Pending,
                    },
                ),
            ),
    {
        Some(
            HostMessage::Acp(
                SessionUpdate::ToolCall {
                    id: id.to_owned(),
                    title: name.to_owned(),
                    raw_input: input.copy(),
                    status: ToolCallStatus::Pending,
                },
            ),
        )
    }

    fn tool_end(&self, id: &str, name: &str) -> (r: Option<HostMessage>)
        ensures
            r.deep_view() == Some(
                HostMessageView::Acp(
                    UpdateView::ToolCallUpdate { id: id@, status: ToolCallStatus::Completed },
                ),
            ),
    {
        Some(
            HostMessage::Acp(
                SessionUpdate::ToolCallUpdate {
                    id: id.to_owned(),
                    status: ToolCallStatus::Completed,
                },
            ),
        )
    }

    fn turn_error(&mut self, message: &str) -> (r: Option<HostMessage>)
        ensures
            r is None,
            final(self).error.deep_view() == Some(message@),
            *final(self) == (AcpProgress { error: final(self).error, ..*old(self) }),
    {
        self.error = Some(message.to_owned());
        None
    }

    fn message_chunk(&self, text: &str) -> (r: Option<HostMessage>)
        ensures
            r.deep_view() == Some(HostMessageView::Acp(UpdateView::AgentMessageChunk(text@))),
    {
        Some(HostMessage::Acp(SessionUpdate::AgentMessageChunk(text.to_owned())))
    }

    fn round_budget(&self) -> (r: RoundBudget)
        ensures
            r == RoundBudget::Interactive,
    {
        RoundBudget::Interactive
    }

    fn origin(&self) -> (r: Origin)
        ensures
            r == Origin::Acp(self.mode),
    {
        Origin::Acp(self.mode)
    }

    fn has_client(&self) -> (r: bool)
        ensures
            r,
    {
        true
    }

    fn cwd(&self) -> (r: Option<String>)
        ensures
            r == Some(self.cwd),
    {
        Some(self.cwd.clone())
    }

    fn client_fs_caps(&self) -> (r: (bool, bool))
        ensures
            r == (
                self.client_capabilities.read_text_file,
                self.client_capabilities.write_text_file,
            ),
    {
        fs_caps_from(&self.client_capabilities)
    }

    fn client_terminal_cap(&self) -> (r: bool)
        ensures
            r == self.client_capabilities.terminal,
    {
        terminal_cap_from(&self.client_capabilities)
    }

    fn tool_allowed(&self, id: &str) -> (r: Option<HostMessage>)
        ensures
            r.deep_view() == Some(
                HostMessageView::Acp(
                    UpdateView::ToolCallUpdate { id: id@, status: ToolCallStatus::InProgress },
                ),
            ),
    {
        Some(
            HostMessage::Acp(
                SessionUpdate::ToolCallUpdate {
                    id: id.to_owned(),
                    status: ToolCallStatus::InProgress,
                },
            ),
        )
    }

    fn approve(&self, call: &ToolCall, kind: ToolKind, standing: Option<bool>) -> (r: Approving)
        ensures
            match standing_approval(standing) {
                Some(approval) => r == Approving::Settled(approval),
                None => {
                    &&& r matches Approving::Ask(request)
                    &&& request.tool_call_id@ == call.id@
                    &&& request.kind == kind
                    &&& request.title@ == call.name@
                    &&& request.raw_input@ == call.input@
                },
            },
    {
        match standing {
            Some(true) => Approving::Settled(Approval::AllowAlways),
            Some(false) => Approving::Settled(Approval::RejectAlways),
            None => Approving::Ask(
                PermissionRequest {
                    tool_call_id: call.id.clone(),
                    title: call.name.clone(),
                    kind,
                    raw_input: call.input.copy(),
                },
            ),
        }
    }
}

/// What a standing answer comes to: a yes or a no that goes on standing.
pub open spec fn standing_approval(standing: Option<bool>) -> Option<Approval> {
    match standing {
        Some(true) => Some(Approval::AllowAlways),
        Some(false) => Some(Approval::RejectAlways),
        None => None,
    }
}

/// An answer that is kept settles later calls of the tool in the same way, without
/// anybody being asked.
pub proof fn kept_answers_settle_later_calls(approval: Approval)
    requires
        approval.sticky(),
    ensures
        standing_approval(Some(approval.allowed())) == Some(approval),
{
}

/// An answer that a human may pick.
#[derive(Debug, PartialEq, Eq)]
pub struct PermissionOption {
    pub id: String,
    pub name: String,
    pub kind: Approval,
}

/// The identifier of an answer.
pub open spec fn option_id(kind: Approval) -> Seq<char> {
    match kind {
        Approval::AllowOnce => "allow_once"@,
        Approval::AllowAlways => "allow_always"@,
        Approval::RejectOnce => "reject_once"@,
        Approval::RejectAlways => "reject_always"@,
    }
}

/// What a human reads of an answer.
pub open spec fn option_name(kind: Approval) -> Seq<char> {
    match kind {
        Approval::AllowOnce => "Allow once"@,
        Approval::AllowAlways => "Always allow this tool"@,
        Approval::RejectOnce => "Reject"@,
        Approval::RejectAlways => "Never allow this tool"@,
    }
}

/// Whether an option stands for this answer.
pub open spec fn offers(option: PermissionOption, kind: Approval) -> bool {
    option.kind == kind && option.id@ == option_id(kind) && option.name@ == option_name(kind)
}

fn permission_option(kind: Approval) -> (r: PermissionOption)
    ensures
        offers(r, kind),
{
    let (id, name) = match kind {
        Approval::AllowOnce => ("allow_once", "Allow once"),
        Approval::AllowAlways => ("allow_always", "Always allow this tool"),
        Approval::RejectOnce => ("reject_once", "Reject"),
        Approval::RejectAlways => ("reject_always", "Never allow this tool"),
    };
    PermissionOption { id: id.to_owned(), name: name.to_owned(), kind }
}

/// The answers that a human may pick from.
pub fn permission_options() -> (r: Vec<PermissionOption>)
    ensures
        r.len() == 4,
        offers(r@[0], Approval::AllowOnce),
        offers(r@[1], Approval::AllowAlways),
        offers(r@[2], Approval::RejectOnce),
        offers(r@[3], Approval::RejectAlways),
{
    let mut r: Vec<PermissionOption> = Vec::new();
    r.push(permission_option(Approval::AllowOnce));
    r.push(permission_option(Approval::AllowAlways));
    r.push(permission_option(Approval::RejectOnce));
    r.push(permission_option(Approval::RejectAlways));
    r
}

/// What came back of the question.
#[derive(Debug, PartialEq, Eq)]
pub enum PermissionAnswer {
    /// It could not be put, or was not answered.
    Failed,
    /// The turn is being cancelled.
    Cancelled,
    /// The option with this identifier was picked.
    Selected(String),
    /// Something that is not known here.
    Unknown,
}

/// What an answer comes to: what was picked, and in every other case a no. Nobody
/// said yes, so nothing runs.
pub open spec fn approval_of(answer: PermissionAnswer) -> Approval {
    match answer {
        PermissionAnswer::Selected(id) => if id@ == option_id(Approval::AllowOnce) {
            Approval::AllowOnce
        } else if id@ == option_id(Approval::AllowAlways) {
            Approval::AllowAlways
        } else if id@ == option_id(Approval::RejectAlways) {
            Approval::RejectAlways
        } else {
            Approval::RejectOnce
        },
        _ => Approval::RejectOnce,
    }
}

/// What an answer comes to, and whether it is to be kept as a standing one.
pub fn permission_answered(answer: &PermissionAnswer) -> (r: (Approval, bool))
    ensures
        r.0 == approval_of(*answer),
        r.1 == r.0.sticky(),
{
    let approval = match answer {
        PermissionAnswer::Selected(id) => {
            let id = id.as_str();
            if text::same(id, "allow_once") {
                Approval::AllowOnce
            } else if text::same(id, "allow_always") {
                Approval::AllowAlways
            } else if text::same(id, "reject_always") {
                Approval::RejectAlways
            } else {
                Approval::RejectOnce
            }
        },
        _ => Approval::RejectOnce,
    };
    (approval, approval.is_sticky())
}

/// Picking an option comes to the answer that it offers.
pub proof fn picked_options_mean_what_they_offer(option: PermissionOption, kind: Approval)
    requires
        offers(option, kind),
    ensures
        approval_of(PermissionAnswer::Selected(option.id)) == kind,
{
    reveal_strlit("allow_once");
    reveal_strlit("allow_always");
    reveal_strlit("reject_once");
    reveal_strlit("reject_always");
    assert("allow_once"@.len() == 10);
    assert("allow_always"@.len() == 12);
    assert("reject_once"@.len() == 11);
    assert("reject_always"@.len() == 13);
}

/// A call that is asked about runs only where a human picked an option that allows
/// it.
pub proof fn silence_is_a_no(answer: PermissionAnswer)
    requires
        approval_of(answer).allowed(),
    ensures
        answer matches PermissionAnswer::Selected(id) && (id@ == option_id(Approval::AllowOnce)
            || id@ == option_id(Approval::AllowAlways)),
{
}

proof fn lemma_event_keys(id: Seq<char>, name: Seq<char>)
    ensures
        tool_event(id, name).get_text("id"@) == Some(id),
        tool_event(id, name).get_text("name"@) == Some(name),
{
    reveal_strlit("id");
    reveal_strlit("name");
    assert("id"@.len() == 2 && "name"@.len() == 4);
    let a = ("id"@, JsonView::Text(id));
    let b = ("name"@, JsonView::Text(name));
    lemma_few_fields(a, b, a, b, "id"@);
    lemma_few_fields(a, b, a, b, "name"@);
}

/// Who listens on a stream is told of each call that starts and ends, by its identifier
/// and the name of its tool, and when the model fails is answered with every character
/// of why.
pub proof fn streams_are_told_of_calls_and_failures(
    host: SseProgress,
    after: SseProgress,
    id: &str,
    name: &str,
    input: Json,
    start: Option<HostMessage>,
    end: Option<HostMessage>,
    message: &str,
    error: Option<HostMessage>,
)
    requires
        call_ensures(<SseProgress as TurnHost>::tool_start, (&host, id, name, &input), start),
        call_ensures(<SseProgress as TurnHost>::tool_end, (&host, id, name), end),
        exists|h: &mut SseProgress|
            *h == host && *final(h) == after && #[trigger] call_ensures(
                <SseProgress as TurnHost>::turn_error,
                (h, message),
                error,
            ),
    ensures
        start is Some && start.unwrap() is Rpc,
        end is Some && end.unwrap() is Rpc,
        error is Some && error.unwrap() is Rpc,
        ({
            let event = start.unwrap()->Rpc_0@;
            &&& event.get_text("method"@) == Some("tool_start"@)
            &&& event.get("id"@) is None
            &&& event.get("params"@).unwrap().get_text("id"@) == Some(id@)
            &&& event.get("params"@).unwrap().get_text("name"@) == Some(name@)
        }),
        ({
            let event = end.unwrap()->Rpc_0@;
            &&& event.get_text("method"@) == Some("tool_end"@)
            &&& event.get("id"@) is None
            &&& event.get("params"@).unwrap().get_text("id"@) == Some(id@)
            &&& event.get("params"@).unwrap().get_text("name"@) == Some(name@)
        }),
        ({
            let event = error.unwrap()->Rpc_0@;
            &&& event.get("id"@) == Some(host.req_id@)
            &&& event.get("error"@).unwrap().get("code"@) == Some(JsonView::Int(-32603))
            &&& event.get("error"@).unwrap().get_text("message"@) == Some(message@)
        }),
        after == host,
{
    assert(start.deep_view() is Some && end.deep_view() is Some && error.deep_view() is Some);
    assert(start.deep_view() == Some(start.unwrap().deep_view()));
    assert(end.deep_view() == Some(end.unwrap().deep_view()));
    assert(error.deep_view() == Some(error.unwrap().deep_view()));
    lemma_event_keys(id@, name@);
    notifications_are_brought_whole("tool_start"@, tool_event(id@, name@));
    notifications_are_brought_whole("tool_end"@, tool_event(id@, name@));
    errors_say_what_went_wrong(host.req_id@, INTERNAL_ERROR as int, message@);
}

/// Nobody is told anything by a host that nobody watches, nor by one of a turn that the
/// agent runs on its own, which is judged by its own origin.
pub proof fn unwatched_hosts_tell_nobody(
    null: NullProgress,
    own: AutonomousHost,
    id: &str,
    name: &str,
    input: Json,
    message: &str,
    a: Option<HostMessage>,
    b: Option<HostMessage>,
    c: Option<HostMessage>,
    d: Option<HostMessage>,
    origin: Origin,
)
    requires
        call_ensures(<NullProgress as TurnHost>::tool_start, (&null, id, name, &input), a),
        call_ensures(<NullProgress as TurnHost>::tool_end, (&null, id, name), b),
        call_ensures(<AutonomousHost as TurnHost>::tool_start, (&own, id, name, &input), c),
        call_ensures(<AutonomousHost as TurnHost>::tool_end, (&own, id, name), d),
        call_ensures(<AutonomousHost as TurnHost>::origin, (&own,), origin),
    ensures
        a is None && b is None && c is None && d is None,
        origin == own.origin,
{
}

/// An editor is told of each call that it starts, with all of its input and as pending;
/// that it is let through, as in progress; and that it ends, as completed. It is handed
/// every character of the model's prose.
pub proof fn editors_are_told_of_calls_and_prose(
    host: AcpProgress,
    id: &str,
    name: &str,
    input: Json,
    text: &str,
    start: Option<HostMessage>,
    allowed: Option<HostMessage>,
    end: Option<HostMessage>,
    chunk: Option<HostMessage>,
)
    requires
        call_ensures(<AcpProgress as TurnHost>::tool_start, (&host, id, name, &input), start),
        call_ensures(<AcpProgress as TurnHost>::tool_allowed, (&host, id), allowed),
        call_ensures(<AcpProgress as TurnHost>::tool_end, (&host, id, name), end),
        call_ensures(<AcpProgress as TurnHost>::message_chunk, (&host, text), chunk),
    ensures
        start is Some && start.unwrap() is Acp,
        allowed is Some && allowed.unwrap() is Acp,
        end is Some && end.unwrap() is Acp,
        chunk is Some && chunk.unwrap() is Acp,
        ({
            let update = start.unwrap()->Acp_0;
            &&& update is ToolCall
            &&& update->ToolCall_id@ == id@
            &&& update->title@ == name@
            &&& update->raw_input@ == input@
            &&& update->ToolCall_status is Pending
        }),
        ({
            let update = allowed.unwrap()->Acp_0;
            &&& update is ToolCallUpdate
            &&& update->ToolCallUpdate_id@ == id@
            &&& update->ToolCallUpdate_status is InProgress
        }),
        ({
            let update = end.unwrap()->Acp_0;
            &&& update is ToolCallUpdate
            &&& update->ToolCallUpdate_id@ == id@
            &&& update->ToolCallUpdate_status is Completed
        }),
        chunk.unwrap()->Acp_0 is AgentMessageChunk,
        chunk.unwrap()->Acp_0->AgentMessageChunk_0@ == text@,
{
    assert(start.deep_view() is Some && allowed.deep_view() is Some);
    assert(end.deep_view() is Some && chunk.deep_view() is Some);
    assert(start.deep_view() == Some(start.unwrap().deep_view()));
    assert(allowed.deep_view() == Some(allowed.unwrap().deep_view()));
    assert(end.deep_view() == Some(end.unwrap().deep_view()));
    assert(chunk.deep_view() == Some(chunk.unwrap().deep_view()));
}

/// A turn that an editor prompted has what the editor has: its capabilities, its
/// directory, its mode, and the budget of a turn that can be stopped. When the model
/// fails, the turn remembers every character of why, and nothing is sent.
pub proof fn editors_turns_have_what_the_editor_has(
    session_id: String,
    profile: String,
    mode: SessionMode,
    caps: ClientCapabilities,
    cwd: String,
    host: AcpProgress,
    has_client: bool,
    fs: (bool, bool),
    terminal: bool,
    budget: RoundBudget,
    origin: Origin,
    at: Option<String>,
    message: &str,
    after: AcpProgress,
    sent: Option<HostMessage>,
    failure: Option<String>,
)
    requires
        call_ensures(AcpProgress::new, (session_id, profile, mode, caps, cwd), host),
        call_ensures(<AcpProgress as TurnHost>::has_client, (&host,), has_client),
        call_ensures(<AcpProgress as TurnHost>::client_fs_caps, (&host,), fs),
        call_ensures(<AcpProgress as TurnHost>::client_terminal_cap, (&host,), terminal),
        call_ensures(<AcpProgress as TurnHost>::round_budget, (&host,), budget),
        call_ensures(<AcpProgress as TurnHost>::origin, (&host,), origin),
        call_ensures(<AcpProgress as TurnHost>::cwd, (&host,), at),
        exists|h: &mut AcpProgress|
            *h == host && *final(h) == after && #[trigger] call_ensures(
                <AcpProgress as TurnHost>::turn_error,
                (h, message),
                sent,
            ),
        call_ensures(AcpProgress::failure, (&after,), failure),
    ensures
        host.error is None,
        host.session_id == session_id,
        host.profile == profile,
        has_client,
        fs.0 == caps.read_text_file,
        fs.1 == caps.write_text_file,
        terminal == caps.terminal,
        budget == RoundBudget::Interactive,
        origin == Origin::Acp(mode),
        at is Some && at.unwrap()@ == cwd@,
        sent is None,
        failure is Some && failure.unwrap()@ == message@,
        after.session_id == session_id && after.profile == profile && after.cwd == cwd,
{
    assert(after.error.deep_view() is Some);
    assert(after.error.deep_view() == Some(after.error.unwrap()@));
}

/// Where a standing answer is kept, nobody is asked and it stands. Otherwise a human is
/// asked about this call: by its identifier and name, with all of its input.
pub proof fn humans_are_asked_about_the_call(
    host: AcpProgress,
    call: ToolCall,
    kind: ToolKind,
    standing: Option<bool>,
    r: Approving,
)
    requires
        call_ensures(<AcpProgress as TurnHost>::approve, (&host, &call, kind, standing), r),
    ensures
        standing == Some(true) <==> r == Approving::Settled(Approval::AllowAlways),
        standing == Some(false) <==> r == Approving::Settled(Approval::RejectAlways),
        standing is None <==> r is Ask,
        r is Ask ==> {
            &&& r->Ask_0.tool_call_id@ == call.id@
            &&& r->Ask_0.title@ == call.name@
            &&& r->Ask_0.kind == kind
            &&& r->Ask_0.raw_input@ == call.input@
        },
{
}

/// A human may pick a yes or a no, for once or for good. Only the words of a yes come
/// to one: silence, and whatever else comes back, is a no for once. What is for good is
/// kept.
pub proof fn only_a_yes_is_a_yes(
    options: Vec<PermissionOption>,
    answer: PermissionAnswer,
    r: (Approval, bool),
)
    requires
        call_ensures(permission_options, (), options),
        call_ensures(permission_answered, (&answer,), r),
    ensures
        options.len() == 4,
        options@[0].id@ == "allow_once"@ && options@[0].kind == Approval::AllowOnce,
        options@[1].id@ == "allow_always"@ && options@[1].kind == Approval::AllowAlways,
        options@[2].id@ == "reject_once"@ && options@[2].kind == Approval::RejectOnce,
        options@[3].id@ == "reject_always"@ && options@[3].kind == Approval::RejectAlways,
        options@[0].name@ == "Allow once"@ && options@[1].name@ == "Always allow this tool"@,
        options@[2].name@ == "Reject"@ && options@[3].name@ == "Never allow this tool"@,
        r.0 == Approval::AllowOnce <==> answer is Selected && answer->Selected_0@
            == "allow_once"@,
        r.0 == Approval::AllowAlways <==> answer is Selected && answer->Selected_0@
            == "allow_always"@,
        r.0 == Approval::RejectAlways <==> answer is Selected && answer->Selected_0@
            == "reject_always"@,
        r.1 <==> answer is Selected && (answer->Selected_0@ == "allow_always"@
            || answer->Selected_0@ == "reject_always"@),
{
    reveal_strlit("allow_once");
    reveal_strlit("allow_always");
    reveal_strlit("reject_once");
    reveal_strlit("reject_always");
    assert("allow_once"@.len() == 10);
    assert("allow_always"@.len() == 12);
    assert("reject_once"@.len() == 11);
    assert("reject_always"@.len() == 13);
}

/// A turn takes from its host what the host says.
pub proof fn turns_take_what_the_host_says(host: AcpProgress, facts: HostFacts)
    requires
        call_ensures(host_facts::<AcpProgress>, (&host,), facts),
    ensures
        facts.has_client,
        facts.client_fs_read == host.client_capabilities.read_text_file,
        facts.client_fs_write == host.client_capabilities.write_text_file,
        facts.client_terminal == host.client_capabilities.terminal,
        facts.round_budget == RoundBudget::Interactive,
{
}

/// A turn without an editor at its other end has none of what an editor has, keeps the
/// bounded budget, and runs what is left to a human: there is nobody to ask.
pub proof fn turns_without_an_editor_ask_nobody(
    stream: SseProgress,
    null: NullProgress,
    own: AutonomousHost,
    a: HostFacts,
    b: HostFacts,
    c: HostFacts,
    call: ToolCall,
    kind: ToolKind,
    standing: Option<bool>,
    x: Approving,
    y: Approving,
    z: Approving,
    stream_origin: Origin,
    null_origin: Origin,
)
    requires
        call_ensures(host_facts::<SseProgress>, (&stream,), a),
        call_ensures(host_facts::<NullProgress>, (&null,), b),
        call_ensures(host_facts::<AutonomousHost>, (&own,), c),
        call_ensures(<SseProgress as TurnHost>::approve, (&stream, &call, kind, standing), x),
        call_ensures(<NullProgress as TurnHost>::approve, (&null, &call, kind, standing), y),
        call_ensures(<AutonomousHost as TurnHost>::approve, (&own, &call, kind, standing), z),
        call_ensures(<SseProgress as TurnHost>::origin, (&stream,), stream_origin),
        call_ensures(<NullProgress as TurnHost>::origin, (&null,), null_origin),
    ensures
        !a.has_client && !a.client_fs_read && !a.client_fs_write && !a.client_terminal,
        !b.has_client && !b.client_fs_read && !b.client_fs_write && !b.client_terminal,
        !c.has_client && !c.client_fs_read && !c.client_fs_write && !c.client_terminal,
        a.round_budget == RoundBudget::Unattended,
        b.round_budget == RoundBudget::Unattended,
        c.round_budget == RoundBudget::Unattended,
        x == Approving::Settled(Approval::AllowOnce),
        y == Approving::Settled(Approval::AllowOnce),
        z == Approving::Settled(Approval::AllowOnce),
        stream_origin == Origin::Trusted,
        null_origin == Origin::Trusted,
{
}

/// What is told of a call on a stream is its identifier and the name of its tool, and a
/// host answers the request that it was made for.
pub proof fn calls_are_told_by_identifier_and_name(
    id: &str,
    name: &str,
    r: Json,
    req_id: Json,
    host: SseProgress,
)
    requires
        call_ensures(tool_event_params, (id, name), r),
        call_ensures(SseProgress::new, (req_id,), host),
    ensures
        r@.get_text("id"@) == Some(id@),
        r@.get_text("name"@) == Some(name@),
        host.req_id == req_id,
{
    lemma_event_keys(id@, name@);
}

/// Nobody is told of a failure by a host that nobody watches, nor by one of a turn that
/// the agent runs on its own.
pub proof fn unwatched_failures_are_not_told(
    null: NullProgress,
    null_after: NullProgress,
    own: AutonomousHost,
    own_after: AutonomousHost,
    message: &str,
    a: Option<HostMessage>,
    b: Option<HostMessage>,
)
    requires
        exists|h: &mut NullProgress|
            *h == null && *final(h) == null_after && #[trigger] call_ensures(
                <NullProgress as TurnHost>::turn_error,
                (h, message),
                a,
            ),
        exists|h: &mut AutonomousHost|
            *h == own && *final(h) == own_after && #[trigger] call_ensures(
                <AutonomousHost as TurnHost>::turn_error,
                (h, message),
                b,
            ),
    ensures
        a is None && b is None,
        own_after == own,
{
}

} // verus!
