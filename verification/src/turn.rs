//! A turn of a session: what is read before the model is called, and what is kept
//! after it.

use vstd::prelude::*;

use crate::count::{count_of, lemma_filter_place};
use crate::message::{copy_messages, ChatMessage};
use crate::persistence::{Append, RecordView, StoreKind, TurnPersistence};
use crate::policy::{
    is_skill_tool, skill_tool, tool_visible, visible_tool_predicate, RoundBudget, ToolRounds,
};
use crate::rpc::{pending_after_opening, OpeningSession};
use crate::state::{
    same_but_sessions, store_of, ProviderChoice, RoomInfo, ServeState,
    ServerConfig,
};
use crate::text;
use crate::turn_loop::{TurnLoop, TurnRules, TurnScope, TurnStop};

verus! {

/// Which store a turn's session is in, and what the turn may claim.
#[derive(Debug, PartialEq, Eq)]
pub struct TurnRoute {
    /// The store that keeps the session where it is not an editor's.
    pub store: StoreKind,
    pub is_acp: bool,
    /// The room that an operator may have granted the admin tools; an editor's
    /// session alone has one.
    pub admin_room_profile: Option<String>,
}

impl TurnRoute {
    /// The store that the session is read from.
    pub fn target(&self) -> (r: StoreKind)
        ensures
            r == if self.is_acp {
                StoreKind::Acp
            } else {
                self.store
            },
    {
        if self.is_acp {
            StoreKind::Acp
        } else {
            self.store
        }
    }
}

/// A session's file that has to be there before the turn writes to it.
#[derive(Debug, PartialEq, Eq)]
pub struct EnsureSession {
    pub session_id: String,
    /// The short identifier that was reserved for it.
    pub public_id: Option<String>,
    pub namespace: String,
}

/// The system prompt of a turn, from what was put together for it; one that is empty
/// is none.
pub fn system_prompt_of(built: String) -> (r: Option<String>)
    ensures
        r == if built@.len() == 0 {
            None
        } else {
            Some(built)
        },
{
    if built.as_str().is_empty() {
        None
    } else {
        Some(built)
    }
}

/// What the end of a turn tells its caller.
#[derive(Debug, PartialEq)]
pub struct LlmTurnOutcome {
    /// The whole prose, where the model replied.
    pub text: Option<String>,
    /// Whether the session held nothing before.
    pub was_first_turn: bool,
    pub stop: TurnStop,
}

/// What the other end of a turn can do.
#[derive(Clone, Copy, Debug, PartialEq, Eq, Structural)]
pub struct HostFacts {
    pub has_client: bool,
    pub client_fs_read: bool,
    pub client_fs_write: bool,
    pub client_terminal: bool,
    pub round_budget: RoundBudget,
}

/// Whether a turn's model is shown a tool: it has to be visible, and one that works
/// on skills needs a namespace in which they are on.
pub open spec fn tool_offered(
    host_access: bool,
    host: HostFacts,
    skills: bool,
    name: Seq<char>,
) -> bool {
    &&& tool_visible(
        host_access,
        host.has_client,
        host.client_fs_read,
        host.client_fs_write,
        host.client_terminal,
        name,
    )
    &&& is_skill_tool(name) ==> skills
}

/// The tools that a turn's model is shown, of those that are registered.
pub fn offered_tools(
    registered: &Vec<String>,
    host_access_enabled: bool,
    host: HostFacts,
    skills_enabled: bool,
) -> (r: Vec<String>)
    ensures
        r@ == registered@.filter(
            |name: String| tool_offered(host_access_enabled, host, skills_enabled, name@),
        ),
{
    let base = visible_tool_predicate(
        host_access_enabled,
        host.has_client,
        host.client_fs_read,
        host.client_fs_write,
        host.client_terminal,
    );
    let ghost shown = |name: String|
        tool_offered(host_access_enabled, host, skills_enabled, name@);
    let mut r: Vec<String> = Vec::new();
    let mut i: usize = 0;
    assert(registered@.take(0).filter(shown) =~= Seq::empty()) by {
        reveal(Seq::filter);
    }
    while i < registered.len()
        invariant
            i <= registered.len(),
            shown == (|name: String|
                tool_offered(host_access_enabled, host, skills_enabled, name@)),
            forall|name: &str| call_requires(base, (name,)),
            forall|name: &str, b: bool|
                call_ensures(base, (name,), b) ==> b == tool_visible(
                    host_access_enabled,
                    host.has_client,
                    host.client_fs_read,
                    host.client_fs_write,
                    host.client_terminal,
                    name@,
                ),
            r@ == registered@.take(i as int).filter(shown),
        decreases registered.len() - i,
    {
        let name = registered[i].as_str();
        proof {
            let part = registered@.take(i + 1);
            assert(part.drop_last() =~= registered@.take(i as int));
            assert(part.last() == registered@[i as int]);
            reveal(Seq::filter);
        }
        if base(name) && (skills_enabled || !skill_tool(name)) {
            r.push(registered[i].clone());
        }
        i += 1;
    }
    assert(registered@.take(i as int) =~= registered@);
    r
}

/// A turn that is about to call the model for the first time.
#[derive(Debug, PartialEq)]
pub struct OpenedTurn {
    pub persistence: TurnPersistence,
    pub was_first_turn: bool,
    pub namespace: String,
    pub provider: ProviderChoice,
    /// The file that has to be there, and be it first.
    pub ensure: Option<EnsureSession>,
    /// What the model is told of the room.
    pub room_info: Option<RoomInfo>,
    /// The write of the user's message.
    pub append: Append,
    pub admin_room_profile: Option<String>,
    /// The conversation, with the user's message.
    pub history: Vec<ChatMessage>,
}

/// A copy of what the model is told of a room.
fn copy_room_info(info: &RoomInfo) -> (r: RoomInfo)
    ensures
        r == *info,
{
    RoomInfo {
        name: info.name.clone(),
        description: text::copy_option(&info.description),
        kind: info.kind.clone(),
    }
}

/// The short identifier that is reserved for a session.
pub open spec fn reserved_id(pending: Map<Seq<char>, Seq<char>>, session_id: Seq<char>) -> Option<
    Seq<char>,
> {
    if pending.contains_key(session_id) {
        Some(pending[session_id])
    } else {
        None
    }
}

/// The short identifiers that are reserved after a turn was opened: its session's is
/// used up where its file has to be there.
pub open spec fn pending_after_turn(
    pending: Map<Seq<char>, Seq<char>>,
    session_id: Seq<char>,
    route: TurnRoute,
) -> Map<Seq<char>, Seq<char>> {
    if ServeState::needs_file(route) {
        pending.remove(session_id)
    } else {
        pending
    }
}

impl ServeState {
    /// Whether a session's file may still have to be made when a turn of it starts:
    /// only that of a session which is shared between devices.
    pub open spec fn needs_file(route: TurnRoute) -> bool {
        !route.is_acp && route.store == StoreKind::CrossDevice
    }

    /// The room that an operator may have granted a session's turns the admin tools
    /// of: that of an editor's session, and none of any other.
    pub open spec fn grant_of(self, session_id: Seq<char>) -> Option<Seq<char>> {
        if self.acp_sessions@.contains_key(session_id) {
            self.room_of(session_id)
        } else {
            None
        }
    }

    /// Which store a turn's session is in, from the stores in which a file of it is
    /// found.
    pub fn turn_route(
        &self,
        session_id: &str,
        in_autonomous: bool,
        in_device_default: bool,
    ) -> (r: TurnRoute)
        requires
            self.wf(),
        ensures
            r.store == store_of(in_autonomous, in_device_default),
            r.is_acp == self.acp_sessions@.contains_key(session_id@),
            r.admin_room_profile.deep_view() == self.grant_of(session_id@),
    {
        let store = ServeState::store_for_session(in_autonomous, in_device_default);
        let is_acp = self.is_acp(session_id);
        let admin_room_profile = if is_acp {
            self.room_profile(session_id)
        } else {
            None
        };
        TurnRoute { store, is_acp, admin_room_profile }
    }

    /// Opens a turn on what the store holds of the session, whatever was in memory,
    /// so that nothing that an earlier turn wrote and did not live to keep is lost.
    pub fn open_turn(
        &mut self,
        config: &ServerConfig,
        session_id: &str,
        route: TurnRoute,
        loaded: Option<Vec<ChatMessage>>,
        user_msg: ChatMessage,
    ) -> (r: OpenedTurn)
        requires
            old(self).wf(),
            config.wf(),
        ensures
            final(self).wf(),
            ({
                let before = match loaded {
                    Some(h) => h.deep_view(),
                    None => Seq::empty(),
                };
                &&& r.was_first_turn == (before.len() == 0)
                &&& r.history.deep_view() == before.push(user_msg@)
                &&& final(self).sessions.deep_view() == old(self).sessions.deep_view().insert(
                    session_id@,
                    before,
                )
            }),
            r.persistence.session_id@ == session_id@,
            r.persistence.store == route.store,
            r.persistence.is_acp == route.is_acp,
            r.append@ == r.persistence.write(RecordView::Message(user_msg@)),
            r.admin_room_profile == route.admin_room_profile,
            r.namespace@ == old(self).namespace_of(*config, session_id@),
            match r.provider {
                ProviderChoice::Profile(p) => old(self).provider_of(*config, session_id@) == Some(
                    p@,
                ),
                ProviderChoice::Background => old(self).provider_of(*config, session_id@) is None,
            },
            match r.room_info {
                Some(info) => old(self).session_room_metadata@.contains_key(session_id@) && info
                    == old(self).session_room_metadata@[session_id@],
                None => !old(self).session_room_metadata@.contains_key(session_id@),
            },
            match r.ensure {
                Some(e) => {
                    &&& ServeState::needs_file(route)
                    &&& e.session_id@ == session_id@
                    &&& e.namespace@ == r.namespace@
                    &&& e.public_id.deep_view() == reserved_id(
                        old(self).pending_sessions.deep_view(),
                        session_id@,
                    )
                },
                None => !ServeState::needs_file(route),
            },
            final(self).pending_sessions.deep_view() == pending_after_turn(
                old(self).pending_sessions.deep_view(),
                session_id@,
                route,
            ),
            *final(self) == (ServeState {
                sessions: final(self).sessions,
                pending_sessions: final(self).pending_sessions,
                ..*old(self)
            }),
    {
        let ghost kept = self.sessions.deep_view();
        let mut history: Vec<ChatMessage> = match loaded {
            Some(h) => h,
            None => Vec::new(),
        };
        let ghost before = history.deep_view();
        assert(loaded is None ==> before =~= Seq::empty());
        let was_first_turn = history.len() == 0;
        let resident = copy_messages(&history);
        self.sessions.insert(session_id.to_owned(), resident);
        assert(self.sessions.deep_view() =~= kept.insert(session_id@, before));
        let provider = self.provider_for_session(config, session_id);
        let namespace = self.namespace_for_session(config, session_id);
        let needs_file = !route.is_acp && match route.store {
            StoreKind::CrossDevice => true,
            _ => false,
        };
        let ensure = if needs_file {
            let ghost pending = self.pending_sessions.deep_view();
            let public_id = self.pending_sessions.remove(session_id);
            assert(self.pending_sessions.deep_view() =~= pending.remove(session_id@));
            Some(
                EnsureSession {
                    session_id: session_id.to_owned(),
                    public_id,
                    namespace: namespace.clone(),
                },
            )
        } else {
            None
        };
        let room_info = match self.session_room_metadata.get(session_id) {
            Some(info) => Some(copy_room_info(info)),
            None => None,
        };
        let persistence = TurnPersistence {
            store: route.store,
            session_id: session_id.to_owned(),
            is_acp: route.is_acp,
        };
        let append = persistence.append_message(&user_msg);
        history.push(user_msg);
        assert(history.deep_view() =~= before.push(user_msg@));
        OpenedTurn {
            persistence,
            was_first_turn,
            namespace,
            provider,
            ensure,
            room_info,
            append,
            admin_room_profile: route.admin_room_profile,
            history,
        }
    }

    /// Keeps the conversation after a turn and tells how it ended.
    pub fn finish_turn(
        &mut self,
        session_id: &str,
        history: Vec<ChatMessage>,
        text: Option<String>,
        was_first_turn: bool,
        stop: TurnStop,
    ) -> (r: LlmTurnOutcome)
        requires
            old(self).wf(),
        ensures
            final(self).wf(),
            same_but_sessions(*final(self), *old(self)),
            final(self).sessions@ == old(self).sessions@.insert(session_id@, history),
            r == (LlmTurnOutcome { text, was_first_turn, stop }),
    {
        self.put_session(session_id, history);
        LlmTurnOutcome { text, was_first_turn, stop }
    }
}

impl OpenedTurn {
    /// Starts the loop of the turn with the tools that it may see.
    pub fn start(
        self,
        config: &ServerConfig,
        host: HostFacts,
        registered: &Vec<String>,
        timer_device: Option<String>,
    ) -> (r: TurnLoop)
        requires
            config.wf(),
        ensures
            r.wf(),
            r.round == 0,
            r.accumulated@.len() == 0,
            r.history == self.history,
            r.persistence == Some(self.persistence),
            r.scope.namespace == self.namespace,
            r.scope.timer_device == timer_device,
            r.scope.subagent_depth == 0,
            r.scope.admin_room_profile == self.admin_room_profile,
            r.rules.host_access_enabled == config.host_access_enabled,
            r.rules.routed_to_client == host.has_client,
            r.rules.round_limit == if config.tool_rounds.configured(host.round_budget) == 0 {
                None
            } else {
                Some(config.tool_rounds.configured(host.round_budget))
            },
            r.rules.offered@ == registered@.filter(
                |name: String|
                    tool_offered(
                        config.host_access_enabled,
                        host,
                        config.skills_in(self.namespace@),
                        name@,
                    ),
            ),
    {
        let skills = config.skills_enabled(self.namespace.as_str());
        let offered = offered_tools(registered, config.host_access_enabled, host, skills);
        let rules = TurnRules {
            offered,
            host_access_enabled: config.host_access_enabled,
            routed_to_client: host.has_client,
            round_limit: config.tool_rounds.limit(host.round_budget),
        };
        let scope = TurnScope {
            namespace: self.namespace,
            timer_device,
            subagent_depth: 0,
            admin_room_profile: self.admin_room_profile,
        };
        TurnLoop::new(rules, scope, Some(self.persistence), self.history)
    }
}

/// A turn never carries the grant of a room unless an editor opened its session.
pub proof fn only_editors_carry_a_grant(state: ServeState, session_id: Seq<char>)
    requires
        state.grant_of(session_id) is Some,
    ensures
        state.acp_sessions@.contains_key(session_id),
        state.grant_of(session_id) == state.room_of(session_id),
{
}

/// The short identifier that was reserved for a new session goes to its file with
/// the first turn that makes one, and to no later one. Turns that make no file, and
/// those of other sessions, leave it reserved.
pub proof fn reserved_ids_are_used_once(
    pending: Map<Seq<char>, Seq<char>>,
    session: OpeningSession,
    first: TurnRoute,
    other: Seq<char>,
    later: TurnRoute,
)
    requires
        session is New,
    ensures
        ({
            let id = session.id();
            let opened = pending_after_opening(pending, session);
            let used = pending_after_turn(opened, id, first);
            &&& reserved_id(opened, id) == session.short_id()
            &&& if ServeState::needs_file(first) {
                &&& reserved_id(used, id) is None
                &&& reserved_id(pending_after_turn(used, other, later), id) is None
            } else {
                reserved_id(used, id) == session.short_id()
            }
            &&& other != id ==> reserved_id(pending_after_turn(opened, other, later), id)
                == session.short_id()
        }),
{
}

/// What a turn is offered is never refused up front.
pub proof fn offered_tools_reach_the_table(
    registered: Seq<String>,
    rules: TurnRules,
    host: HostFacts,
    skills: bool,
    i: int,
)
    requires
        rules.routed_to_client == host.has_client,
        rules.offered@ == registered.filter(
            |name: String| tool_offered(rules.host_access_enabled, host, skills, name@),
        ),
        0 <= i < rules.offered@.len(),
    ensures
        crate::turn_loop::refusal_up_front(rules, rules.offered@[i]@) is None,
{
    let shown = |name: String| tool_offered(rules.host_access_enabled, host, skills, name@);
    registered.lemma_filter_pred(shown, i);
    assert(rules.offered.deep_view()[i] == rules.offered@[i]@);
    crate::turn_loop::offered_calls_reach_the_table(
        rules,
        host.client_fs_read,
        host.client_fs_write,
        host.client_terminal,
        rules.offered@[i]@,
    );
}

/// A prompt that is empty is none, and any other is taken whole.
pub proof fn empty_prompts_are_none(built: String, r: Option<String>)
    requires
        call_ensures(system_prompt_of, (built,), r),
    ensures
        r is None <==> built@.len() == 0,
        r is Some ==> r.unwrap()@ == built@,
{
}

/// Of the registered tools a model is shown exactly those that are visible and, where
/// they work on skills, those of a namespace in which skills are on; in the order in
/// which they are registered.
pub proof fn models_are_shown_every_tool_they_may_use(
    registered: Vec<String>,
    host_access: bool,
    host: HostFacts,
    skills: bool,
    r: Vec<String>,
    i: int,
)
    requires
        call_ensures(offered_tools, (&registered, host_access, host, skills), r),
    ensures
        ({
            let shown = |name: String|
                tool_visible(
                    host_access,
                    host.has_client,
                    host.client_fs_read,
                    host.client_fs_write,
                    host.client_terminal,
                    name@,
                ) && (skills || !(name@ == "skill"@ || name@ == "skill_install"@ || name@
                    == "skill_update"@ || name@ == "skill_uninstall"@));
            let k = count_of(registered@.take(i), shown) as int;
            &&& r.len() == count_of(registered@, shown)
            &&& 0 <= i < registered.len() && shown(registered@[i]) ==> k < r.len() && r@[k]@
                == registered@[i]@
        }),
{
    let shown = |name: String|
        tool_visible(
            host_access,
            host.has_client,
            host.client_fs_read,
            host.client_fs_write,
            host.client_terminal,
            name@,
        ) && (skills || !(name@ == "skill"@ || name@ == "skill_install"@ || name@
            == "skill_update"@ || name@ == "skill_uninstall"@));
    let offered = |name: String| tool_offered(host_access, host, skills, name@);
    assert forall|name: String| #[trigger] shown(name) == offered(name) by {}
    assert(shown =~= offered);
    lemma_filter_place(registered@, shown, i);
    assert(r@ == registered@.filter(offered));
}

/// A turn's session is an editor's exactly where an editor opened it, and only then
/// does the turn carry the grant of its room. It is read from the editors' store there,
/// and from the one that keeps it otherwise.
pub proof fn turns_go_where_their_sessions_are(
    state: ServeState,
    session_id: &str,
    in_autonomous: bool,
    in_device_default: bool,
    r: TurnRoute,
    target: StoreKind,
    room: Option<String>,
)
    requires
        call_ensures(
            ServeState::turn_route,
            (&state, session_id, in_autonomous, in_device_default),
            r,
        ),
        call_ensures(TurnRoute::target, (&r,), target),
        call_ensures(ServeState::room_profile, (&state, session_id), room),
    ensures
        ({
            let editors = state.acp_sessions@.contains_key(session_id@);
            &&& r.is_acp <==> editors
            &&& editors ==> target == StoreKind::Acp
            &&& !editors ==> target == r.store
            &&& r.store == StoreKind::Autonomous <==> in_autonomous
            &&& r.store == StoreKind::DeviceDefault <==> !in_autonomous && in_device_default
            &&& r.store == StoreKind::CrossDevice <==> !in_autonomous && !in_device_default
            &&& r.admin_room_profile is Some <==> editors && room is Some
            &&& r.admin_room_profile is Some ==> r.admin_room_profile.unwrap()@ == room.unwrap()@
        }),
{
    assert(room.deep_view() == state.room_of(session_id@));
    assert(room.deep_view() is Some == room is Some);
    assert(r.admin_room_profile.deep_view() is Some == r.admin_room_profile is Some);
    if room is Some {
        assert(room.deep_view() == Some(room.unwrap()@));
    }
    if r.admin_room_profile is Some {
        assert(r.admin_room_profile.deep_view() == Some(r.admin_room_profile.unwrap()@));
    }
}

/// A turn goes on from every message that the store holds, and the user's comes last,
/// as it came in. That message is what is written, and what was read is what memory
/// holds from then on. A turn is the first of its session exactly where the store
/// holds nothing of it. The memory of other sessions is not touched.
pub proof fn turns_go_on_from_what_was_kept(
    before: ServeState,
    after: ServeState,
    config: ServerConfig,
    session_id: &str,
    route: TurnRoute,
    loaded: Option<Vec<ChatMessage>>,
    user_msg: ChatMessage,
    r: OpenedTurn,
    i: int,
    other: Seq<char>,
)
    requires
        exists|s: &mut ServeState|
            *s == before && *final(s) == after && #[trigger] call_ensures(
                ServeState::open_turn,
                (s, &config, session_id, route, loaded, user_msg),
                r,
            ),
    ensures
        ({
            let n: int = if loaded is Some {
                loaded.unwrap().len() as int
            } else {
                0
            };
            &&& r.was_first_turn <==> n == 0
            &&& r.history.len() == n + 1
            &&& 0 <= i < n ==> r.history@[i]@ == loaded.unwrap()@[i]@
            &&& r.history@[n]@ == user_msg@
            &&& after.sessions@.contains_key(session_id@)
            &&& after.sessions@[session_id@].len() == n
            &&& 0 <= i < n ==> after.sessions@[session_id@]@[i]@ == loaded.unwrap()@[i]@
        }),
        r.append.record is Message,
        r.append.record->Message_0@ == user_msg@,
        r.append.session_id@ == session_id@,
        r.append.store == if route.is_acp {
            StoreKind::Acp
        } else {
            route.store
        },
        r.persistence.session_id@ == session_id@,
        r.persistence.store == route.store,
        r.persistence.is_acp == route.is_acp,
        r.admin_room_profile == route.admin_room_profile,
        other != session_id@ ==> (after.sessions@.contains_key(other)
            <==> before.sessions@.contains_key(other)),
        other != session_id@ && after.sessions@.contains_key(other)
            ==> after.sessions@[other].deep_view() == before.sessions@[other].deep_view(),
{
    let n: int = if loaded is Some {
        loaded.unwrap().len() as int
    } else {
        0
    };
    let kept = match loaded {
        Some(h) => h.deep_view(),
        None => Seq::empty(),
    };
    assert(kept.len() == n);
    assert(r.history.deep_view().len() == r.history.len());
    assert(r.history.deep_view()[n] == r.history@[n]@);
    assert(after.sessions.deep_view().contains_key(session_id@));
    assert(after.sessions.deep_view()[session_id@] == kept);
    assert(after.sessions@[session_id@].deep_view() == kept);
    assert(after.sessions@[session_id@].deep_view().len() == after.sessions@[session_id@].len());
    if 0 <= i < n {
        assert(kept[i] == loaded.unwrap()@[i]@);
        assert(r.history.deep_view()[i] == r.history@[i]@);
        assert(after.sessions@[session_id@].deep_view()[i] == after.sessions@[session_id@]@[i]@);
    }
    if other != session_id@ {
        assert(after.sessions.deep_view().contains_key(other)
            == before.sessions.deep_view().contains_key(other));
        if after.sessions@.contains_key(other) {
            assert(after.sessions.deep_view()[other] == before.sessions.deep_view()[other]);
        }
    }
}

/// A turn is served by the model and from the namespace of its session, and its model
/// is told of the room that the client described. Its file has to be made exactly where
/// the session is shared between devices and not an editor's: in its namespace and
/// under the short identifier that was reserved, which is then used up.
pub proof fn turns_are_served_as_their_sessions_are(
    before: ServeState,
    after: ServeState,
    config: ServerConfig,
    session_id: &str,
    route: TurnRoute,
    loaded: Option<Vec<ChatMessage>>,
    user_msg: ChatMessage,
    r: OpenedTurn,
    provider: ProviderChoice,
    namespace: String,
    other: Seq<char>,
)
    requires
        exists|s: &mut ServeState|
            *s == before && *final(s) == after && #[trigger] call_ensures(
                ServeState::open_turn,
                (s, &config, session_id, route, loaded, user_msg),
                r,
            ),
        call_ensures(ServeState::provider_for_session, (&before, &config, session_id), provider),
        call_ensures(ServeState::namespace_for_session, (&before, &config, session_id), namespace),
    ensures
        ({
            let makes = !route.is_acp && route.store == StoreKind::CrossDevice;
            let reserved = before.pending_sessions@.contains_key(session_id@);
            &&& r.namespace@ == namespace@
            &&& r.provider is Background <==> provider is Background
            &&& r.provider is Profile ==> r.provider->Profile_0@ == provider->Profile_0@
            &&& r.room_info is Some <==> before.session_room_metadata@.contains_key(session_id@)
            &&& r.room_info is Some ==> r.room_info.unwrap()
                == before.session_room_metadata@[session_id@]
            &&& r.ensure is Some <==> makes
            &&& makes ==> r.ensure.unwrap().session_id@ == session_id@
            &&& makes ==> r.ensure.unwrap().namespace@ == namespace@
            &&& makes ==> (r.ensure.unwrap().public_id is Some <==> reserved)
            &&& makes && reserved ==> r.ensure.unwrap().public_id.unwrap()@
                == before.pending_sessions@[session_id@]@
            &&& makes ==> !after.pending_sessions@.contains_key(session_id@)
            &&& !makes ==> after.pending_sessions@.contains_key(session_id@) == reserved
            &&& other != session_id@ ==> after.pending_sessions@.contains_key(other)
                == before.pending_sessions@.contains_key(other)
            &&& after.pending_sessions@.contains_key(other) ==> after.pending_sessions@[other]@
                == before.pending_sessions@[other]@
            &&& after.session_room_profiles == before.session_room_profiles
            &&& after.session_room_metadata == before.session_room_metadata
            &&& after.acp_sessions == before.acp_sessions
            &&& after.voice_subscribers == before.voice_subscribers
        }),
{
    let makes = !route.is_acp && route.store == StoreKind::CrossDevice;
    let pending = before.pending_sessions.deep_view();
    assert(pending.contains_key(session_id@) == before.pending_sessions@.contains_key(session_id@));
    assert(after.pending_sessions.deep_view().contains_key(session_id@)
        == after.pending_sessions@.contains_key(session_id@));
    assert(after.pending_sessions.deep_view().contains_key(other)
        == after.pending_sessions@.contains_key(other));
    assert(pending.contains_key(other) == before.pending_sessions@.contains_key(other));
    if after.pending_sessions@.contains_key(other) {
        assert(after.pending_sessions.deep_view()[other] == after.pending_sessions@[other]@);
        assert(pending[other] == before.pending_sessions@[other]@);
    }
    if makes {
        let short = r.ensure.unwrap().public_id;
        assert(short.deep_view() == reserved_id(pending, session_id@));
        assert(short.deep_view() is Some == short is Some);
        if short is Some {
            assert(short.deep_view() == Some(short.unwrap()@));
            assert(pending[session_id@] == before.pending_sessions@[session_id@]@);
        }
    }
}

/// After a turn its conversation is what memory holds of its session, and its caller is
/// told what it said and how it ended. Nothing else is touched.
pub proof fn turns_are_kept_as_they_ended(
    before: ServeState,
    after: ServeState,
    session_id: &str,
    history: Vec<ChatMessage>,
    text: Option<String>,
    was_first_turn: bool,
    stop: TurnStop,
    r: LlmTurnOutcome,
    other: Seq<char>,
)
    requires
        exists|s: &mut ServeState|
            *s == before && *final(s) == after && #[trigger] call_ensures(
                ServeState::finish_turn,
                (s, session_id, history, text, was_first_turn, stop),
                r,
            ),
    ensures
        after.sessions@.contains_key(session_id@),
        after.sessions@[session_id@] == history,
        r.text == text,
        r.was_first_turn == was_first_turn,
        r.stop == stop,
        other != session_id@ ==> (after.sessions@.contains_key(other)
            <==> before.sessions@.contains_key(other)),
        other != session_id@ && after.sessions@.contains_key(other) ==> after.sessions@[other]
            == before.sessions@[other],
        after.pending_sessions == before.pending_sessions,
        after.session_room_profiles == before.session_room_profiles,
        after.acp_sessions == before.acp_sessions,
        after.open_acp_sessions == before.open_acp_sessions,
        after.acp_terminals == before.acp_terminals,
{
}

/// A turn starts with its conversation and its session, and under what the operator
/// configured: the tools that its model is shown are those that its host and namespace
/// let it see, and its rounds are those of its host's budget.
pub proof fn turns_start_under_what_is_configured(
    opened: OpenedTurn,
    config: ServerConfig,
    host: HostFacts,
    registered: Vec<String>,
    timer_device: Option<String>,
    r: TurnLoop,
    namespace: &str,
    skills: bool,
    offered: Vec<String>,
    limit: Option<usize>,
    i: int,
)
    requires
        call_ensures(OpenedTurn::start, (opened, &config, host, &registered, timer_device), r),
        namespace@ == opened.namespace@,
        call_ensures(ServerConfig::skills_enabled, (&config, namespace), skills),
        call_ensures(
            offered_tools,
            (&registered, config.host_access_enabled, host, skills),
            offered,
        ),
        call_ensures(ToolRounds::limit, (&config.tool_rounds, host.round_budget), limit),
    ensures
        r.round == 0,
        r.accumulated.len() == 0,
        r.history == opened.history,
        r.persistence is Some,
        r.persistence.unwrap() == opened.persistence,
        r.scope.namespace@ == opened.namespace@,
        r.scope.timer_device == timer_device,
        r.scope.subagent_depth == 0,
        r.scope.admin_room_profile == opened.admin_room_profile,
        r.rules.host_access_enabled == config.host_access_enabled,
        r.rules.routed_to_client == host.has_client,
        r.rules.round_limit == limit,
        r.rules.offered.len() == offered.len(),
        0 <= i < offered.len() ==> r.rules.offered@[i]@ == offered@[i]@,
{
    assert(skills == config.skills_in(opened.namespace@));
    let shown = |name: String|
        tool_offered(config.host_access_enabled, host, config.skills_in(opened.namespace@), name@);
    let same = |name: String| tool_offered(config.host_access_enabled, host, skills, name@);
    assert(shown =~= same);
    assert(r.rules.offered@ == registered@.filter(shown));
    assert(offered@ == registered@.filter(same));
}

} // verus!
