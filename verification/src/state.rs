//! What the server keeps in memory across requests.

use vstd::prelude::*;

use crate::message::ChatMessage;
use crate::persistence::StoreKind;
use crate::policy::ToolRounds;
use crate::table::Table;
use crate::terminals::TerminalRegistry;
use crate::text;

verus! {

/// Where the model is told that it speaks.
#[derive(Debug, PartialEq, Eq)]
pub struct RoomInfo {
    pub name: String,
    pub description: Option<String>,
    pub kind: String,
}

/// The mathematical value of a [`RoomInfo`].
pub struct RoomInfoView {
    pub name: Seq<char>,
    pub description: Option<Seq<char>>,
    pub kind: Seq<char>,
}

impl DeepView for RoomInfo {
    type V = RoomInfoView;

    open spec fn deep_view(&self) -> RoomInfoView {
        RoomInfoView {
            name: self.name@,
            description: self.description.deep_view(),
            kind: self.kind@,
        }
    }
}

/// Who speaks and listens in a room.
#[derive(Debug, PartialEq, Eq)]
pub struct VoicePipeline {
    pub stt_provider: String,
    pub tts_provider: String,
    pub language: Option<String>,
}

impl VoicePipeline {
    /// A copy of the pipeline.
    pub fn copy(&self) -> (r: VoicePipeline)
        ensures
            r == *self,
    {
        VoicePipeline {
            stt_provider: self.stt_provider.clone(),
            tts_provider: self.tts_provider.clone(),
            language: text::copy_option(&self.language),
        }
    }
}

/// How a room is served.
pub struct RoomProfile {
    /// The profile that names the model.
    pub profile: String,
    /// Where notes of the room are kept.
    pub namespace: String,
    pub voice_pipeline: Option<VoicePipeline>,
}

/// The voice providers that were brought up, by name.
pub struct VoiceRegistry {
    pub stt: Vec<String>,
    pub tts: Vec<String>,
}

/// What the operator configured.
pub struct ServerConfig {
    pub host_access_enabled: bool,
    pub tool_rounds: ToolRounds,
    pub room_profiles: Table<RoomProfile>,
    /// For each namespace, whether skills are on in it.
    pub skill_namespaces: Table<bool>,
    pub default_namespace: String,
    /// The file of the word that wakes a satellite.
    pub wake_word_model: Option<String>,
    /// `None` where no voice provider is configured at all.
    pub voice: Option<VoiceRegistry>,
}

impl ServerConfig {
    /// What holds of every configuration.
    pub open spec fn wf(self) -> bool {
        self.room_profiles.wf() && self.skill_namespaces.wf()
    }

    /// The namespace of a room.
    pub open spec fn namespace_of(self, room_profile: Seq<char>) -> Seq<char> {
        if self.room_profiles@.contains_key(room_profile) {
            self.room_profiles@[room_profile].namespace@
        } else {
            self.default_namespace@
        }
    }

    /// The namespace of a room; the default one where the room is not configured.
    pub fn namespace_for_room_profile(&self, room_profile: &str) -> (r: String)
        requires
            self.wf(),
        ensures
            r@ == self.namespace_of(room_profile@),
    {
        match self.room_profiles.get(room_profile) {
            Some(p) => p.namespace.clone(),
            None => self.default_namespace.clone(),
        }
    }

    /// Whether skills are on in a namespace.
    pub open spec fn skills_in(self, namespace: Seq<char>) -> bool {
        self.skill_namespaces@.contains_key(namespace) && self.skill_namespaces@[namespace]
    }

    /// Whether skills are on in a namespace; they are not in one that is not
    /// configured.
    pub fn skills_enabled(&self, namespace: &str) -> (r: bool)
        requires
            self.wf(),
        ensures
            r == self.skills_in(namespace@),
    {
        match self.skill_namespaces.get(namespace) {
            Some(on) => *on,
            None => false,
        }
    }
}

/// Which model serves a session.
#[derive(Debug, PartialEq, Eq)]
pub enum ProviderChoice {
    Profile(String),
    Background,
}

/// A satellite that listens for what the server says on its own.
pub struct Subscriber {
    pub room_profile: String,
    /// The channel that leads to it.
    pub channel: u64,
}

/// What a project session says of itself.
#[derive(Debug, PartialEq, Eq)]
pub struct ProjectMeta {
    pub session_id: String,
    pub namespace: Option<String>,
    pub project: Option<String>,
}

/// The sessions of projects, by namespace and project.
pub struct ProjectIndex {
    entries: Vec<((String, String), String)>,
}

/// The sessions after entries that came one after the other: the last one for a
/// project stands.
spec fn index_of(entries: Seq<((String, String), String)>) -> Map<
    (Seq<char>, Seq<char>),
    Seq<char>,
>
    decreases entries.len(),
{
    if entries.len() == 0 {
        Map::empty()
    } else {
        let last = entries.last();
        index_of(entries.drop_last()).insert((last.0.0@, last.0.1@), last.1@)
    }
}

/// The sessions of projects that a listing gives, the last one for each project.
pub open spec fn projects(metas: Seq<ProjectMeta>) -> Map<(Seq<char>, Seq<char>), Seq<char>>
    decreases metas.len(),
{
    if metas.len() == 0 {
        Map::empty()
    } else {
        let before = projects(metas.drop_last());
        match (metas.last().namespace, metas.last().project) {
            (Some(n), Some(p)) => before.insert((n@, p@), metas.last().session_id@),
            _ => before,
        }
    }
}

impl View for ProjectIndex {
    type V = Map<(Seq<char>, Seq<char>), Seq<char>>;

    closed spec fn view(&self) -> Map<(Seq<char>, Seq<char>), Seq<char>> {
        index_of(self.entries@)
    }
}

impl ProjectIndex {
    /// An index of nothing.
    pub fn new() -> (r: ProjectIndex)
        ensures
            r@ == Map::<(Seq<char>, Seq<char>), Seq<char>>::empty(),
    {
        ProjectIndex { entries: Vec::new() }
    }

    /// Puts a project's session in place of the one that was there.
    pub fn insert(&mut self, namespace: String, project: String, session_id: String)
        ensures
            final(self)@ == old(self)@.insert((namespace@, project@), session_id@),
    {
        let ghost before = self.entries@;
        self.entries.push(((namespace, project), session_id));
        assert(self.entries@.drop_last() =~= before);
    }

    /// The session of a project.
    pub fn get(&self, namespace: &str, project: &str) -> (r: Option<String>)
        ensures
            match r {
                Some(id) => self@.contains_key((namespace@, project@)) && id@ == self@[(
                    namespace@,
                    project@,
                )],
                None => !self@.contains_key((namespace@, project@)),
            },
    {
        let mut i: usize = self.entries.len();
        let ghost key = (namespace@, project@);
        assert(self.entries@.take(i as int) =~= self.entries@);
        while i > 0
            invariant
                i <= self.entries.len(),
                key == (namespace@, project@),
                self@.contains_key(key) == index_of(self.entries@.take(i as int)).contains_key(key),
                self@.contains_key(key) ==> self@[key] == index_of(
                    self.entries@.take(i as int),
                )[key],
            decreases i,
        {
            let ghost part = self.entries@.take(i as int);
            assert(part.drop_last() =~= self.entries@.take(i - 1));
            let entry = &self.entries[i - 1];
            assert(part.last() == *entry);
            if text::same(entry.0.0.as_str(), namespace) && text::same(
                entry.0.1.as_str(),
                project,
            ) {
                return Some(entry.1.clone());
            }
            i -= 1;
        }
        None
    }
}

/// What the server keeps in memory across requests.
pub struct ServeState {
    /// The sessions of projects.
    pub mcp_project_index: ProjectIndex,
    /// The conversations that are in memory, by session.
    pub sessions: Table<Vec<ChatMessage>>,
    /// Sessions that were given out and hold nothing yet, with the short
    /// identifier that is reserved for each.
    pub pending_sessions: Table<String>,
    /// The room that each session is in.
    pub session_room_profiles: Table<String>,
    /// What a client said of the room that a session is in.
    pub session_room_metadata: Table<RoomInfo>,
    /// The satellites that listen, by device.
    pub voice_subscribers: Table<Subscriber>,
    /// How many live editor connections hold each session.
    pub open_acp_sessions: Table<usize>,
    /// The sessions that belong to editors.
    pub acp_sessions: Table<()>,
    /// The terminals that were started and not cleaned up, by session.
    pub acp_terminals: TerminalRegistry,
}

/// Whether two states differ in their conversations at most.
pub open spec fn same_but_sessions(a: ServeState, b: ServeState) -> bool {
    &&& a.mcp_project_index == b.mcp_project_index
    &&& a.pending_sessions == b.pending_sessions
    &&& a.session_room_profiles == b.session_room_profiles
    &&& a.session_room_metadata == b.session_room_metadata
    &&& a.voice_subscribers == b.voice_subscribers
    &&& a.open_acp_sessions == b.open_acp_sessions
    &&& a.acp_sessions == b.acp_sessions
    &&& a.acp_terminals == b.acp_terminals
}

impl ServeState {
    /// What holds of every state.
    pub open spec fn wf(self) -> bool {
        &&& self.sessions.wf()
        &&& self.pending_sessions.wf()
        &&& self.session_room_profiles.wf()
        &&& self.session_room_metadata.wf()
        &&& self.voice_subscribers.wf()
        &&& self.open_acp_sessions.wf()
        &&& self.acp_sessions.wf()
        &&& self.acp_terminals.wf()
    }

    /// The state at the start, with the projects that the listing of their
    /// sessions gives. The listing runs from the oldest to the latest.
    pub fn new(mcp_sessions: &Vec<ProjectMeta>, max_terminals_per_session: usize) -> (r: ServeState)
        ensures
            r.wf(),
            r.mcp_project_index@ == projects(mcp_sessions@),
            r.sessions@.dom().is_empty(),
            r.pending_sessions@.dom().is_empty(),
            r.session_room_profiles@.dom().is_empty(),
            r.session_room_metadata@.dom().is_empty(),
            r.voice_subscribers@.dom().is_empty(),
            r.open_acp_sessions@.dom().is_empty(),
            r.acp_sessions@.dom().is_empty(),
            r.acp_terminals@.dom().is_empty(),
            r.acp_terminals.cap() == max_terminals_per_session,
    {
        let mut index = ProjectIndex::new();
        let mut i: usize = 0;
        while i < mcp_sessions.len()
            invariant
                i <= mcp_sessions.len(),
                index@ == projects(mcp_sessions@.take(i as int)),
            decreases mcp_sessions.len() - i,
        {
            let meta = &mcp_sessions[i];
            proof {
                let part = mcp_sessions@.take(i + 1);
                assert(part.drop_last() =~= mcp_sessions@.take(i as int));
                assert(part.last() == *meta);
            }
            match (&meta.namespace, &meta.project) {
                (Some(n), Some(p)) => {
                    index.insert(n.clone(), p.clone(), meta.session_id.clone());
                },
                _ => {},
            }
            i += 1;
        }
        assert(mcp_sessions@.take(i as int) =~= mcp_sessions@);
        ServeState {
            mcp_project_index: index,
            sessions: Table::new(),
            pending_sessions: Table::new(),
            session_room_profiles: Table::new(),
            session_room_metadata: Table::new(),
            voice_subscribers: Table::new(),
            open_acp_sessions: Table::new(),
            acp_sessions: Table::new(),
            acp_terminals: TerminalRegistry::new(max_terminals_per_session),
        }
    }

    /// Whether a session belongs to an editor.
    pub fn is_acp(&self, session_id: &str) -> (r: bool)
        requires
            self.wf(),
        ensures
            r == self.acp_sessions@.contains_key(session_id@),
    {
        self.acp_sessions.contains_key(session_id)
    }

    /// Which store keeps a session that is not an editor's, from the stores in which
    /// a file of it is found. A session that is found nowhere yet goes to the one
    /// that is shared between devices.
    pub fn store_for_session(in_autonomous: bool, in_device_default: bool) -> (r: StoreKind)
        ensures
            r == store_of(in_autonomous, in_device_default),
    {
        if in_autonomous {
            StoreKind::Autonomous
        } else if in_device_default {
            StoreKind::DeviceDefault
        } else {
            StoreKind::CrossDevice
        }
    }

    /// The session of a project, if it ever had one.
    pub fn mcp_session_for_project(&self, namespace: &str, project: &str) -> (r: Option<String>)
        ensures
            match r {
                Some(id) => self.mcp_project_index@.contains_key((namespace@, project@)) && id@
                    == self.mcp_project_index@[(namespace@, project@)],
                None => !self.mcp_project_index@.contains_key((namespace@, project@)),
            },
    {
        self.mcp_project_index.get(namespace, project)
    }

    /// The session of a project: the one that it has, or else the one that was
    /// just created for it, if that went well. Where the project has a session,
    /// none is to be created.
    pub fn mcp_session_for_project_or_create<E>(
        &mut self,
        namespace: &str,
        project: &str,
        created: Result<String, E>,
    ) -> (r: Result<String, E>)
        ensures
            ({
                let key = (namespace@, project@);
                if old(self).mcp_project_index@.contains_key(key) {
                    &&& r matches Ok(id)
                    &&& id@ == old(self).mcp_project_index@[key]
                    &&& *final(self) == *old(self)
                } else {
                    match created {
                        Ok(fresh) => {
                            &&& r == Ok::<String, E>(fresh)
                            &&& final(self).mcp_project_index@
                                == old(self).mcp_project_index@.insert(key, fresh@)
                            &&& *final(self) == (ServeState {
                                mcp_project_index: final(self).mcp_project_index,
                                ..*old(self)
                            })
                        },
                        Err(e) => r == Err::<String, E>(e) && *final(self) == *old(self),
                    }
                }
            }),
    {
        if let Some(id) = self.mcp_project_index.get(namespace, project) {
            return Ok(id);
        }
        match created {
            Ok(fresh) => {
                self.mcp_project_index.insert(
                    namespace.to_owned(),
                    project.to_owned(),
                    fresh.clone(),
                );
                Ok(fresh)
            },
            Err(e) => Err(e),
        }
    }

    /// The room that a session is in.
    pub open spec fn room_of(self, session_id: Seq<char>) -> Option<Seq<char>> {
        if self.session_room_profiles@.contains_key(session_id) {
            Some(self.session_room_profiles@[session_id]@)
        } else {
            None
        }
    }

    /// The room that a session is in.
    pub fn room_profile(&self, session_id: &str) -> (r: Option<String>)
        requires
            self.wf(),
        ensures
            r.deep_view() == self.room_of(session_id@),
    {
        match self.session_room_profiles.get(session_id) {
            Some(name) => Some(name.clone()),
            None => None,
        }
    }

    /// The model that serves a session.
    pub open spec fn provider_of(self, config: ServerConfig, session_id: Seq<char>) -> Option<
        Seq<char>,
    > {
        match self.room_of(session_id) {
            Some(room) => if config.room_profiles@.contains_key(room) {
                Some(config.room_profiles@[room].profile@)
            } else {
                None
            },
            None => None,
        }
    }

    /// The model that serves a session: that of its room, or the background one
    /// where it is in none that is configured.
    pub fn provider_for_session(&self, config: &ServerConfig, session_id: &str) -> (r:
        ProviderChoice)
        requires
            self.wf(),
            config.wf(),
        ensures
            match r {
                ProviderChoice::Profile(p) => self.provider_of(*config, session_id@) == Some(p@),
                ProviderChoice::Background => self.provider_of(*config, session_id@) is None,
            },
    {
        match self.session_room_profiles.get(session_id) {
            Some(room) => match config.room_profiles.get(room.as_str()) {
                Some(p) => ProviderChoice::Profile(p.profile.clone()),
                None => ProviderChoice::Background,
            },
            None => ProviderChoice::Background,
        }
    }

    /// The namespace that a session's notes are kept in.
    pub open spec fn namespace_of(self, config: ServerConfig, session_id: Seq<char>) -> Seq<char> {
        match self.room_of(session_id) {
            Some(room) => config.namespace_of(room),
            None => config.default_namespace@,
        }
    }

    /// The namespace that a session's notes are kept in: that of its room, or the
    /// default one.
    pub fn namespace_for_session(&self, config: &ServerConfig, session_id: &str) -> (r: String)
        requires
            self.wf(),
            config.wf(),
        ensures
            r@ == self.namespace_of(*config, session_id@),
    {
        match self.session_room_profiles.get(session_id) {
            Some(room) => config.namespace_for_room_profile(room.as_str()),
            None => config.default_namespace.clone(),
        }
    }

    /// Puts a conversation in memory, in place of what was there.
    pub fn put_session(&mut self, session_id: &str, history: Vec<ChatMessage>)
        requires
            old(self).wf(),
        ensures
            final(self).wf(),
            same_but_sessions(*final(self), *old(self)),
            final(self).sessions@ == old(self).sessions@.insert(session_id@, history),
    {
        self.sessions.insert(session_id.to_owned(), history);
    }
}

/// Which store keeps a session that is not an editor's, from the stores in which a
/// file of it is found.
pub open spec fn store_of(in_autonomous: bool, in_device_default: bool) -> StoreKind {
    if in_autonomous {
        StoreKind::Autonomous
    } else if in_device_default {
        StoreKind::DeviceDefault
    } else {
        StoreKind::CrossDevice
    }
}

/// Of several sessions for one project, the one listed last is found.
pub proof fn last_project_session_wins(metas: Seq<ProjectMeta>, i: int)
    requires
        0 <= i < metas.len(),
        metas[i].namespace is Some,
        metas[i].project is Some,
        forall|k: int|
            i < k < metas.len() ==> (#[trigger] metas[k]).namespace.deep_view()
                != metas[i].namespace.deep_view() || metas[k].project.deep_view()
                != metas[i].project.deep_view(),
    ensures
        projects(metas).contains_key(
            (metas[i].namespace.unwrap()@, metas[i].project.unwrap()@),
        ),
        projects(metas)[(metas[i].namespace.unwrap()@, metas[i].project.unwrap()@)]
            == metas[i].session_id@,
    decreases metas.len(),
{
    let last = metas.len() - 1;
    if i < last {
        let before = metas.drop_last();
        assert(forall|k: int| i < k < before.len() ==> #[trigger] before[k] == metas[k]);
        last_project_session_wins(before, i);
        assert(metas[last] == metas.last());
    }
}

/// A session that is not an editor's is kept with those that run on their own where a
/// file of it is found there, else with those of devices where one is, and otherwise
/// with those that devices share.
pub proof fn sessions_are_kept_where_they_are_found(
    in_autonomous: bool,
    in_device_default: bool,
    r: StoreKind,
)
    requires
        call_ensures(ServeState::store_for_session, (in_autonomous, in_device_default), r),
    ensures
        r == StoreKind::Autonomous <==> in_autonomous,
        r == StoreKind::DeviceDefault <==> !in_autonomous && in_device_default,
        r == StoreKind::CrossDevice <==> !in_autonomous && !in_device_default,
{
}

/// A room is served from its own namespace where it is configured, and from the default
/// one otherwise. Skills are on exactly in the namespaces for which that is configured.
pub proof fn rooms_have_their_namespaces(
    config: ServerConfig,
    room: &str,
    namespace: String,
    skills: bool,
)
    requires
        call_ensures(ServerConfig::namespace_for_room_profile, (&config, room), namespace),
        call_ensures(ServerConfig::skills_enabled, (&config, room), skills),
    ensures
        config.room_profiles@.contains_key(room@) ==> namespace@
            == config.room_profiles@[room@].namespace@,
        !config.room_profiles@.contains_key(room@) ==> namespace@ == config.default_namespace@,
        skills <==> config.skill_namespaces@.contains_key(room@)
            && config.skill_namespaces@[room@],
{
}

/// A session is served by the model of its room, and its notes are kept in the
/// namespace of its room. One in no room that is configured is served by the
/// background model, from the default namespace.
pub proof fn sessions_are_served_by_their_rooms(
    state: ServeState,
    config: ServerConfig,
    session_id: &str,
    room: Option<String>,
    provider: ProviderChoice,
    namespace: String,
    is_acp: bool,
)
    requires
        call_ensures(ServeState::room_profile, (&state, session_id), room),
        call_ensures(ServeState::provider_for_session, (&state, &config, session_id), provider),
        call_ensures(ServeState::namespace_for_session, (&state, &config, session_id), namespace),
        call_ensures(ServeState::is_acp, (&state, session_id), is_acp),
    ensures
        ({
            let placed = state.session_room_profiles@.contains_key(session_id@);
            let name = state.session_room_profiles@[session_id@]@;
            let known = placed && config.room_profiles@.contains_key(name);
            &&& room is Some <==> placed
            &&& placed ==> room.unwrap()@ == name
            &&& known ==> provider is Profile && provider->Profile_0@
                == config.room_profiles@[name].profile@
            &&& !known ==> provider is Background
            &&& known ==> namespace@ == config.room_profiles@[name].namespace@
            &&& !known ==> namespace@ == config.default_namespace@
            &&& is_acp <==> state.acp_sessions@.contains_key(session_id@)
        }),
{
    if state.session_room_profiles@.contains_key(session_id@) {
        assert(room.deep_view() is Some);
        assert(room.deep_view() == Some(room.unwrap()@));
    } else {
        assert(room.deep_view() is None);
    }
}

/// A server starts with nothing in memory but the sessions of projects, and finds for
/// each project the one that was listed last.
pub proof fn servers_start_with_the_projects(
    metas: Vec<ProjectMeta>,
    cap: usize,
    state: ServeState,
    namespace: &str,
    project: &str,
    r: Option<String>,
    i: int,
)
    requires
        call_ensures(ServeState::new, (&metas, cap), state),
        call_ensures(ServeState::mcp_session_for_project, (&state, namespace, project), r),
    ensures
        ({
            let of_project = |m: ProjectMeta|
                m.namespace is Some && m.project is Some && m.namespace.unwrap()@ == namespace@
                    && m.project.unwrap()@ == project@;
            &&& 0 <= i < metas.len() && of_project(metas@[i]) && (forall|k: int|
                i < k < metas.len() ==> !of_project(#[trigger] metas@[k])) ==> r is Some
                && r.unwrap()@ == metas@[i].session_id@
            &&& (forall|k: int| 0 <= k < metas.len() ==> !of_project(#[trigger] metas@[k]))
                ==> r is None
        }),
        forall|id: Seq<char>| !(#[trigger] state.sessions@.contains_key(id)),
        forall|id: Seq<char>| !(#[trigger] state.pending_sessions@.contains_key(id)),
        forall|id: Seq<char>| !(#[trigger] state.session_room_profiles@.contains_key(id)),
        forall|id: Seq<char>| !(#[trigger] state.session_room_metadata@.contains_key(id)),
        forall|id: Seq<char>| !(#[trigger] state.voice_subscribers@.contains_key(id)),
        forall|id: Seq<char>| !(#[trigger] state.open_acp_sessions@.contains_key(id)),
        forall|id: Seq<char>| !(#[trigger] state.acp_sessions@.contains_key(id)),
{
    let of_project = |m: ProjectMeta|
        m.namespace is Some && m.project is Some && m.namespace.unwrap()@ == namespace@
            && m.project.unwrap()@ == project@;
    if 0 <= i < metas.len() && of_project(metas@[i]) && (forall|k: int|
        i < k < metas.len() ==> !of_project(#[trigger] metas@[k])) {
        assert forall|k: int| i < k < metas.len() implies (#[trigger] metas@[k]).namespace.deep_view()
            != metas@[i].namespace.deep_view() || metas@[k].project.deep_view()
            != metas@[i].project.deep_view() by {
            assert(!of_project(metas@[k]));
        }
        last_project_session_wins(metas@, i);
    }
    if forall|k: int| 0 <= k < metas.len() ==> !of_project(#[trigger] metas@[k]) {
        lemma_no_project(metas@, namespace@, project@);
    }
    assert forall|id: Seq<char>| !(#[trigger] state.sessions@.contains_key(id)) by {
        assert(!state.sessions@.dom().contains(id));
    }
    assert forall|id: Seq<char>| !(#[trigger] state.pending_sessions@.contains_key(id)) by {
        assert(!state.pending_sessions@.dom().contains(id));
    }
    assert forall|id: Seq<char>| !(#[trigger] state.session_room_profiles@.contains_key(id)) by {
        assert(!state.session_room_profiles@.dom().contains(id));
    }
    assert forall|id: Seq<char>| !(#[trigger] state.session_room_metadata@.contains_key(id)) by {
        assert(!state.session_room_metadata@.dom().contains(id));
    }
    assert forall|id: Seq<char>| !(#[trigger] state.voice_subscribers@.contains_key(id)) by {
        assert(!state.voice_subscribers@.dom().contains(id));
    }
    assert forall|id: Seq<char>| !(#[trigger] state.open_acp_sessions@.contains_key(id)) by {
        assert(!state.open_acp_sessions@.dom().contains(id));
    }
    assert forall|id: Seq<char>| !(#[trigger] state.acp_sessions@.contains_key(id)) by {
        assert(!state.acp_sessions@.dom().contains(id));
    }
}

proof fn lemma_no_project(metas: Seq<ProjectMeta>, namespace: Seq<char>, project: Seq<char>)
    requires
        forall|k: int|
            0 <= k < metas.len() ==> (#[trigger] metas[k]).namespace is None
                || metas[k].project is None || metas[k].namespace.unwrap()@ != namespace
                || metas[k].project.unwrap()@ != project,
    ensures
        !projects(metas).contains_key((namespace, project)),
    decreases metas.len(),
{
    if metas.len() > 0 {
        let before = metas.drop_last();
        assert forall|k: int| 0 <= k < before.len() implies (#[trigger] before[k]).namespace is None
            || before[k].project is None || before[k].namespace.unwrap()@ != namespace
            || before[k].project.unwrap()@ != project by {
            assert(before[k] == metas[k]);
        }
        lemma_no_project(before, namespace, project);
        assert(metas.last() == metas[metas.len() - 1]);
    }
}

/// A project keeps the session that it has. One that has none gets the one that was
/// created for it, and has it from then on; where none could be created it still has
/// none. What other projects have is not touched.
pub proof fn projects_keep_their_sessions<E>(
    before: ServeState,
    after: ServeState,
    namespace: &str,
    project: &str,
    created: Result<String, E>,
    r: Result<String, E>,
    had: Option<String>,
    has: Option<String>,
    other_namespace: &str,
    other_project: &str,
    other_had: Option<String>,
    other_has: Option<String>,
)
    requires
        exists|s: &mut ServeState|
            *s == before && *final(s) == after && #[trigger] call_ensures(
                ServeState::mcp_session_for_project_or_create::<E>,
                (s, namespace, project, created),
                r,
            ),
        call_ensures(ServeState::mcp_session_for_project, (&before, namespace, project), had),
        call_ensures(ServeState::mcp_session_for_project, (&after, namespace, project), has),
        other_namespace@ != namespace@ || other_project@ != project@,
        call_ensures(
            ServeState::mcp_session_for_project,
            (&before, other_namespace, other_project),
            other_had,
        ),
        call_ensures(
            ServeState::mcp_session_for_project,
            (&after, other_namespace, other_project),
            other_has,
        ),
    ensures
        had is Some ==> r is Ok && r->Ok_0@ == had.unwrap()@,
        had is None && created is Ok ==> r is Ok && r->Ok_0@ == created->Ok_0@,
        had is None && created is Err ==> r == Err::<String, E>(created->Err_0),
        r is Ok ==> has is Some && has.unwrap()@ == r->Ok_0@,
        r is Err ==> has is None,
        other_has is Some <==> other_had is Some,
        other_has is Some ==> other_has.unwrap()@ == other_had.unwrap()@,
        after.sessions == before.sessions,
        after.pending_sessions == before.pending_sessions,
        after.session_room_profiles == before.session_room_profiles,
        after.acp_sessions == before.acp_sessions,
{
}

/// A conversation that is put in memory is there as it is, and every other one stays.
pub proof fn conversations_are_kept_apart(
    before: ServeState,
    after: ServeState,
    session_id: &str,
    history: Vec<ChatMessage>,
    other: Seq<char>,
)
    requires
        exists|s: &mut ServeState|
            *s == before && *final(s) == after && #[trigger] call_ensures(
                ServeState::put_session,
                (s, session_id, history),
                (),
            ),
    ensures
        after.sessions@.contains_key(session_id@),
        after.sessions@[session_id@] == history,
        other != session_id@ ==> (after.sessions@.contains_key(other)
            <==> before.sessions@.contains_key(other)),
        other != session_id@ && after.sessions@.contains_key(other) ==> after.sessions@[other]
            == before.sessions@[other],
        after.pending_sessions == before.pending_sessions,
        after.session_room_profiles == before.session_room_profiles,
        after.session_room_metadata == before.session_room_metadata,
        after.voice_subscribers == before.voice_subscribers,
        after.open_acp_sessions == before.open_acp_sessions,
        after.acp_sessions == before.acp_sessions,
        after.acp_terminals == before.acp_terminals,
        after.mcp_project_index == before.mcp_project_index,
{
}

/// A project's session stands until another takes its place, and what other projects have
/// stays. A copy of a pipeline is that pipeline.
pub proof fn projects_are_indexed_apart(
    fresh: ProjectIndex,
    before: ProjectIndex,
    after: ProjectIndex,
    namespace: String,
    project: String,
    session_id: String,
    at: &str,
    of: &str,
    had: Option<String>,
    has: Option<String>,
    none: Option<String>,
    pipeline: VoicePipeline,
    copied: VoicePipeline,
)
    requires
        call_ensures(ProjectIndex::new, (), fresh),
        exists|x: &mut ProjectIndex|
            *x == before && *final(x) == after && #[trigger] call_ensures(
                ProjectIndex::insert,
                (x, namespace, project, session_id),
                (),
            ),
        call_ensures(ProjectIndex::get, (&fresh, at, of), none),
        call_ensures(ProjectIndex::get, (&before, at, of), had),
        call_ensures(ProjectIndex::get, (&after, at, of), has),
        call_ensures(VoicePipeline::copy, (&pipeline,), copied),
    ensures
        none is None,
        at@ == namespace@ && of@ == project@ ==> has is Some && has.unwrap()@ == session_id@,
        at@ != namespace@ || of@ != project@ ==> (has is Some <==> had is Some),
        (at@ != namespace@ || of@ != project@) && has is Some ==> has.unwrap()@ == had.unwrap()@,
        copied == pipeline,
{
}

} // verus!
