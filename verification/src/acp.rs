//! The connection of an editor: the sessions that it holds, the turns that run on
//! them, and what each of its requests is answered.

use vstd::prelude::*;

use crate::count::{count_of, lemma_filter_place};
use crate::editor::{ClientCapabilities, SessionUpdate, UpdateView};
use crate::frames::keepalive_period;
use crate::host::AcpProgress;
use crate::outside::{fresh_uuid, header_texts, is_uuid_v7, rfc3339, rfc3339_text};
use crate::policy::{mode_id, mode_ids_differ, SessionMode};
use crate::rpc::{bearer_token, extract_bearer, http_refusal, refuses_with, HttpRefusal};
use crate::state::{ServeState, ServerConfig};
use crate::table::Table;
use crate::text;
use crate::turn::LlmTurnOutcome;
use crate::turn_loop::TurnStop;

verus! {

/// Why a request of an editor is refused.
#[derive(Debug, PartialEq, Eq)]
pub enum AcpError {
    /// What the request says is wrong.
    InvalidParams(String),
    /// This side failed.
    Internal(String),
}

/// The mathematical value of an [`AcpError`].
pub enum AcpErrorView {
    InvalidParams(Seq<char>),
    Internal(Seq<char>),
}

impl View for AcpError {
    type V = AcpErrorView;

    open spec fn view(&self) -> AcpErrorView {
        match self {
            AcpError::InvalidParams(data) => AcpErrorView::InvalidParams(data@),
            AcpError::Internal(data) => AcpErrorView::Internal(data@),
        }
    }
}

/// The version of the protocol that is spoken here.
pub const PROTOCOL_VERSION: u16 = 1;

/// What an editor is told at the start.
#[derive(Clone, Copy, Debug, PartialEq, Eq, Structural)]
pub struct InitializeAnswer {
    pub protocol_version: u16,
    pub load_session: bool,
    pub list_sessions: bool,
    pub resume_session: bool,
}

/// A session that an editor holds.
#[derive(Debug, PartialEq, Eq)]
pub struct AcpSession {
    /// Where the session is on the editor's machine, as the editor wrote it.
    pub cwd: String,
    pub client_capabilities: ClientCapabilities,
    /// The turns that run now, by their numbers. A turn leaves when it ends.
    pub turns: Vec<u64>,
    pub mode: SessionMode,
}

/// The mathematical value of an [`AcpSession`].
pub struct AcpSessionView {
    pub cwd: Seq<char>,
    pub client_capabilities: ClientCapabilities,
    pub turns: Seq<u64>,
    pub mode: SessionMode,
}

impl DeepView for AcpSession {
    type V = AcpSessionView;

    open spec fn deep_view(&self) -> AcpSessionView {
        AcpSessionView {
            cwd: self.cwd@,
            client_capabilities: self.client_capabilities,
            turns: self.turns@,
            mode: self.mode,
        }
    }
}

/// What a store says of an editor's session.
#[derive(Debug, PartialEq, Eq)]
pub struct SessionSummary {
    pub session_id: String,
    pub namespace: String,
    pub cwd: String,
    pub title: Option<String>,
    pub has_messages: bool,
    pub is_closed: bool,
    /// When its file was last written, in seconds and nanoseconds since the epoch.
    pub modified: Option<(i64, u32)>,
}

/// What an editor is told of a session in a listing.
#[derive(Debug, PartialEq, Eq)]
pub struct SessionInfo {
    pub session_id: String,
    pub cwd: String,
    pub title: Option<String>,
    pub updated_at: Option<String>,
}

/// Whether an editor in a namespace may take up a session: it is of that namespace
/// and was not closed.
pub open spec fn adoptable(summary: SessionSummary, namespace: Seq<char>) -> bool {
    summary.namespace@ == namespace && !summary.is_closed
}

/// Whether an editor in a namespace is shown a session: something was said in it,
/// it may be taken up, and it is where the editor asks about, if it asks.
pub open spec fn is_listed(
    summary: SessionSummary,
    namespace: Seq<char>,
    cwd: Option<Seq<char>>,
) -> bool {
    &&& summary.has_messages
    &&& adoptable(summary, namespace)
    &&& cwd is Some ==> cwd == Some(summary.cwd@)
}

/// Whether a listing says of a session what its store does.
pub open spec fn tells(info: SessionInfo, summary: SessionSummary) -> bool {
    &&& info.session_id@ == summary.session_id@
    &&& info.cwd@ == summary.cwd@
    &&& info.title.deep_view() == summary.title.deep_view()
    &&& info.updated_at.deep_view() == match summary.modified {
        Some((secs, nanos)) => rfc3339_text(secs as int, nanos as int),
        None => None,
    }
}

/// Whether a listing says of sessions what their store does, one by one.
pub open spec fn tell_all(infos: Seq<SessionInfo>, summaries: Seq<SessionSummary>) -> bool {
    &&& infos.len() == summaries.len()
    &&& forall|i: int| 0 <= i < infos.len() ==> tells(#[trigger] infos[i], summaries[i])
}

/// The sessions that an editor in a namespace is shown.
pub open spec fn listing(
    summaries: Seq<SessionSummary>,
    namespace: Seq<char>,
    cwd: Option<Seq<char>>,
) -> Seq<SessionSummary> {
    summaries.filter(|s: SessionSummary| is_listed(s, namespace, cwd))
}

/// Lists sessions for an editor that is in a room.
pub fn list_sessions(
    config: &ServerConfig,
    profile_name: &str,
    summaries: &Vec<SessionSummary>,
    wanted_cwd: Option<&str>,
) -> (r: Vec<SessionInfo>)
    requires
        config.wf(),
    ensures
        ({
            let want = listing(
                summaries@,
                config.namespace_of(profile_name@),
                text::opt(wanted_cwd),
            );
            &&& r.len() == want.len()
            &&& tell_all(r@, want)
        }),
{
    let namespace = config.namespace_for_room_profile(profile_name);
    let ghost shown = |s: SessionSummary| is_listed(s, namespace@, text::opt(wanted_cwd));
    let mut r: Vec<SessionInfo> = Vec::new();
    let mut i: usize = 0;
    proof {
        reveal(Seq::filter);
    }
    while i < summaries.len()
        invariant
            i <= summaries.len(),
            shown == (|s: SessionSummary| is_listed(s, namespace@, text::opt(wanted_cwd))),
            r.len() == summaries@.take(i as int).filter(shown).len(),
            forall|k: int|
                0 <= k < r.len() ==> tells(
                    #[trigger] r@[k],
                    summaries@.take(i as int).filter(shown)[k],
                ),
        decreases summaries.len() - i,
    {
        let summary = &summaries[i];
        proof {
            let part = summaries@.take(i + 1);
            assert(part.drop_last() =~= summaries@.take(i as int));
            assert(part.last() == *summary);
            reveal(Seq::filter);
        }
        let here = match wanted_cwd {
            Some(wanted) => text::same(summary.cwd.as_str(), wanted),
            None => true,
        };
        if summary.has_messages && !summary.is_closed && text::same(
            summary.namespace.as_str(),
            namespace.as_str(),
        ) && here {
            let updated_at = match summary.modified {
                Some((secs, nanos)) => rfc3339(secs, nanos),
                None => None,
            };
            r.push(
                SessionInfo {
                    session_id: summary.session_id.clone(),
                    cwd: summary.cwd.clone(),
                    title: text::copy_option(&summary.title),
                    updated_at,
                },
            );
        }
        i += 1;
    }
    assert(summaries@.take(i as int) =~= summaries@);
    r
}

/// What an editor is shown, it may take up.
pub proof fn listed_sessions_can_be_adopted(
    summaries: Seq<SessionSummary>,
    namespace: Seq<char>,
    cwd: Option<Seq<char>>,
    i: int,
)
    requires
        0 <= i < listing(summaries, namespace, cwd).len(),
    ensures
        adoptable(listing(summaries, namespace, cwd)[i], namespace),
        listing(summaries, namespace, cwd)[i].has_messages,
{
    summaries.lemma_filter_pred(|s: SessionSummary| is_listed(s, namespace, cwd), i);
}

/// One more than a count, as far as counts go.
pub open spec fn one_more(count: usize) -> usize {
    if count < usize::MAX {
        (count + 1) as usize
    } else {
        count
    }
}

/// The counts after one more connection holds a session.
pub open spec fn opened(open: Map<Seq<char>, usize>, id: Seq<char>) -> Map<Seq<char>, usize> {
    open.insert(
        id,
        one_more(
            if open.contains_key(id) {
                open[id]
            } else {
                0
            },
        ),
    )
}

/// The counts after one connection less holds a session; a session that none holds
/// is not counted.
pub open spec fn closed_one(open: Map<Seq<char>, usize>, id: Seq<char>) -> Map<Seq<char>, usize> {
    if !open.contains_key(id) {
        open
    } else if open[id] <= 1 {
        open.remove(id)
    } else {
        open.insert(id, (open[id] - 1) as usize)
    }
}

/// The counts after a connection that held these sessions is gone.
pub open spec fn released(open: Map<Seq<char>, usize>, held: Seq<Seq<char>>) -> Map<
    Seq<char>,
    usize,
>
    decreases held.len(),
{
    if held.len() == 0 {
        open
    } else {
        closed_one(released(open, held.drop_last()), held.last())
    }
}

/// The counts after a connection took up these sessions.
pub open spec fn opened_all(open: Map<Seq<char>, usize>, held: Seq<Seq<char>>) -> Map<
    Seq<char>,
    usize,
>
    decreases held.len(),
{
    if held.len() == 0 {
        open
    } else {
        opened(opened_all(open, held.drop_last()), held.last())
    }
}

/// How many connections hold a session.
pub open spec fn holders(open: Map<Seq<char>, usize>, id: Seq<char>) -> int {
    if open.contains_key(id) {
        open[id] as int
    } else {
        0
    }
}

/// How often a connection took up a session.
pub open spec fn times(held: Seq<Seq<char>>, id: Seq<char>) -> int
    decreases held.len(),
{
    if held.len() == 0 {
        0
    } else {
        times(held.drop_last(), id) + if held.last() == id {
            1int
        } else {
            0
        }
    }
}

/// Whether counts are counts of connections: a session that none holds is not
/// counted.
pub open spec fn counts(open: Map<Seq<char>, usize>) -> bool {
    forall|id: Seq<char>| #[trigger] open.contains_key(id) ==> open[id] > 0
}

proof fn lemma_times(held: Seq<Seq<char>>, id: Seq<char>)
    ensures
        0 <= times(held, id) <= held.len(),
    decreases held.len(),
{
    if held.len() > 0 {
        lemma_times(held.drop_last(), id);
    }
}

/// Taking up sessions counts each as often as it is taken up, as far as numbers go.
pub proof fn sessions_are_counted(
    open: Map<Seq<char>, usize>,
    held: Seq<Seq<char>>,
    id: Seq<char>,
)
    requires
        counts(open),
        holders(open, id) + times(held, id) <= usize::MAX,
    ensures
        holders(opened_all(open, held), id) == holders(open, id) + times(held, id),
        opened_all(open, held).contains_key(id) == (holders(open, id) + times(held, id) > 0),
    decreases held.len(),
{
    if held.len() > 0 {
        let before = held.drop_last();
        lemma_times(before, id);
        sessions_are_counted(open, before, id);
    }
}

/// A connection that goes gives up each session as often as it took it up, and none
/// that nobody holds: nothing is counted below nothing, and the other sessions keep
/// their counts. A connection may have taken one up more than once.
pub proof fn releases_are_counted(
    open: Map<Seq<char>, usize>,
    held: Seq<Seq<char>>,
    id: Seq<char>,
)
    requires
        counts(open),
    ensures
        holders(released(open, held), id) == if holders(open, id) > times(held, id) {
            holders(open, id) - times(held, id)
        } else {
            0
        },
        released(open, held).contains_key(id) == (holders(open, id) > times(held, id)),
    decreases held.len(),
{
    if held.len() > 0 {
        let before = held.drop_last();
        lemma_times(before, id);
        releases_are_counted(open, before, id);
    }
}

/// A connection leaves no trace in the counts: when it is gone, they are what they
/// were before it took up its sessions, however often it took up each.
pub proof fn connections_leave_no_count_behind(
    open: Map<Seq<char>, usize>,
    held: Seq<Seq<char>>,
)
    requires
        counts(open),
        forall|id: Seq<char>| #[trigger]
            holders(open, id) + times(held, id) <= usize::MAX,
    ensures
        released(opened_all(open, held), held) == open,
{
    let mid = opened_all(open, held);
    let end = released(mid, held);
    assert forall|id: Seq<char>| #[trigger] mid.contains_key(id) implies mid[id] > 0 by {
        assert(holders(open, id) + times(held, id) <= usize::MAX);
        lemma_times(held, id);
        sessions_are_counted(open, held, id);
    }
    assert forall|id: Seq<char>| #[trigger] end.dom().contains(id) == open.dom().contains(id) && (
    open.dom().contains(id) ==> end[id] == open[id]) by {
        assert(holders(open, id) + times(held, id) <= usize::MAX);
        lemma_times(held, id);
        sessions_are_counted(open, held, id);
        releases_are_counted(mid, held, id);
    }
    assert(end =~= open);
}

impl ServeState {
    /// Counts one more connection that holds a session, and tells how many do.
    pub fn count_session_open(&mut self, id: &str) -> (r: usize)
        requires
            old(self).wf(),
        ensures
            final(self).wf(),
            final(self).open_acp_sessions@ == opened(old(self).open_acp_sessions@, id@),
            r == final(self).open_acp_sessions@[id@],
            *final(self) == (ServeState {
                open_acp_sessions: final(self).open_acp_sessions,
                ..*old(self)
            }),
    {
        let count: usize = match self.open_acp_sessions.get(id) {
            Some(n) => *n,
            None => 0,
        };
        let count: usize = if count < usize::MAX {
            count + 1
        } else {
            count
        };
        self.open_acp_sessions.insert(id.to_owned(), count);
        count
    }

    /// Counts one connection less for each session that it held. Terminals stay:
    /// a build must not die because a socket did.
    pub fn release_connection_sessions(&mut self, held: &Vec<String>)
        requires
            old(self).wf(),
        ensures
            final(self).wf(),
            final(self).open_acp_sessions@ == released(
                old(self).open_acp_sessions@,
                held.deep_view(),
            ),
            *final(self) == (ServeState {
                open_acp_sessions: final(self).open_acp_sessions,
                ..*old(self)
            }),
    {
        let ghost all = held.deep_view();
        let ghost before = *self;
        let mut i: usize = 0;
        while i < held.len()
            invariant
                i <= held.len(),
                all == held.deep_view(),
                self.wf(),
                self.open_acp_sessions@ == released(
                    before.open_acp_sessions@,
                    all.take(i as int),
                ),
                *self == (ServeState { open_acp_sessions: self.open_acp_sessions, ..before }),
            decreases held.len() - i,
        {
            assert(all.take(i + 1).drop_last() =~= all.take(i as int));
            assert(all.take(i + 1).last() == held@[i as int]@);
            let id = held[i].as_str();
            let count: Option<usize> = match self.open_acp_sessions.get(id) {
                Some(n) => Some(*n),
                None => None,
            };
            if let Some(n) = count {
                if n <= 1 {
                    self.open_acp_sessions.remove(id);
                } else {
                    self.open_acp_sessions.insert(held[i].clone(), n - 1);
                }
            }
            i += 1;
        }
        assert(all.take(i as int) =~= all);
    }
}

/// The connection of an editor.
pub struct AcpConnection {
    /// The room that the editor's token leads to.
    pub profile_name: String,
    /// The sessions that the editor holds.
    pub sessions: Table<AcpSession>,
    /// The number of the next turn.
    pub next_turn: u64,
    /// What the editor said that it can do.
    pub client_capabilities: ClientCapabilities,
}

/// The sessions that a connection holds, by their identifiers.
pub type Held = Map<Seq<char>, AcpSessionView>;

/// Whether a turn runs on a session.
pub open spec fn runs_on(held: Held, session_id: Seq<char>, turn: u64) -> bool {
    held.contains_key(session_id) && held[session_id].turns.contains(turn)
}

/// Whether one turn of a session has ended, and nothing else has changed.
pub open spec fn ended(before: Held, after: Held, session_id: Seq<char>, turn: u64) -> bool {
    &&& forall|s: Seq<char>, t: u64| #[trigger]
        runs_on(after, s, t) == (runs_on(before, s, t) && !(s == session_id && t == turn))
    &&& forall|s: Seq<char>| #[trigger]
        after.contains_key(s) ==> after[s] == (AcpSessionView {
            turns: after[s].turns,
            ..before[s]
        })
}

/// What a user sent, taken up as a turn.
#[derive(Debug, PartialEq)]
pub struct PromptTurn {
    pub turn: u64,
    pub host: AcpProgress,
}

/// How a turn came to its end.
#[derive(Debug, PartialEq)]
pub enum TurnEnd {
    /// The editor asked for it to stop, or went away.
    Cancelled,
    Ran(LlmTurnOutcome),
}

/// Why a turn is over, as the editor is told.
#[derive(Clone, Copy, Debug, PartialEq, Eq, Structural)]
pub enum StopReason {
    EndTurn,
    MaxTurnRequests,
    Cancelled,
}

/// What an editor is answered to what its user sent.
#[derive(Debug, PartialEq, Eq)]
pub enum PromptAnswer {
    Stop(StopReason),
    /// The turn failed; that is no reason to stop that an editor knows.
    InternalError(String),
}

/// The mathematical value of a [`PromptAnswer`].
pub enum PromptAnswerView {
    Stop(StopReason),
    InternalError(Seq<char>),
}

impl View for PromptAnswer {
    type V = PromptAnswerView;

    open spec fn view(&self) -> PromptAnswerView {
        match self {
            PromptAnswer::Stop(reason) => PromptAnswerView::Stop(*reason),
            PromptAnswer::InternalError(message) => PromptAnswerView::InternalError(message@),
        }
    }
}

/// What an editor is answered to what its user sent.
pub open spec fn answer_of(
    end: TurnEnd,
    was_cancelled: bool,
    failure: Option<Seq<char>>,
) -> PromptAnswerView {
    match end {
        TurnEnd::Cancelled => PromptAnswerView::Stop(StopReason::Cancelled),
        TurnEnd::Ran(outcome) => if outcome.text is Some {
            PromptAnswerView::Stop(StopReason::EndTurn)
        } else if was_cancelled {
            PromptAnswerView::Stop(StopReason::Cancelled)
        } else if outcome.stop is BudgetExhausted {
            PromptAnswerView::Stop(StopReason::MaxTurnRequests)
        } else {
            PromptAnswerView::InternalError(
                match failure {
                    Some(f) => f,
                    None => "the turn produced no reply"@,
                },
            )
        },
    }
}

/// What an editor is answered to what its user sent. A turn that was being
/// cancelled when it failed was cancelled. The reply itself went out before.
pub fn prompt_answer(end: TurnEnd, was_cancelled: bool, failure: Option<String>) -> (r:
    PromptAnswer)
    ensures
        r@ == answer_of(end, was_cancelled, failure.deep_view()),
{
    let outcome = match end {
        TurnEnd::Cancelled => {
            return PromptAnswer::Stop(StopReason::Cancelled);
        },
        TurnEnd::Ran(outcome) => outcome,
    };
    if outcome.text.is_some() {
        return PromptAnswer::Stop(StopReason::EndTurn);
    }
    if was_cancelled {
        return PromptAnswer::Stop(StopReason::Cancelled);
    }
    match outcome.stop {
        TurnStop::BudgetExhausted { .. } => PromptAnswer::Stop(StopReason::MaxTurnRequests),
        _ => PromptAnswer::InternalError(
            match failure {
                Some(f) => f,
                None => "the turn produced no reply".to_owned(),
            },
        ),
    }
}

/// The one refusal for every session that cannot be taken up, whatever the reason.
pub open spec fn no_such_session() -> AcpErrorView {
    AcpErrorView::InvalidParams("no such session is available on this connection"@)
}

impl AcpConnection {
    /// The sessions that the editor holds.
    pub open spec fn held(self) -> Held {
        self.sessions.deep_view()
    }

    /// What holds of every connection: a turn runs on one session only, once, and
    /// its number is not given out again.
    pub open spec fn wf(self) -> bool {
        &&& self.sessions.wf()
        &&& forall|s: Seq<char>| #[trigger]
            self.held().contains_key(s) ==> self.held()[s].turns.no_duplicates()
        &&& forall|s: Seq<char>, t: u64| #[trigger]
            runs_on(self.held(), s, t) ==> t < self.next_turn
        &&& forall|a: Seq<char>, b: Seq<char>, t: u64|
            #[trigger] runs_on(self.held(), a, t) && #[trigger] runs_on(self.held(), b, t) ==> a
                == b
    }

    /// A connection that holds nothing.
    pub fn new(profile_name: String) -> (r: AcpConnection)
        ensures
            r.wf(),
            r.profile_name == profile_name,
            r.held() == Held::empty(),
            r.next_turn == 0,
            r.client_capabilities == (ClientCapabilities {
                read_text_file: false,
                write_text_file: false,
                terminal: false,
            }),
    {
        let r = AcpConnection {
            profile_name,
            sessions: Table::new(),
            next_turn: 0,
            client_capabilities: ClientCapabilities::none(),
        };
        assert(r.held() =~= Held::empty());
        r
    }

    /// Notes what the editor can do and tells it what is spoken here. That is the
    /// one version, whatever the editor asks for.
    pub fn initialize(&mut self, capabilities: ClientCapabilities, requested_version: u16) -> (r:
        InitializeAnswer)
        requires
            old(self).wf(),
        ensures
            final(self).wf(),
            *final(self) == (AcpConnection { client_capabilities: capabilities, ..*old(self) }),
            r == (InitializeAnswer {
                protocol_version: PROTOCOL_VERSION,
                load_session: true,
                list_sessions: true,
                resume_session: true,
            }),
    {
        self.client_capabilities = capabilities;
        let protocol_version: u16 = if requested_version == PROTOCOL_VERSION {
            requested_version
        } else {
            PROTOCOL_VERSION
        };
        InitializeAnswer {
            protocol_version,
            load_session: true,
            list_sessions: true,
            resume_session: true,
        }
    }

    /// A fresh identifier for a session.
    pub fn mint_session_id() -> (r: String)
        ensures
            is_uuid_v7(r@),
    {
        fresh_uuid()
    }

    /// Puts a new session into the editor's room, and tells under which namespace
    /// its file is to be made.
    pub fn begin_session(&self, state: &mut ServeState, config: &ServerConfig, id: &str) -> (r:
        String)
        requires
            old(state).wf(),
            config.wf(),
        ensures
            final(state).wf(),
            r@ == config.namespace_of(self.profile_name@),
            final(state).session_room_profiles.deep_view()
                == old(state).session_room_profiles.deep_view().insert(id@, self.profile_name@),
            *final(state) == (ServeState {
                session_room_profiles: final(state).session_room_profiles,
                ..*old(state)
            }),
    {
        let ghost rooms = state.session_room_profiles.deep_view();
        state.session_room_profiles.insert(id.to_owned(), self.profile_name.clone());
        assert(state.session_room_profiles.deep_view() =~= rooms.insert(
            id@,
            self.profile_name@,
        ));
        config.namespace_for_room_profile(self.profile_name.as_str())
    }

    fn put(&mut self, id: &str, session: AcpSession)
        requires
            old(self).wf(),
            session.turns@.no_duplicates(),
            forall|t: u64| #[trigger]
                session.turns@.contains(t) ==> t < old(self).next_turn && forall|s: Seq<char>|
                    #[trigger] runs_on(old(self).held(), s, t) ==> s == id@,
        ensures
            final(self).wf(),
            final(self).held() == old(self).held().insert(id@, session.deep_view()),
            *final(self) == (AcpConnection { sessions: final(self).sessions, ..*old(self) }),
    {
        let ghost before = self.held();
        let ghost view = session.deep_view();
        self.sessions.insert(id.to_owned(), session);
        assert(self.held() =~= before.insert(id@, view));
        proof {
            let now = self.held();
            assert forall|s: Seq<char>, t: u64| #[trigger] runs_on(now, s, t) implies t
                < self.next_turn by {
                if s != id@ {
                    assert(runs_on(before, s, t));
                }
            }
            assert forall|a: Seq<char>, b: Seq<char>, t: u64|
                #[trigger] runs_on(now, a, t) && #[trigger] runs_on(now, b, t) implies a == b by {
                if a != id@ {
                    assert(runs_on(before, a, t));
                }
                if b != id@ {
                    assert(runs_on(before, b, t));
                }
            }
        }
    }

    /// Holds a new session, once its file was made. Where it could not be, the
    /// editor holds nothing new.
    pub fn session_created(
        &mut self,
        state: &mut ServeState,
        id: &str,
        cwd: String,
        outcome: Result<(), String>,
    ) -> (r: Result<(), AcpError>)
        requires
            old(self).wf(),
            old(state).wf(),
        ensures
            final(self).wf(),
            final(state).wf(),
            match outcome {
                Err(e) => {
                    &&& r matches Err(error)
                    &&& error@ == AcpErrorView::Internal(e@)
                    &&& *final(self) == *old(self)
                    &&& *final(state) == *old(state)
                },
                Ok(()) => {
                    &&& r is Ok
                    &&& final(self).held() == old(self).held().insert(
                        id@,
                        AcpSessionView {
                            cwd: cwd@,
                            client_capabilities: old(self).client_capabilities,
                            turns: Seq::empty(),
                            mode: SessionMode::Default,
                        },
                    )
                    &&& *final(self) == (AcpConnection {
                        sessions: final(self).sessions,
                        ..*old(self)
                    })
                    &&& final(state).acp_sessions@ == old(state).acp_sessions@.insert(id@, ())
                    &&& final(state).open_acp_sessions@ == opened(
                        old(state).open_acp_sessions@,
                        id@,
                    )
                    &&& *final(state) == (ServeState {
                        acp_sessions: final(state).acp_sessions,
                        open_acp_sessions: final(state).open_acp_sessions,
                        ..*old(state)
                    })
                },
            },
    {
        match outcome {
            Err(e) => Err(AcpError::Internal(e)),
            Ok(()) => {
                state.acp_sessions.insert(id.to_owned(), ());
                state.count_session_open(id);
                let turns: Vec<u64> = Vec::new();
                assert(turns@ =~= Seq::empty());
                let session = AcpSession {
                    cwd,
                    client_capabilities: self.client_capabilities,
                    turns,
                    mode: SessionMode::Default,
                };
                self.put(id, session);
                Ok(())
            },
        }
    }

    /// The turns that run on a session; none on one that is not held.
    pub open spec fn turns_of(self, session_id: Seq<char>) -> Seq<u64> {
        if self.held().contains_key(session_id) {
            self.held()[session_id].turns
        } else {
            Seq::empty()
        }
    }

    fn copy_turns(&self, session_id: &str) -> (r: Option<Vec<u64>>)
        requires
            self.wf(),
        ensures
            match r {
                Some(turns) => self.held().contains_key(session_id@) && turns@
                    == self.held()[session_id@].turns,
                None => !self.held().contains_key(session_id@),
            },
    {
        match self.sessions.get(session_id) {
            Some(session) => {
                let mut r: Vec<u64> = Vec::new();
                let mut i: usize = 0;
                while i < session.turns.len()
                    invariant
                        i <= session.turns.len(),
                        r@ == session.turns@.take(i as int),
                    decreases session.turns.len() - i,
                {
                    r.push(session.turns[i]);
                    assert(session.turns@.take(i + 1) =~= session.turns@.take(i as int).push(
                        session.turns@[i as int],
                    ));
                    i += 1;
                }
                assert(session.turns@.take(i as int) =~= session.turns@);
                Some(r)
            },
            None => None,
        }
    }

    /// Takes up a session that is kept. One that there is not, that is of another
    /// namespace or that was closed is refused in the same words, so that the
    /// answers cannot be told apart. A session that the editor holds already is
    /// not counted again, and its turns run on.
    pub fn adopt_session(
        &mut self,
        state: &mut ServeState,
        config: &ServerConfig,
        session_id: &str,
        cwd: String,
        summary: Option<&SessionSummary>,
    ) -> (r: Result<(), AcpError>)
        requires
            old(self).wf(),
            old(state).wf(),
            config.wf(),
        ensures
            final(self).wf(),
            final(state).wf(),
            r is Ok == (summary is Some && adoptable(
                *summary.unwrap(),
                config.namespace_of(old(self).profile_name@),
            )),
            match r {
                Err(error) => {
                    &&& error@ == no_such_session()
                    &&& *final(self) == *old(self)
                    &&& *final(state) == *old(state)
                },
                Ok(()) => {
                    &&& final(self).held() == old(self).held().insert(
                        session_id@,
                        AcpSessionView {
                            cwd: cwd@,
                            client_capabilities: old(self).client_capabilities,
                            turns: old(self).turns_of(session_id@),
                            mode: SessionMode::Default,
                        },
                    )
                    &&& *final(self) == (AcpConnection {
                        sessions: final(self).sessions,
                        ..*old(self)
                    })
                    &&& final(state).session_room_profiles.deep_view()
                        == old(state).session_room_profiles.deep_view().insert(
                        session_id@,
                        old(self).profile_name@,
                    )
                    &&& final(state).acp_sessions@ == old(state).acp_sessions@.insert(
                        session_id@,
                        (),
                    )
                    &&& final(state).open_acp_sessions@ == if old(self).held().contains_key(
                        session_id@,
                    ) {
                        old(state).open_acp_sessions@
                    } else {
                        opened(old(state).open_acp_sessions@, session_id@)
                    }
                    &&& *final(state) == (ServeState {
                        session_room_profiles: final(state).session_room_profiles,
                        acp_sessions: final(state).acp_sessions,
                        open_acp_sessions: final(state).open_acp_sessions,
                        ..*old(state)
                    })
                },
            },
    {
        let namespace = config.namespace_for_room_profile(self.profile_name.as_str());
        let available = match summary {
            Some(s) => text::same(s.namespace.as_str(), namespace.as_str()) && !s.is_closed,
            None => false,
        };
        if !available {
            return Err(
                AcpError::InvalidParams(
                    "no such session is available on this connection".to_owned(),
                ),
            );
        }
        let ghost rooms = state.session_room_profiles.deep_view();
        state.session_room_profiles.insert(session_id.to_owned(), self.profile_name.clone());
        assert(state.session_room_profiles.deep_view() =~= rooms.insert(
            session_id@,
            self.profile_name@,
        ));
        state.acp_sessions.insert(session_id.to_owned(), ());
        let running = self.copy_turns(session_id);
        let already_held = running.is_some();
        let turns: Vec<u64> = match running {
            Some(t) => t,
            None => Vec::new(),
        };
        assert(turns@ =~= self.turns_of(session_id@));
        proof {
            assert forall|t: u64| #[trigger] turns@.contains(t) implies t < self.next_turn && (
            forall|s: Seq<char>| #[trigger]
                runs_on(self.held(), s, t) ==> s == session_id@) by {
                assert(runs_on(self.held(), session_id@, t));
            }
        }
        let session = AcpSession {
            cwd,
            client_capabilities: self.client_capabilities,
            turns,
            mode: SessionMode::Default,
        };
        self.put(session_id, session);
        if !already_held {
            state.count_session_open(session_id);
        }
        Ok(())
    }

    /// The turns that a cancellation of a session reaches: every one that runs on
    /// it. A session that is not held has none to name.
    pub fn cancel(&self, session_id: &str) -> (r: Option<Vec<u64>>)
        requires
            self.wf(),
        ensures
            match r {
                Some(turns) => self.held().contains_key(session_id@) && turns@ == self.turns_of(
                    session_id@,
                ),
                None => !self.held().contains_key(session_id@),
            },
    {
        self.copy_turns(session_id)
    }

    /// Puts a session into a mode and announces that. A mode that there is not is
    /// refused, and so is a session that is not held.
    pub fn set_mode(&mut self, session_id: &str, mode: &str) -> (r: Result<
        SessionUpdate,
        AcpError,
    >)
        requires
            old(self).wf(),
        ensures
            final(self).wf(),
            match r {
                Ok(update) => {
                    &&& old(self).held().contains_key(session_id@)
                    &&& update@ == UpdateView::CurrentModeUpdate(mode@)
                    &&& exists|m: SessionMode|
                        #![trigger mode_id(m)]
                        mode_id(m) == mode@ && final(self).held() == old(self).held().insert(
                            session_id@,
                            AcpSessionView { mode: m, ..old(self).held()[session_id@] },
                        )
                    &&& *final(self) == (AcpConnection {
                        sessions: final(self).sessions,
                        ..*old(self)
                    })
                },
                Err(error) => {
                    &&& final(self).held() == old(self).held()
                    &&& *final(self) == (AcpConnection {
                        sessions: final(self).sessions,
                        ..*old(self)
                    })
                    &&& if exists|m: SessionMode| #![trigger mode_id(m)] mode_id(m) == mode@ {
                        &&& !old(self).held().contains_key(session_id@)
                        &&& error@ == AcpErrorView::InvalidParams(
                            "unknown session '"@ + session_id@ + "'"@,
                        )
                    } else {
                        error@ == AcpErrorView::InvalidParams("unknown mode '"@ + mode@ + "'"@)
                    }
                },
            },
    {
        let picked = match SessionMode::from_id(mode) {
            Some(m) => m,
            None => {
                return Err(
                    AcpError::InvalidParams(
                        "unknown mode '".to_owned().concat(mode).concat("'"),
                    ),
                );
            },
        };
        assert(mode_id(picked) == mode@);
        let ghost before = self.held();
        match self.sessions.get(session_id) {
            None => Err(
                AcpError::InvalidParams(
                    "unknown session '".to_owned().concat(session_id).concat("'"),
                ),
            ),
            Some(session) => {
                let cwd = session.cwd.clone();
                let client_capabilities = session.client_capabilities;
                let turns = match self.copy_turns(session_id) {
                    Some(t) => t,
                    None => Vec::new(),
                };
                proof {
                    assert forall|t: u64| #[trigger] turns@.contains(t) implies t < self.next_turn
                        && (forall|s: Seq<char>| #[trigger]
                        runs_on(before, s, t) ==> s == session_id@) by {
                        assert(runs_on(before, session_id@, t));
                    }
                }
                self.put(
                    session_id,
                    AcpSession { cwd, client_capabilities, turns, mode: picked },
                );
                Ok(SessionUpdate::CurrentModeUpdate(picked.id().to_owned()))
            },
        }
    }

    /// Takes up what a user sent as a turn of a session. A session that is not held
    /// is not opened on the fly.
    pub fn begin_prompt(&mut self, session_id: &str) -> (r: Result<PromptTurn, AcpError>)
        requires
            old(self).wf(),
            old(self).next_turn < u64::MAX,
        ensures
            final(self).wf(),
            final(self).next_turn == old(self).next_turn + 1,
            final(self).profile_name == old(self).profile_name,
            final(self).client_capabilities == old(self).client_capabilities,
            match r {
                Ok(prompt) => {
                    let session = old(self).held()[session_id@];
                    &&& old(self).held().contains_key(session_id@)
                    &&& prompt.turn == old(self).next_turn
                    &&& final(self).held() == old(self).held().insert(
                        session_id@,
                        AcpSessionView { turns: session.turns.push(prompt.turn), ..session },
                    )
                    &&& prompt.host.session_id@ == session_id@
                    &&& prompt.host.profile@ == old(self).profile_name@
                    &&& prompt.host.mode == session.mode
                    &&& prompt.host.client_capabilities == session.client_capabilities
                    &&& prompt.host.cwd@ == session.cwd
                    &&& prompt.host.error is None
                },
                Err(error) => {
                    &&& !old(self).held().contains_key(session_id@)
                    &&& final(self).held() == old(self).held()
                    &&& error@ == AcpErrorView::InvalidParams(
                        "unknown session '"@ + session_id@ + "'; call session/new first"@,
                    )
                },
            },
    {
        let turn: u64 = self.next_turn;
        let ghost before = self.held();
        self.next_turn = turn + 1;
        match self.sessions.get(session_id) {
            None => Err(
                AcpError::InvalidParams(
                    "unknown session '".to_owned().concat(session_id).concat(
                        "'; call session/new first",
                    ),
                ),
            ),
            Some(session) => {
                let cwd = session.cwd.clone();
                let client_capabilities = session.client_capabilities;
                let mode = session.mode;
                let mut turns = match self.copy_turns(session_id) {
                    Some(t) => t,
                    None => Vec::new(),
                };
                let ghost running = turns@;
                turns.push(turn);
                proof {
                    assert(!running.contains(turn)) by {
                        if running.contains(turn) {
                            assert(runs_on(before, session_id@, turn));
                        }
                    }
                    assert(turns@.no_duplicates());
                    assert forall|t: u64| #[trigger] turns@.contains(t) implies t < self.next_turn
                        && (forall|s: Seq<char>| #[trigger]
                        runs_on(before, s, t) ==> s == session_id@) by {
                        if t != turn {
                            let k = choose|k: int| 0 <= k < turns@.len() && turns@[k] == t;
                            assert(running[k] == t);
                            assert(runs_on(before, session_id@, t));
                        }
                    }
                }
                let host = AcpProgress::new(
                    session_id.to_owned(),
                    self.profile_name.clone(),
                    mode,
                    client_capabilities,
                    cwd.clone(),
                );
                self.put(session_id, AcpSession { cwd, client_capabilities, turns, mode });
                Ok(PromptTurn { turn, host })
            },
        }
    }

    /// Drops a turn that is over, so that a later cancellation does not reach it.
    pub fn end_prompt(&mut self, session_id: &str, turn: u64)
        requires
            old(self).wf(),
        ensures
            final(self).wf(),
            final(self).held().dom() == old(self).held().dom(),
            ended(old(self).held(), final(self).held(), session_id@, turn),
            *final(self) == (AcpConnection { sessions: final(self).sessions, ..*old(self) }),
    {
        let ghost before = self.held();
        match self.sessions.get(session_id) {
            None => {},
            Some(session) => {
                let cwd = session.cwd.clone();
                let client_capabilities = session.client_capabilities;
                let mode = session.mode;
                let ghost running = session.turns@;
                assert(before.contains_key(session_id@) && before[session_id@].turns == running);
                let mut left: Vec<u64> = Vec::new();
                let mut i: usize = 0;
                while i < session.turns.len()
                    invariant
                        i <= session.turns.len(),
                        running == session.turns@,
                        running.no_duplicates(),
                        left@.no_duplicates(),
                        forall|t: u64| #[trigger]
                            left@.contains(t) == (t != turn && running.take(i as int).contains(t)),
                    decreases session.turns.len() - i,
                {
                    let t: u64 = session.turns[i];
                    let ghost earlier = left@;
                    proof {
                        let part = running.take(i as int);
                        let more = running.take(i + 1);
                        assert(more =~= part.push(t));
                        assert(!part.contains(t)) by {
                            if part.contains(t) {
                                let k = choose|k: int| 0 <= k < part.len() && part[k] == t;
                                assert(running[k] == running[i as int]);
                            }
                        }
                        assert forall|u: u64| #[trigger] more.contains(u) == (part.contains(u) || u
                            == t) by {
                            if part.contains(u) {
                                let k = choose|k: int| 0 <= k < part.len() && part[k] == u;
                                assert(more[k] == u);
                            }
                            assert(more[i as int] == t);
                        }
                    }
                    if t != turn {
                        left.push(t);
                        proof {
                            assert forall|u: u64| #[trigger] left@.contains(u) == (earlier.contains(
                                u,
                            ) || u == t) by {
                                if earlier.contains(u) {
                                    let k = choose|k: int|
                                        0 <= k < earlier.len() && earlier[k] == u;
                                    assert(left@[k] == u);
                                }
                                assert(left@[earlier.len() as int] == t);
                            }
                            assert(!earlier.contains(t));
                        }
                    }
                    i += 1;
                }
                proof {
                    assert(running.take(i as int) =~= running);
                    assert forall|t: u64| #[trigger] left@.contains(t) implies t < self.next_turn
                        && (forall|s: Seq<char>| #[trigger]
                        runs_on(before, s, t) ==> s == session_id@) by {
                        assert(runs_on(before, session_id@, t));
                    }
                }
                self.put(session_id, AcpSession { cwd, client_capabilities, turns: left, mode });
                assert(self.held().dom() =~= before.dom());
            },
        }
    }

    /// Lets go of every session when the connection is gone.
    pub fn close(self, state: &mut ServeState)
        requires
            self.wf(),
            old(state).wf(),
        ensures
            final(state).wf(),
            final(state).open_acp_sessions@ == released(
                old(state).open_acp_sessions@,
                self.sessions.keys(),
            ),
            *final(state) == (ServeState {
                open_acp_sessions: final(state).open_acp_sessions,
                ..*old(state)
            }),
    {
        let n: usize = self.sessions.len();
        let mut ids: Vec<String> = Vec::new();
        let mut i: usize = 0;
        while i < n
            invariant
                i <= n,
                n == self.sessions.keys().len(),
                ids.len() == i,
                forall|k: int| 0 <= k < i ==> #[trigger] ids@[k]@ == self.sessions.keys()[k],
            decreases n - i,
        {
            ids.push(self.sessions.key(i).clone());
            i += 1;
        }
        assert(ids.deep_view() =~= self.sessions.keys());
        state.release_connection_sessions(&ids);
    }
}

/// A cancellation of one session never reaches a turn of another.
pub proof fn cancel_stays_in_its_session(
    connection: AcpConnection,
    a: Seq<char>,
    b: Seq<char>,
    turn: u64,
)
    requires
        connection.wf(),
        a != b,
        connection.turns_of(a).contains(turn),
    ensures
        !connection.turns_of(b).contains(turn),
{
    assert(runs_on(connection.held(), a, turn));
    if connection.turns_of(b).contains(turn) {
        assert(runs_on(connection.held(), b, turn));
    }
}

/// A turn that was told to stop is answered so, unless it had replied by then. It
/// never comes back as a failure or as out of rounds.
pub proof fn cancelled_turns_are_answered_so(end: TurnEnd, failure: Option<Seq<char>>)
    ensures
        answer_of(end, true, failure) == PromptAnswerView::Stop(
            if end is Ran && end->Ran_0.text is Some {
                StopReason::EndTurn
            } else {
                StopReason::Cancelled
            },
        ),
{
}

/// How editors are served.
#[derive(Clone, Copy, Debug, PartialEq, Eq, Structural)]
pub struct AcpConfig {
    pub enabled: bool,
    /// How many seconds pass between two pings; zero stands for no pings.
    pub keepalive_secs: u64,
}

/// What an editor comes with, before its socket is opened.
#[derive(Debug, PartialEq, Eq)]
pub struct AcpKnock {
    pub bearer: String,
    /// How many seconds pass between two pings, if there are any.
    pub keepalive: Option<u64>,
}

/// Turns an editor away before its socket is opened: where editors are not served,
/// and where it brings no bearer token.
pub fn handle_acp_ws(
    config: Option<AcpConfig>,
    headers: &axum::http::HeaderMap<axum::http::HeaderValue>,
) -> (r: Result<AcpKnock, HttpRefusal>)
    ensures
        ({
            let texts = header_texts(*headers);
            let token = if texts.contains_key("authorization"@) {
                bearer_token(texts["authorization"@])
            } else {
                None
            };
            let served = config is Some && config.unwrap().enabled;
            match r {
                Ok(knock) => {
                    &&& served
                    &&& token == Some(knock.bearer@)
                    &&& knock.keepalive == if config.unwrap().keepalive_secs > 0 {
                        Some(config.unwrap().keepalive_secs)
                    } else {
                        None
                    }
                },
                Err(refusal) => {
                    ||| !served && refuses_with(refusal, 404, "ACP disabled"@)
                    ||| served && token is None && refuses_with(
                        refusal,
                        401,
                        "missing bearer token"@,
                    )
                },
            }
        }),
{
    let keepalive_secs: u64 = match config {
        Some(c) if c.enabled => c.keepalive_secs,
        _ => {
            return Err(http_refusal(404, "ACP disabled"));
        },
    };
    match extract_bearer(headers) {
        Some(bearer) => Ok(AcpKnock { bearer, keepalive: keepalive_period(keepalive_secs) }),
        None => Err(http_refusal(401, "missing bearer token")),
    }
}

/// The room of an editor, once it is known whom its token belongs to. A token that
/// belongs to nobody is turned away too.
pub fn acp_room(resolved: Option<String>) -> (r: Result<String, HttpRefusal>)
    ensures
        match (resolved, r) {
            (Some(room), Ok(profile)) => profile == room,
            (None, Err(refusal)) => refuses_with(refusal, 401, "unknown or revoked bearer token"@),
            _ => false,
        },
{
    match resolved {
        Some(room) => Ok(room),
        None => Err(http_refusal(401, "unknown or revoked bearer token")),
    }
}

/// An editor is shown exactly the sessions of its namespace in which something was said
/// and which were not closed, and of those only the ones where it asks about, if it
/// asks; in the order in which they are kept, each by its identifier, its directory, its
/// title, and when it was last written.
pub proof fn editors_are_shown_every_session_of_theirs(
    config: ServerConfig,
    profile: &str,
    summaries: Vec<SessionSummary>,
    wanted: Option<&str>,
    r: Vec<SessionInfo>,
    namespace: String,
    i: int,
)
    requires
        call_ensures(list_sessions, (&config, profile, &summaries, wanted), r),
        call_ensures(ServerConfig::namespace_for_room_profile, (&config, profile), namespace),
    ensures
        ({
            let shown = |s: SessionSummary|
                s.has_messages && !s.is_closed && s.namespace@ == namespace@ && (wanted is None
                    || wanted.unwrap()@ == s.cwd@);
            let k = count_of(summaries@.take(i), shown) as int;
            let modified = summaries@[i].modified;
            &&& r.len() == count_of(summaries@, shown)
            &&& 0 <= i < summaries.len() && shown(summaries@[i]) ==> {
                &&& k < r.len()
                &&& r@[k].session_id@ == summaries@[i].session_id@
                &&& r@[k].cwd@ == summaries@[i].cwd@
                &&& r@[k].title.deep_view() == summaries@[i].title.deep_view()
                &&& modified is None ==> r@[k].updated_at is None
                &&& modified is Some ==> r@[k].updated_at.deep_view() == rfc3339_text(
                    modified.unwrap().0 as int,
                    modified.unwrap().1 as int,
                )
            }
        }),
{
    let shown = |s: SessionSummary|
        s.has_messages && !s.is_closed && s.namespace@ == namespace@ && (wanted is None
            || wanted.unwrap()@ == s.cwd@);
    let listed = |s: SessionSummary| is_listed(s, namespace@, text::opt(wanted));
    assert(shown =~= listed);
    let want = listing(summaries@, namespace@, text::opt(wanted));
    assert(want == summaries@.filter(listed));
    lemma_filter_place(summaries@, shown, i);
    let k = count_of(summaries@.take(i), shown) as int;
    if 0 <= i < summaries.len() && shown(summaries@[i]) {
        assert(tells(r@[k], want[k]));
        if summaries@[i].modified is None {
            assert(r@[k].updated_at.deep_view() is None);
        }
    }
}

/// One more connection is counted for a session, as far as numbers go, and none for any
/// other.
pub proof fn connections_are_counted(
    before: ServeState,
    after: ServeState,
    id: &str,
    r: usize,
    other: Seq<char>,
)
    requires
        exists|s: &mut ServeState|
            *s == before && *final(s) == after && #[trigger] call_ensures(
                ServeState::count_session_open,
                (s, id),
                r,
            ),
    ensures
        after.open_acp_sessions@.contains_key(id@),
        after.open_acp_sessions@[id@] == r,
        !before.open_acp_sessions@.contains_key(id@) ==> r == 1,
        before.open_acp_sessions@.contains_key(id@) && before.open_acp_sessions@[id@] < usize::MAX
            ==> r == before.open_acp_sessions@[id@] + 1,
        before.open_acp_sessions@.contains_key(id@) && before.open_acp_sessions@[id@]
            == usize::MAX ==> r == usize::MAX,
        other != id@ ==> after.open_acp_sessions@.contains_key(other)
            == before.open_acp_sessions@.contains_key(other),
        other != id@ && after.open_acp_sessions@.contains_key(other)
            ==> after.open_acp_sessions@[other] == before.open_acp_sessions@[other],
        after.sessions == before.sessions,
        after.acp_sessions == before.acp_sessions,
        after.acp_terminals == before.acp_terminals,
{
}

proof fn lemma_times_count(held: Seq<String>, id: Seq<char>)
    ensures
        times(held.map_values(|h: String| h@), id) == count_of(held, |h: String| h@ == id),
    decreases held.len(),
{
    let views = held.map_values(|h: String| h@);
    if held.len() > 0 {
        lemma_times_count(held.drop_last(), id);
        assert(views.drop_last() =~= held.drop_last().map_values(|h: String| h@));
        assert(views.last() == held.last()@);
    }
}

/// A connection that goes is taken off the count of each session as often as it held it;
/// a session that none holds then is not counted any more. Its terminals stay, and so
/// does every conversation.
pub proof fn connections_are_taken_off_the_count(
    before: ServeState,
    after: ServeState,
    held: Vec<String>,
    id: Seq<char>,
)
    requires
        counts(before.open_acp_sessions@),
        exists|s: &mut ServeState|
            *s == before && *final(s) == after && #[trigger] call_ensures(
                ServeState::release_connection_sessions,
                (s, &held),
                (),
            ),
    ensures
        ({
            let n: int = if before.open_acp_sessions@.contains_key(id) {
                before.open_acp_sessions@[id] as int
            } else {
                0
            };
            let k = count_of(held@, |h: String| h@ == id) as int;
            &&& after.open_acp_sessions@.contains_key(id) <==> n > k
            &&& n > k ==> after.open_acp_sessions@[id] == n - k
        }),
        after.acp_terminals == before.acp_terminals,
        after.sessions == before.sessions,
        after.acp_sessions == before.acp_sessions,
        after.session_room_profiles == before.session_room_profiles,
{
    releases_are_counted(before.open_acp_sessions@, held.deep_view(), id);
    assert(held.deep_view() =~= held@.map_values(|h: String| h@));
    lemma_times_count(held@, id);
}

proof fn lemma_times_once(keys: Seq<Seq<char>>, id: Seq<char>)
    requires
        keys.no_duplicates(),
    ensures
        times(keys, id) == if keys.contains(id) {
            1int
        } else {
            0
        },
    decreases keys.len(),
{
    if keys.len() > 0 {
        let before = keys.drop_last();
        assert(before.no_duplicates());
        lemma_times_once(before, id);
        let last = keys.len() - 1;
        if keys.last() == id {
            assert(keys[last] == id);
            if before.contains(id) {
                let k = choose|k: int| 0 <= k < before.len() && before[k] == id;
                assert(keys[k] == keys[last]);
            }
        } else {
            if keys.contains(id) {
                let k = choose|k: int| 0 <= k < keys.len() && keys[k] == id;
                assert(before[k] == id);
            }
            if before.contains(id) {
                let k = choose|k: int| 0 <= k < before.len() && before[k] == id;
                assert(keys[k] == id);
            }
        }
    }
}

/// An editor that goes is taken off the count of each session that it holds, once, and
/// off no other.
pub proof fn editors_let_go_of_what_they_hold(
    connection: AcpConnection,
    before: ServeState,
    after: ServeState,
    id: Seq<char>,
)
    requires
        connection.wf(),
        counts(before.open_acp_sessions@),
        exists|s: &mut ServeState|
            *s == before && *final(s) == after && #[trigger] call_ensures(
                AcpConnection::close,
                (connection, s),
                (),
            ),
    ensures
        ({
            let n: int = if before.open_acp_sessions@.contains_key(id) {
                before.open_acp_sessions@[id] as int
            } else {
                0
            };
            let k: int = if connection.sessions@.contains_key(id) {
                1
            } else {
                0
            };
            &&& after.open_acp_sessions@.contains_key(id) <==> n > k
            &&& n > k ==> after.open_acp_sessions@[id] == n - k
        }),
        after.acp_terminals == before.acp_terminals,
        after.sessions == before.sessions,
{
    let keys = connection.sessions.keys();
    connection.sessions.lemma_keys();
    releases_are_counted(before.open_acp_sessions@, keys, id);
    lemma_times_once(keys, id);
    assert(keys.contains(id) == connection.sessions@.contains_key(id));
}

/// A connection starts without a session, a turn or a capability; what the editor says
/// that it can do is what it can do from then on; and it is told the one version that is
/// spoken here and that sessions can be loaded, listed and resumed.
pub proof fn connections_start_with_nothing(
    profile: String,
    fresh: AcpConnection,
    before: AcpConnection,
    after: AcpConnection,
    caps: ClientCapabilities,
    version: u16,
    r: InitializeAnswer,
    id: Seq<char>,
)
    requires
        call_ensures(AcpConnection::new, (profile,), fresh),
        exists|c: &mut AcpConnection|
            *c == before && *final(c) == after && #[trigger] call_ensures(
                AcpConnection::initialize,
                (c, caps, version),
                r,
            ),
    ensures
        fresh.profile_name == profile,
        !fresh.sessions@.contains_key(id),
        fresh.next_turn == 0,
        !fresh.client_capabilities.read_text_file,
        !fresh.client_capabilities.write_text_file,
        !fresh.client_capabilities.terminal,
        after.client_capabilities == caps,
        after.profile_name == before.profile_name,
        after.sessions == before.sessions,
        after.next_turn == before.next_turn,
        r.protocol_version == 1,
        r.load_session && r.list_sessions && r.resume_session,
{
    assert(!fresh.held().contains_key(id));
}

/// A new session is put into the room that the editor's token leads to, and its file is
/// made in the namespace of that room. No other session is touched.
pub proof fn new_sessions_go_into_the_editors_room(
    connection: AcpConnection,
    before: ServeState,
    after: ServeState,
    config: ServerConfig,
    id: &str,
    r: String,
    room: &str,
    namespace: String,
    other: Seq<char>,
)
    requires
        exists|s: &mut ServeState|
            *s == before && *final(s) == after && #[trigger] call_ensures(
                AcpConnection::begin_session,
                (&connection, s, &config, id),
                r,
            ),
        room@ == connection.profile_name@,
        call_ensures(ServerConfig::namespace_for_room_profile, (&config, room), namespace),
    ensures
        r@ == namespace@,
        after.session_room_profiles@.contains_key(id@),
        after.session_room_profiles@[id@]@ == connection.profile_name@,
        other != id@ ==> after.session_room_profiles@.contains_key(other)
            == before.session_room_profiles@.contains_key(other),
        other != id@ && after.session_room_profiles@.contains_key(other)
            ==> after.session_room_profiles@[other]@ == before.session_room_profiles@[other]@,
        after.acp_sessions == before.acp_sessions,
        after.open_acp_sessions == before.open_acp_sessions,
        after.sessions == before.sessions,
{
    let rooms = after.session_room_profiles.deep_view();
    assert(rooms.contains_key(id@));
    assert(rooms[id@] == connection.profile_name@);
    if other != id@ {
        assert(rooms.contains_key(other)
            == before.session_room_profiles.deep_view().contains_key(other));
        if after.session_room_profiles@.contains_key(other) {
            assert(rooms[other] == before.session_room_profiles.deep_view()[other]);
        }
    }
}

/// A session whose file was made is held where the editor put it, with what the editor
/// can do, without a turn, and in the mode that asks; it is an editor's from then on,
/// and one connection more is counted for it. Where its file could not be made nothing
/// changes, and the editor is told why.
pub proof fn made_sessions_are_held(
    before: AcpConnection,
    after: AcpConnection,
    state: ServeState,
    next: ServeState,
    id: &str,
    cwd: String,
    outcome: Result<(), String>,
    r: Result<(), AcpError>,
    other: Seq<char>,
)
    requires
        exists|c: &mut AcpConnection, s: &mut ServeState|
            *c == before && *final(c) == after && *s == state && *final(s) == next
                && #[trigger] call_ensures(
                AcpConnection::session_created,
                (c, s, id, cwd, outcome),
                r,
            ),
    ensures
        r is Ok <==> outcome is Ok,
        outcome is Err ==> r->Err_0 is Internal && r->Err_0->Internal_0@ == outcome->Err_0@
            && after == before && next == state,
        outcome is Ok ==> {
            let session = after.sessions@[id@];
            &&& after.sessions@.contains_key(id@)
            &&& session.cwd@ == cwd@
            &&& session.client_capabilities == before.client_capabilities
            &&& session.turns.len() == 0
            &&& session.mode == SessionMode::Default
            &&& next.acp_sessions@.contains_key(id@)
            &&& next.open_acp_sessions@.contains_key(id@)
            &&& !state.open_acp_sessions@.contains_key(id@) ==> next.open_acp_sessions@[id@] == 1
            &&& state.open_acp_sessions@.contains_key(id@) && state.open_acp_sessions@[id@]
                < usize::MAX ==> next.open_acp_sessions@[id@] == state.open_acp_sessions@[id@] + 1
            &&& after.next_turn == before.next_turn
            &&& after.profile_name == before.profile_name
            &&& next.sessions == state.sessions
            &&& next.session_room_profiles == state.session_room_profiles
        },
        other != id@ ==> after.sessions@.contains_key(other) == before.sessions@.contains_key(
            other,
        ),
        other != id@ && after.sessions@.contains_key(other) ==> after.sessions@[other].deep_view()
            == before.sessions@[other].deep_view(),
        other != id@ ==> next.acp_sessions@.contains_key(other)
            == state.acp_sessions@.contains_key(other),
{
    if outcome is Ok {
        assert(after.held().contains_key(id@));
        assert(after.held()[id@] == after.sessions@[id@].deep_view());
        if other != id@ {
            assert(after.held().contains_key(other) == before.held().contains_key(other));
            if after.sessions@.contains_key(other) {
                assert(after.held()[other] == before.held()[other]);
            }
        }
    }
}

/// A session is taken up exactly where it is kept, of the editor's namespace, and not
/// closed. It is then held where the editor put it, with what the editor can do, in the
/// mode that asks, and with the turns that run on it; it is in the editor's room, and
/// counted unless it was held before. Every other is refused in the same words, and
/// nothing changes.
pub proof fn kept_sessions_are_taken_up(
    before: AcpConnection,
    after: AcpConnection,
    state: ServeState,
    next: ServeState,
    config: ServerConfig,
    id: &str,
    cwd: String,
    summary: Option<&SessionSummary>,
    r: Result<(), AcpError>,
    room: &str,
    namespace: String,
    other: Seq<char>,
)
    requires
        exists|c: &mut AcpConnection, s: &mut ServeState|
            *c == before && *final(c) == after && *s == state && *final(s) == next
                && #[trigger] call_ensures(
                AcpConnection::adopt_session,
                (c, s, &config, id, cwd, summary),
                r,
            ),
        room@ == before.profile_name@,
        call_ensures(ServerConfig::namespace_for_room_profile, (&config, room), namespace),
    ensures
        r is Ok <==> summary is Some && summary.unwrap().namespace@ == namespace@
            && !summary.unwrap().is_closed,
        r is Err ==> r->Err_0 is InvalidParams && r->Err_0->InvalidParams_0@
            == "no such session is available on this connection"@ && after == before && next
            == state,
        r is Ok ==> {
            let session = after.sessions@[id@];
            let had = before.sessions@.contains_key(id@);
            &&& after.sessions@.contains_key(id@)
            &&& session.cwd@ == cwd@
            &&& session.client_capabilities == before.client_capabilities
            &&& session.mode == SessionMode::Default
            &&& had ==> session.turns@ == before.sessions@[id@].turns@
            &&& !had ==> session.turns.len() == 0
            &&& next.acp_sessions@.contains_key(id@)
            &&& next.session_room_profiles@.contains_key(id@)
            &&& next.session_room_profiles@[id@]@ == before.profile_name@
            &&& had ==> next.open_acp_sessions@ == state.open_acp_sessions@
            &&& !had ==> next.open_acp_sessions@.contains_key(id@)
            &&& !had && !state.open_acp_sessions@.contains_key(id@)
                ==> next.open_acp_sessions@[id@] == 1
            &&& !had && state.open_acp_sessions@.contains_key(id@)
                && state.open_acp_sessions@[id@] < usize::MAX ==> next.open_acp_sessions@[id@]
                == state.open_acp_sessions@[id@] + 1
            &&& next.sessions == state.sessions
            &&& next.acp_terminals == state.acp_terminals
            &&& after.next_turn == before.next_turn
        },
        other != id@ ==> after.sessions@.contains_key(other) == before.sessions@.contains_key(
            other,
        ),
        other != id@ && after.sessions@.contains_key(other) ==> after.sessions@[other].deep_view()
            == before.sessions@[other].deep_view(),
{
    if r is Ok {
        assert(after.held().contains_key(id@));
        assert(after.held()[id@] == after.sessions@[id@].deep_view());
        assert(before.held().contains_key(id@) == before.sessions@.contains_key(id@));
        if before.sessions@.contains_key(id@) {
            assert(before.held()[id@] == before.sessions@[id@].deep_view());
        }
        assert(next.session_room_profiles.deep_view().contains_key(id@));
        assert(next.session_room_profiles.deep_view()[id@] == before.profile_name@);
        if other != id@ {
            assert(after.held().contains_key(other) == before.held().contains_key(other));
            if after.sessions@.contains_key(other) {
                assert(after.held()[other] == before.held()[other]);
            }
        }
    }
}

/// A cancellation reaches every turn that runs on its session, in order, and says
/// nothing of a session that is not held.
pub proof fn cancellations_reach_every_turn(
    connection: AcpConnection,
    id: &str,
    r: Option<Vec<u64>>,
)
    requires
        call_ensures(AcpConnection::cancel, (&connection, id), r),
    ensures
        r is Some <==> connection.sessions@.contains_key(id@),
        r is Some ==> r.unwrap()@ == connection.sessions@[id@].turns@,
{
    assert(connection.held().contains_key(id@) == connection.sessions@.contains_key(id@));
    if r is Some {
        assert(connection.held()[id@] == connection.sessions@[id@].deep_view());
    }
}

/// A session is in the mode that was asked for, and the editor is told that word,
/// exactly where there is such a mode and the session is held. Nothing else of it
/// changes, and nothing of any other. A refusal names what is not known.
pub proof fn sessions_are_put_into_modes(
    before: AcpConnection,
    after: AcpConnection,
    id: &str,
    mode: &str,
    r: Result<SessionUpdate, AcpError>,
    found: Option<SessionMode>,
    other: Seq<char>,
)
    requires
        exists|c: &mut AcpConnection|
            *c == before && *final(c) == after && #[trigger] call_ensures(
                AcpConnection::set_mode,
                (c, id, mode),
                r,
            ),
        call_ensures(SessionMode::from_id, (mode,), found),
    ensures
        r is Ok <==> found is Some && before.sessions@.contains_key(id@),
        r is Ok ==> {
            let (was, is) = (before.sessions@[id@], after.sessions@[id@]);
            &&& r->Ok_0 is CurrentModeUpdate
            &&& r->Ok_0->CurrentModeUpdate_0@ == mode@
            &&& after.sessions@.contains_key(id@)
            &&& is.mode == found.unwrap()
            &&& is.cwd@ == was.cwd@
            &&& is.client_capabilities == was.client_capabilities
            &&& is.turns@ == was.turns@
        },
        found is None ==> r->Err_0 is InvalidParams && r->Err_0->InvalidParams_0@
            == "unknown mode '"@ + mode@ + "'"@,
        found is Some && r is Err ==> r->Err_0 is InvalidParams && r->Err_0->InvalidParams_0@
            == "unknown session '"@ + id@ + "'"@,
        other != id@ || r is Err ==> after.sessions@.contains_key(other)
            == before.sessions@.contains_key(other),
        (other != id@ || r is Err) && after.sessions@.contains_key(other)
            ==> after.sessions@[other].deep_view() == before.sessions@[other].deep_view(),
        after.next_turn == before.next_turn,
        after.profile_name == before.profile_name,
{
    assert(before.held().contains_key(id@) == before.sessions@.contains_key(id@));
    assert(after.held().contains_key(other) == after.sessions@.contains_key(other));
    assert(before.held().contains_key(other) == before.sessions@.contains_key(other));
    if after.sessions@.contains_key(other) {
        assert(after.held()[other] == after.sessions@[other].deep_view());
    }
    if before.sessions@.contains_key(other) {
        assert(before.held()[other] == before.sessions@[other].deep_view());
    }
    if found is Some {
        assert(mode_id(found.unwrap()) == mode@);
    }
    if r is Ok {
        let m = choose|m: SessionMode|
            #![trigger mode_id(m)]
            mode_id(m) == mode@ && after.held() == before.held().insert(
                id@,
                AcpSessionView { mode: m, ..before.held()[id@] },
            );
        if found is Some {
            mode_ids_differ(m, found.unwrap());
        }
        assert(after.held().contains_key(id@));
        assert(after.held()[id@] == after.sessions@[id@].deep_view());
        assert(before.held()[id@] == before.sessions@[id@].deep_view());
    }
}

/// What a user sent becomes a turn of its own number, exactly where the session is
/// held. The turn is told where the session is, its mode, what its editor can do, and
/// the room; it runs on its session from then on, behind those that do. A refusal names
/// the session.
pub proof fn prompts_become_turns(
    before: AcpConnection,
    after: AcpConnection,
    id: &str,
    r: Result<PromptTurn, AcpError>,
    other: Seq<char>,
)
    requires
        exists|c: &mut AcpConnection|
            *c == before && *final(c) == after && #[trigger] call_ensures(
                AcpConnection::begin_prompt,
                (c, id),
                r,
            ),
    ensures
        r is Ok <==> before.sessions@.contains_key(id@),
        after.next_turn == before.next_turn + 1,
        r is Ok ==> {
            let (was, is) = (before.sessions@[id@], after.sessions@[id@]);
            let prompt = r->Ok_0;
            &&& prompt.turn == before.next_turn
            &&& after.sessions@.contains_key(id@)
            &&& is.turns@ == was.turns@.push(prompt.turn)
            &&& is.cwd@ == was.cwd@ && is.mode == was.mode
            &&& is.client_capabilities == was.client_capabilities
            &&& prompt.host.session_id@ == id@
            &&& prompt.host.profile@ == before.profile_name@
            &&& prompt.host.mode == was.mode
            &&& prompt.host.client_capabilities == was.client_capabilities
            &&& prompt.host.cwd@ == was.cwd@
            &&& prompt.host.error is None
        },
        r is Err ==> r->Err_0 is InvalidParams && r->Err_0->InvalidParams_0@
            == "unknown session '"@ + id@ + "'; call session/new first"@,
        other != id@ || r is Err ==> after.sessions@.contains_key(other)
            == before.sessions@.contains_key(other),
        (other != id@ || r is Err) && after.sessions@.contains_key(other)
            ==> after.sessions@[other].deep_view() == before.sessions@[other].deep_view(),
{
    assert(before.held().contains_key(id@) == before.sessions@.contains_key(id@));
    assert(after.held().contains_key(other) == after.sessions@.contains_key(other));
    assert(before.held().contains_key(other) == before.sessions@.contains_key(other));
    if after.sessions@.contains_key(other) {
        assert(after.held()[other] == after.sessions@[other].deep_view());
    }
    if before.sessions@.contains_key(other) {
        assert(before.held()[other] == before.sessions@[other].deep_view());
    }
    if r is Ok {
        assert(after.held().contains_key(id@));
        assert(after.held()[id@] == after.sessions@[id@].deep_view());
        assert(before.held()[id@] == before.sessions@[id@].deep_view());
    }
}

/// A turn that is over does not run on its session any more; every other turn runs on,
/// and nothing else changes.
pub proof fn ended_turns_leave_their_session(
    before: AcpConnection,
    after: AcpConnection,
    id: &str,
    turn: u64,
    session: Seq<char>,
    other: u64,
)
    requires
        exists|c: &mut AcpConnection|
            *c == before && *final(c) == after && #[trigger] call_ensures(
                AcpConnection::end_prompt,
                (c, id, turn),
                (),
            ),
    ensures
        after.sessions@.contains_key(session) <==> before.sessions@.contains_key(session),
        before.sessions@.contains_key(session) ==> {
            let (was, is) = (before.sessions@[session], after.sessions@[session]);
            &&& is.cwd@ == was.cwd@
            &&& is.mode == was.mode
            &&& is.client_capabilities == was.client_capabilities
            &&& is.turns@.contains(other) <==> was.turns@.contains(other) && !(session == id@
                && other == turn)
        },
        after.next_turn == before.next_turn,
        after.profile_name == before.profile_name,
{
    assert(after.held().dom().contains(session) == before.held().dom().contains(session));
    assert(after.held().contains_key(session) == after.sessions@.contains_key(session));
    assert(before.held().contains_key(session) == before.sessions@.contains_key(session));
    if before.sessions@.contains_key(session) {
        assert(after.held()[session] == after.sessions@[session].deep_view());
        assert(before.held()[session] == before.sessions@[session].deep_view());
        assert(runs_on(after.held(), session, other) == (runs_on(before.held(), session, other)
            && !(session == id@ && other == turn)));
    }
}

/// An editor is answered that the turn ended where it replied, and otherwise why it did
/// not: it was cancelled, its rounds ran out, or it failed, in the words of the failure.
pub proof fn prompts_are_answered_with_how_they_ended(
    end: TurnEnd,
    was_cancelled: bool,
    failure: Option<String>,
    r: PromptAnswer,
)
    requires
        call_ensures(prompt_answer, (end, was_cancelled, failure), r),
    ensures
        r == PromptAnswer::Stop(StopReason::EndTurn) <==> end is Ran && end->Ran_0.text is Some,
        r == PromptAnswer::Stop(StopReason::Cancelled) <==> end is Cancelled || (
        end->Ran_0.text is None && was_cancelled),
        r == PromptAnswer::Stop(StopReason::MaxTurnRequests) <==> end is Ran && end->Ran_0.text
            is None && !was_cancelled && end->Ran_0.stop is BudgetExhausted,
        r is InternalError ==> end is Ran && end->Ran_0.text is None && !was_cancelled && !(
        end->Ran_0.stop is BudgetExhausted),
        r is InternalError && failure is Some ==> r->InternalError_0@ == failure.unwrap()@,
        r is InternalError && failure is None ==> r->InternalError_0@
            == "the turn produced no reply"@,
{
    if failure is Some {
        assert(failure.deep_view() == Some(failure.unwrap()@));
    } else {
        assert(failure.deep_view() is None);
    }
}

/// An editor gets in with the token that it brings, exactly where editors are served and
/// it brings one; pings come as often as is configured. A token that belongs to nobody
/// is turned away.
pub proof fn editors_get_in_with_their_token(
    config: Option<AcpConfig>,
    headers: axum::http::HeaderMap<axum::http::HeaderValue>,
    r: Result<AcpKnock, HttpRefusal>,
    token: Option<String>,
    resolved: Option<String>,
    room: Result<String, HttpRefusal>,
)
    requires
        call_ensures(handle_acp_ws, (config, &headers), r),
        call_ensures(extract_bearer, (&headers,), token),
        call_ensures(acp_room, (resolved,), room),
    ensures
        ({
            let served = config is Some && config.unwrap().enabled;
            &&& r is Ok <==> served && token is Some
            &&& r is Ok ==> r->Ok_0.bearer@ == token.unwrap()@
            &&& r is Ok ==> (r->Ok_0.keepalive is None <==> config.unwrap().keepalive_secs == 0)
            &&& r is Ok && r->Ok_0.keepalive is Some ==> r->Ok_0.keepalive.unwrap()
                == config.unwrap().keepalive_secs
            &&& !served ==> r->Err_0.status == 404 && r->Err_0.text@ == "ACP disabled"@
            &&& served && r is Err ==> r->Err_0.status == 401 && r->Err_0.text@
                == "missing bearer token"@
        }),
        room is Ok <==> resolved is Some,
        room is Ok ==> room->Ok_0@ == resolved.unwrap()@,
        room is Err ==> room->Err_0.status == 401 && room->Err_0.text@
            == "unknown or revoked bearer token"@,
{
    if token is Some {
        assert(token.deep_view() == Some(token.unwrap()@));
    } else {
        assert(token.deep_view() is None);
    }
}

} // verus!
