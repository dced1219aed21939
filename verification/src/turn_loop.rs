//! One conversation with the model run to its end: call the model, run the tools
//! that it asks for, repeat until it stops asking.
//!
//! The loop is a chain of values, each of which can only be made from the one
//! before it. What has to be awaited between two of them (the model, a tool, a
//! human, a write) happens outside; its result is what the next step takes.
//!
//! ```text
//! TurnLoop -> Round -> ToolUse -> Judging / Asking ... -> Running -> TurnLoop
//! ```

use vstd::multiset::Multiset;
use vstd::prelude::*;

use crate::count::{count_of, lemma_count_before, sum_of};
use crate::message::{
    copy_calls, label_history, labelled, lemma_image_count, lemma_image_place, result_part,
    result_values, text_message, tool_result_message, tool_use_message, CallView, ChatMessage,
    ChatResponse, MessageView, OutputView, Role, ToolCall, ToolOutput,
};
use crate::persistence::{Append, AppendView, RecordView, TurnPersistence};
use crate::policy::{
    host_denied, host_tool_denied, tool_visible, Approval, Decision, Refusal,
};
use crate::text;

verus! {

/// Why a turn stopped.
#[derive(Debug, PartialEq)]
pub enum TurnStop {
    /// The model gave its last message.
    Replied,
    /// A call of the model failed.
    ProviderError { message: String },
    /// The model was still calling tools when its rounds ran out. The prose that
    /// came with its calls is carried here; it may be empty.
    BudgetExhausted { partial_text: String },
}

/// What a turn's tool calls are run under.
#[derive(Debug, PartialEq)]
pub struct TurnScope {
    /// Where the memory tool keeps its notes.
    pub namespace: String,
    /// The device whose timers the turn sets, where it was spoken to one.
    pub timer_device: Option<String>,
    /// How many delegations lie above this turn.
    pub subagent_depth: u32,
    /// The room profile that an operator may have granted the admin tools.
    pub admin_room_profile: Option<String>,
}

/// What a tool that runs a conversation of its own needs of the turn that runs it.
#[derive(Debug, PartialEq, Eq)]
pub struct TurnContext {
    /// The tools that the turn's model was shown.
    pub visible_tools: Vec<String>,
    pub timer_device: Option<String>,
    /// The session that the turn writes to, if it has one.
    pub session_id: Option<String>,
    pub subagent_depth: u32,
    pub admin_room_profile: Option<String>,
}

/// What decides over a turn's calls ahead of the permission table.
#[derive(Debug, PartialEq)]
pub struct TurnRules {
    /// The names of the tools that the model was shown.
    pub offered: Vec<String>,
    pub host_access_enabled: bool,
    pub routed_to_client: bool,
    /// How many tool rounds the turn may take; `None` is no bound.
    pub round_limit: Option<usize>,
}

/// Why a call is refused before the permission table is asked. A name that was
/// not offered is reported as that, whatever else holds of it.
pub open spec fn refusal_up_front(rules: TurnRules, name: Seq<char>) -> Option<Refusal> {
    if !rules.offered.deep_view().contains(name) {
        Some(Refusal::NotOffered)
    } else if host_denied(name, rules.host_access_enabled, rules.routed_to_client) {
        Some(Refusal::Unavailable)
    } else {
        None
    }
}

/// Whether an outcome heeds what is refused up front.
pub open spec fn obeys(rules: TurnRules, name: Seq<char>, outcome: Option<Refusal>) -> bool {
    refusal_up_front(rules, name) is Some ==> outcome == refusal_up_front(rules, name)
}

impl TurnRules {
    /// Why a call is refused before the permission table is asked.
    pub fn refuse_up_front(&self, name: &str) -> (r: Option<Refusal>)
        ensures
            r == refusal_up_front(*self, name@),
    {
        if !text::contains(&self.offered, name) {
            Some(Refusal::NotOffered)
        } else if host_tool_denied(name, self.host_access_enabled, self.routed_to_client) {
            Some(Refusal::Unavailable)
        } else {
            None
        }
    }
}

/// A turn between two rounds.
#[derive(Debug, PartialEq)]
pub struct TurnLoop {
    pub rules: TurnRules,
    pub scope: TurnScope,
    /// Where the turn writes; `None` for a turn without a session.
    pub persistence: Option<TurnPersistence>,
    /// Tool rounds of this turn, whatever tool traffic the history holds.
    pub round: usize,
    /// The prose of the rounds so far, without the empty ones.
    pub accumulated: Vec<String>,
    pub history: Vec<ChatMessage>,
}

/// How a pass over the history to shorten it came out.
#[derive(Debug, PartialEq)]
pub struct CompressionResult {
    pub compressed: Vec<ChatMessage>,
    /// What stands for the messages that left; `None` where some were only trimmed.
    pub summary: Option<String>,
    pub keep_recent: usize,
}

impl TurnLoop {
    /// Whether the rounds of the turn are used up.
    pub open spec fn exhausted(self) -> bool {
        match self.rules.round_limit {
            Some(max) => self.round >= max,
            None => false,
        }
    }

    /// What holds of every turn between two rounds.
    pub open spec fn wf(self) -> bool {
        &&& match self.rules.round_limit {
            Some(max) => self.round <= max,
            None => true,
        }
        &&& forall|i: int|
            0 <= i < self.accumulated.len() ==> #[trigger] self.accumulated@[i]@.len() > 0
    }

    /// The prose of the turn so far.
    pub open spec fn prose(self) -> Seq<char> {
        text::joined(self.accumulated.deep_view(), "\n\n"@)
    }

    /// Whether two turns differ in their history at most.
    pub open spec fn same_but_history(self, other: TurnLoop) -> bool {
        &&& self.rules == other.rules
        &&& self.scope == other.scope
        &&& self.persistence == other.persistence
        &&& self.round == other.round
        &&& self.accumulated == other.accumulated
    }

    /// The write of a message, where the turn has a session.
    pub open spec fn write_message(self, msg: MessageView) -> Option<AppendView> {
        match self.persistence {
            Some(p) => Some(p.write(RecordView::Message(msg))),
            None => None,
        }
    }

    /// A turn that has not run a round yet.
    pub fn new(
        rules: TurnRules,
        scope: TurnScope,
        persistence: Option<TurnPersistence>,
        history: Vec<ChatMessage>,
    ) -> (r: TurnLoop)
        ensures
            r.wf(),
            r.rules == rules,
            r.scope == scope,
            r.persistence == persistence,
            r.round == 0,
            r.accumulated@.len() == 0,
            r.history == history,
    {
        TurnLoop { rules, scope, persistence, round: 0, accumulated: Vec::new(), history }
    }

    /// Starts the next round, or stops where the rounds are used up.
    pub fn begin_round(self) -> (r: Result<Round, (TurnLoop, TurnStop)>)
        requires
            self.wf(),
        ensures
            match r {
                Ok(round) => !self.exhausted() && round.wf() && round.turn == self,
                Err((turn, stop)) => {
                    &&& self.exhausted()
                    &&& turn == self
                    &&& stop matches TurnStop::BudgetExhausted { partial_text }
                    &&& partial_text@ == self.prose()
                },
            },
    {
        let over = match self.rules.round_limit {
            Some(max) => self.round >= max,
            None => false,
        };
        if over {
            let partial_text = text::join(&self.accumulated, "\n\n");
            Err((self, TurnStop::BudgetExhausted { partial_text }))
        } else {
            Ok(Round { turn: self })
        }
    }

    fn push_prose(&mut self, text: &str) -> (chunk: Option<String>)
        requires
            old(self).wf(),
        ensures
            final(self).wf(),
            final(self).rules == old(self).rules,
            final(self).scope == old(self).scope,
            final(self).persistence == old(self).persistence,
            final(self).round == old(self).round,
            final(self).history == old(self).history,
            final(self).accumulated.deep_view() == with_prose(
                old(self).accumulated.deep_view(),
                text@,
            ),
            chunk.deep_view() == as_chunk(text@),
    {
        if text.is_empty() {
            None
        } else {
            let ghost before = self.accumulated.deep_view();
            let ghost earlier = self.accumulated@;
            self.accumulated.push(text.to_owned());
            proof {
                assert(self.accumulated.deep_view() =~= before.push(text@));
                assert forall|i: int|
                    0 <= i < self.accumulated.len() implies #[trigger] self.accumulated@[i]@.len()
                    > 0 by {
                    if i < earlier.len() {
                        assert(earlier[i]@.len() > 0);
                    }
                }
            }
            Some(text.to_owned())
        }
    }

    fn push_message(&mut self, msg: ChatMessage, paired: bool) -> (append: Option<Append>)
        ensures
            final(self).same_but_history(*old(self)),
            final(self).history.deep_view() == old(self).history.deep_view().push(msg@),
            append.deep_view() == old(self).write_message(msg@),
    {
        let append = match &self.persistence {
            Some(p) if paired => Some(p.append_message_paired(&msg)),
            Some(p) => Some(p.append_message(&msg)),
            None => None,
        };
        let ghost before = self.history.deep_view();
        self.history.push(msg);
        assert(self.history.deep_view() =~= before.push(msg@));
        append
    }
}

/// The number of the round after this one, as far as numbers go.
pub open spec fn next_round(round: usize) -> usize {
    if round < usize::MAX {
        (round + 1) as usize
    } else {
        round
    }
}

/// The prose with one more piece, unless that is empty.
pub open spec fn with_prose(prose: Seq<Seq<char>>, text: Seq<char>) -> Seq<Seq<char>> {
    if text.len() == 0 {
        prose
    } else {
        prose.push(text)
    }
}

/// What a host is handed of a round's prose.
pub open spec fn as_chunk(text: Seq<char>) -> Option<Seq<char>> {
    if text.len() == 0 {
        None
    } else {
        Some(text)
    }
}

/// The prose of an answer; empty where it has none.
pub open spec fn prose_of(text: Option<String>) -> Seq<char> {
    match text {
        Some(t) => t@,
        None => Seq::empty(),
    }
}

/// A round that may call the model.
#[derive(Debug, PartialEq)]
pub struct Round {
    pub turn: TurnLoop,
}

/// The end of a turn in which the model replied.
#[derive(Debug, PartialEq)]
pub struct FinalReply {
    pub turn: TurnLoop,
    /// The write of the last message, where the turn has a session.
    pub append: Option<Append>,
    /// What the host is handed of the last message.
    pub chunk: Option<String>,
    /// The whole prose of the turn.
    pub text: String,
}

/// What the model's answer leads to.
#[derive(Debug, PartialEq)]
pub enum Reply {
    Final(FinalReply),
    Tools(ToolUse),
}

impl Round {
    /// What holds of every round that was started.
    pub open spec fn wf(self) -> bool {
        self.turn.wf() && !self.turn.exhausted()
    }

    /// Takes up a history that was shortened. A summary has to be written, where
    /// the turn has a session; a failed or needless pass changes nothing.
    pub fn compressed(&mut self, result: Option<CompressionResult>) -> (append: Option<Append>)
        requires
            old(self).wf(),
        ensures
            final(self).wf(),
            final(self).turn.same_but_history(old(self).turn),
            final(self).turn.history == match result {
                Some(c) => c.compressed,
                None => old(self).turn.history,
            },
            append.deep_view() == match (old(self).turn.persistence, result) {
                (Some(p), Some(c)) => match c.summary {
                    Some(s) => Some(
                        p.write(
                            (RecordView::Summary { text: s@, keep_recent: c.keep_recent as nat }),
                        ),
                    ),
                    None => None,
                },
                _ => None,
            },
    {
        match result {
            Some(c) => {
                let append = match (&self.turn.persistence, &c.summary) {
                    (Some(p), Some(s)) => Some(p.append_summary(s.as_str(), c.keep_recent)),
                    _ => None,
                };
                self.turn.history = c.compressed;
                append
            },
            None => None,
        }
    }

    /// What the model is handed of a history whose pictures were resolved.
    pub fn provider_messages(&self, hydrated: Vec<ChatMessage>) -> (r: Vec<ChatMessage>)
        ensures
            r.deep_view() == hydrated.deep_view().map_values(|m: MessageView| labelled(m)),
    {
        label_history(hydrated)
    }

    /// Ends a turn whose model failed. The message is also what the host is told.
    pub fn failed(self, message: String) -> (r: (TurnLoop, TurnStop))
        ensures
            r.0 == self.turn,
            r.1 == (TurnStop::ProviderError { message }),
    {
        (self.turn, TurnStop::ProviderError { message })
    }

    /// Takes up the model's answer: one without calls ends the turn, one with calls
    /// opens a tool round.
    pub fn replied(self, resp: ChatResponse) -> (r: Reply)
        requires
            self.wf(),
        ensures
            match r {
                Reply::Final(f) => {
                    let msg = text_message(Role::Assistant, prose_of(resp.text), None);
                    &&& resp.tool_calls.len() == 0
                    &&& f.turn.wf()
                    &&& f.turn.rules == self.turn.rules
                    &&& f.turn.scope == self.turn.scope
                    &&& f.turn.persistence == self.turn.persistence
                    &&& f.turn.round == self.turn.round
                    &&& f.turn.history.deep_view() == self.turn.history.deep_view().push(msg)
                    &&& f.turn.accumulated.deep_view() == with_prose(
                        self.turn.accumulated.deep_view(),
                        prose_of(resp.text),
                    )
                    &&& f.append.deep_view() == self.turn.write_message(msg)
                    &&& f.chunk.deep_view() == as_chunk(prose_of(resp.text))
                    &&& f.text@ == f.turn.prose()
                },
                Reply::Tools(u) => {
                    let msg = tool_use_message(resp.text.deep_view(), resp.tool_calls.deep_view());
                    &&& resp.tool_calls.len() > 0
                    &&& u.turn.wf()
                    &&& u.turn.rules == self.turn.rules
                    &&& u.turn.scope == self.turn.scope
                    &&& u.turn.persistence == self.turn.persistence
                    &&& u.turn.round == next_round(self.turn.round)
                    &&& u.turn.history.deep_view() == self.turn.history.deep_view().push(msg)
                    &&& u.turn.accumulated.deep_view() == with_prose(
                        self.turn.accumulated.deep_view(),
                        prose_of(resp.text),
                    )
                    &&& u.append.deep_view() == self.turn.write_message(msg)
                    &&& u.chunk.deep_view() == as_chunk(prose_of(resp.text))
                    &&& u.calls == resp.tool_calls
                },
            },
    {
        let mut turn = self.turn;
        let prose = match &resp.text {
            Some(t) => t.clone(),
            None => String::new(),
        };
        if resp.tool_calls.len() == 0 {
            let append = turn.push_message(ChatMessage::assistant(prose.as_str()), false);
            let chunk = turn.push_prose(prose.as_str());
            let text = text::join(&turn.accumulated, "\n\n");
            Reply::Final(FinalReply { turn, append, chunk, text })
        } else {
            if turn.round < usize::MAX {
                turn.round = turn.round + 1;
            }
            let chunk = turn.push_prose(prose.as_str());
            let calls = copy_calls(&resp.tool_calls);
            let msg = ChatMessage::assistant_with_tools(resp.text, calls);
            let append = turn.push_message(msg, true);
            Reply::Tools(ToolUse { turn, calls: resp.tool_calls, chunk, append })
        }
    }
}

/// A round whose calls are known and not yet judged. The host is handed the chunk,
/// the write is made, and the host is told that each call starts.
#[derive(Debug, PartialEq)]
pub struct ToolUse {
    pub turn: TurnLoop,
    pub calls: Vec<ToolCall>,
    pub chunk: Option<String>,
    pub append: Option<Append>,
}

/// The calls of a round, judged one after the other.
#[derive(Debug, PartialEq)]
pub struct Gate {
    pub turn: TurnLoop,
    pub calls: Vec<ToolCall>,
    /// For each call judged so far, why it is refused; `None` lets it run.
    pub outcomes: Vec<Option<Refusal>>,
    /// Whether the message with the calls was written, or had nowhere to be.
    pub tool_use_persisted: bool,
}

impl Gate {
    /// What holds however far the calls are judged: none of those that are refused
    /// up front was let through.
    pub open spec fn wf(self) -> bool {
        &&& self.turn.wf()
        &&& self.outcomes.len() <= self.calls.len()
        &&& forall|i: int|
            0 <= i < self.outcomes.len() ==> obeys(
                self.turn.rules,
                self.calls@[i].name@,
                #[trigger] self.outcomes@[i],
            )
    }

    /// Whether the next call is for the permission table to judge.
    pub open spec fn at_judgement(self) -> bool {
        &&& self.outcomes.len() < self.calls.len()
        &&& refusal_up_front(
            self.turn.rules,
            self.calls@[self.outcomes.len() as int].name@,
        ) is None
    }

    /// Whether two gates differ in their outcomes at most.
    pub open spec fn same_but_outcomes(self, other: Gate) -> bool {
        &&& self.turn == other.turn
        &&& self.calls == other.calls
        &&& self.tool_use_persisted == other.tool_use_persisted
    }

    /// Refuses what is refused up front, as far as the next call that is not.
    fn advance(self) -> (r: GateStep)
        requires
            self.wf(),
        ensures
            r.wf(),
            r.gate().same_but_outcomes(self),
            r.follows(self.outcomes@),
    {
        let ghost before = self.outcomes@;
        let mut gate = self;
        while gate.outcomes.len() < gate.calls.len()
            invariant
                gate.wf(),
                gate.same_but_outcomes(self),
                before == self.outcomes@,
                before.len() <= gate.outcomes.len(),
                before =~= gate.outcomes@.take(before.len() as int),
                forall|i: int|
                    before.len() <= i < gate.outcomes.len() ==> #[trigger] gate.outcomes@[i] is Some
                        && gate.outcomes@[i] == refusal_up_front(
                        gate.turn.rules,
                        gate.calls@[i].name@,
                    ),
            decreases gate.calls.len() - gate.outcomes.len(),
        {
            let refusal = gate.turn.rules.refuse_up_front(
                gate.calls[gate.outcomes.len()].name.as_str(),
            );
            if refusal.is_none() {
                return GateStep::Judge(Judging { gate });
            }
            gate.outcomes.push(refusal);
        }
        GateStep::Execute(Running { gate })
    }

    /// Takes down how the call that is being judged came out.
    fn settle(self, outcome: Option<Refusal>) -> (r: GateStep)
        requires
            self.wf(),
            self.at_judgement(),
        ensures
            r.wf(),
            r.gate().same_but_outcomes(self),
            r.follows(self.outcomes@.push(outcome)),
    {
        let mut gate = self;
        gate.outcomes.push(outcome);
        gate.advance()
    }
}

/// Where the judging of a round's calls stands.
#[derive(Debug, PartialEq)]
pub enum GateStep {
    /// The permission table has to be asked about a call.
    Judge(Judging),
    /// Every call is judged.
    Execute(Running),
}

impl GateStep {
    /// The calls and how they came out so far.
    pub open spec fn gate(self) -> Gate {
        match self {
            GateStep::Judge(j) => j.gate,
            GateStep::Execute(e) => e.gate,
        }
    }

    /// What holds of every step.
    pub open spec fn wf(self) -> bool {
        match self {
            GateStep::Judge(j) => j.wf(),
            GateStep::Execute(e) => e.wf(),
        }
    }

    /// Whether this is the step after the outcomes `before`: they stand, and every
    /// call since was refused up front.
    pub open spec fn follows(self, before: Seq<Option<Refusal>>) -> bool {
        let gate = self.gate();
        &&& before.is_prefix_of(gate.outcomes@)
        &&& forall|i: int|
            before.len() <= i < gate.outcomes.len() ==> #[trigger] gate.outcomes@[i] is Some
                && gate.outcomes@[i] == refusal_up_front(gate.turn.rules, gate.calls@[i].name@)
    }
}

impl ToolUse {
    /// Starts to judge the calls, once it is known whether the message with them
    /// was written. A turn without a session has nothing to write.
    pub fn appended(self, landed: bool) -> (r: GateStep)
        requires
            self.turn.wf(),
        ensures
            r.wf(),
            r.gate().turn == self.turn,
            r.gate().calls == self.calls,
            r.gate().tool_use_persisted == (self.turn.persistence is None || landed),
            r.follows(Seq::empty()),
    {
        let tool_use_persisted = self.turn.persistence.is_none() || landed;
        let gate = Gate {
            turn: self.turn,
            calls: self.calls,
            outcomes: Vec::new(),
            tool_use_persisted,
        };
        assert(gate.outcomes@ =~= Seq::empty());
        gate.advance()
    }
}

/// A call that the permission table has to be asked about.
#[derive(Debug, PartialEq)]
pub struct Judging {
    pub gate: Gate,
}

/// How a call came out, and where the judging stands after it.
#[derive(Debug, PartialEq)]
pub enum Settled {
    /// The call will run, and the host is told so.
    Allowed { id: String, next: GateStep },
    Refused { next: GateStep },
}

impl Settled {
    /// Whether this lets the call under judgement in `gate` run.
    pub open spec fn allows(self, gate: Gate) -> bool {
        &&& self matches Settled::Allowed { id, next }
        &&& id@ == gate.calls@[gate.outcomes.len() as int].id@
        &&& next.wf()
        &&& next.gate().same_but_outcomes(gate)
        &&& next.follows(gate.outcomes@.push(None))
    }

    /// Whether this refuses the call under judgement in `gate`.
    pub open spec fn refuses(self, gate: Gate, refusal: Refusal) -> bool {
        &&& self matches Settled::Refused { next }
        &&& next.wf()
        &&& next.gate().same_but_outcomes(gate)
        &&& next.follows(gate.outcomes@.push(Some(refusal)))
    }
}

/// What the permission table's word leads to.
#[derive(Debug, PartialEq)]
pub enum Verdict {
    Settled(Settled),
    /// A human has to say.
    Ask(Asking),
}

fn allow(gate: Gate) -> (r: Settled)
    requires
        gate.wf(),
        gate.at_judgement(),
    ensures
        r.allows(gate),
{
    let id = gate.calls[gate.outcomes.len()].id.clone();
    Settled::Allowed { id, next: gate.settle(None) }
}

fn refuse(gate: Gate, refusal: Refusal) -> (r: Settled)
    requires
        gate.wf(),
        gate.at_judgement(),
    ensures
        r.refuses(gate, refusal),
{
    Settled::Refused { next: gate.settle(Some(refusal)) }
}

impl Judging {
    /// What holds of every call under judgement: it was offered, and the
    /// deployment does not keep it off this machine.
    pub open spec fn wf(self) -> bool {
        self.gate.wf() && self.gate.at_judgement()
    }

    /// The call under judgement.
    pub fn call(&self) -> (r: &ToolCall)
        requires
            self.wf(),
        ensures
            *r == self.gate.calls@[self.gate.outcomes.len() as int],
    {
        &self.gate.calls[self.gate.outcomes.len()]
    }

    /// Takes up what the permission table says of the call.
    pub fn decided(self, decision: Decision) -> (r: Verdict)
        requires
            self.wf(),
        ensures
            match decision {
                Decision::Allow => r is Settled && r->Settled_0.allows(self.gate),
                Decision::Deny => r is Settled && r->Settled_0.refuses(
                    self.gate,
                    Refusal::Unavailable,
                ),
                Decision::Ask => r == Verdict::Ask(Asking { gate: self.gate }),
            },
    {
        match decision {
            Decision::Allow => Verdict::Settled(allow(self.gate)),
            Decision::Deny => Verdict::Settled(refuse(self.gate, Refusal::Unavailable)),
            Decision::Ask => Verdict::Ask(Asking { gate: self.gate }),
        }
    }
}

/// A call that a human is asked about.
#[derive(Debug, PartialEq)]
pub struct Asking {
    pub gate: Gate,
}

impl Asking {
    /// What holds of every call that a human is asked about.
    pub open spec fn wf(self) -> bool {
        self.gate.wf() && self.gate.at_judgement()
    }

    /// The call that is asked about.
    pub fn call(&self) -> (r: &ToolCall)
        requires
            self.wf(),
        ensures
            *r == self.gate.calls@[self.gate.outcomes.len() as int],
    {
        &self.gate.calls[self.gate.outcomes.len()]
    }

    /// Takes up what the human said.
    pub fn answered(self, approval: Approval) -> (r: Settled)
        requires
            self.wf(),
        ensures
            approval.allowed() ==> r.allows(self.gate),
            !approval.allowed() ==> r.refuses(self.gate, Refusal::UserDeclined),
    {
        if approval.allows() {
            allow(self.gate)
        } else {
            refuse(self.gate, Refusal::UserDeclined)
        }
    }
}

/// The calls that may run, in order.
pub open spec fn permitted(calls: Seq<CallView>, outcomes: Seq<Option<Refusal>>) -> Seq<CallView>
    decreases outcomes.len(),
{
    if outcomes.len() == 0 {
        Seq::empty()
    } else {
        let before = permitted(calls, outcomes.drop_last());
        match outcomes.last() {
            None => before.push(calls[outcomes.len() - 1]),
            Some(_) => before,
        }
    }
}

/// The calls that may not run and why, in order.
pub open spec fn refused(calls: Seq<CallView>, outcomes: Seq<Option<Refusal>>) -> Seq<
    (CallView, Refusal),
>
    decreases outcomes.len(),
{
    if outcomes.len() == 0 {
        Seq::empty()
    } else {
        let before = refused(calls, outcomes.drop_last());
        match outcomes.last() {
            None => before,
            Some(r) => before.push((calls[outcomes.len() - 1], r)),
        }
    }
}

/// What answers a round's calls: the outputs of those that ran, then the reasons
/// for those that did not.
pub open spec fn round_results(
    ran: Seq<CallView>,
    outputs: Seq<OutputView>,
    not_run: Seq<(CallView, Refusal)>,
    reasons: Seq<Seq<char>>,
) -> Seq<(Seq<char>, OutputView)> {
    Seq::new(ran.len(), |i: int| (ran[i].id, outputs[i])) + Seq::new(
        not_run.len(),
        |i: int| (not_run[i].0.id, OutputView { text: reasons[i], images: Seq::empty() }),
    )
}

/// A round whose calls are all judged: the permitted ones run, each under the
/// turn's scope, and each refusal is put into words.
#[derive(Debug, PartialEq)]
pub struct Running {
    pub gate: Gate,
}

/// A call that did not run.
#[derive(Debug, PartialEq)]
pub struct RefusedCall {
    pub id: String,
    pub name: String,
    pub refusal: Refusal,
}

/// Whether these are calls that did not run, each with its reason, in order.
pub open spec fn are_refused(calls: Seq<RefusedCall>, not_run: Seq<(CallView, Refusal)>) -> bool {
    &&& calls.len() == not_run.len()
    &&& forall|i: int|
        0 <= i < calls.len() ==> {
            &&& (#[trigger] calls[i]).id@ == not_run[i].0.id
            &&& calls[i].name@ == not_run[i].0.name
            &&& calls[i].refusal == not_run[i].1
        }
}

/// The end of a round. The host is told that each call has ended, and the write is
/// made.
#[derive(Debug, PartialEq)]
pub struct RoundEnd {
    pub turn: TurnLoop,
    pub calls: Vec<ToolCall>,
    pub append: Option<Append>,
}

impl Running {
    /// What holds of every round that runs.
    pub open spec fn wf(self) -> bool {
        self.gate.wf() && self.gate.outcomes.len() == self.gate.calls.len()
    }

    /// The calls that run.
    pub open spec fn ran(self) -> Seq<CallView> {
        permitted(self.gate.calls.deep_view(), self.gate.outcomes@)
    }

    /// The calls that do not run.
    pub open spec fn not_run(self) -> Seq<(CallView, Refusal)> {
        refused(self.gate.calls.deep_view(), self.gate.outcomes@)
    }

    /// What each call runs under.
    pub fn context(&self) -> (r: TurnContext)
        ensures
            r.visible_tools@ == self.gate.turn.rules.offered@,
            r.timer_device == self.gate.turn.scope.timer_device,
            r.session_id == match self.gate.turn.persistence {
                Some(p) => Some(p.session_id),
                None => None,
            },
            r.subagent_depth == self.gate.turn.scope.subagent_depth,
            r.admin_room_profile == self.gate.turn.scope.admin_room_profile,
    {
        let scope = &self.gate.turn.scope;
        TurnContext {
            visible_tools: text::copy_list(&self.gate.turn.rules.offered),
            timer_device: text::copy_option(&scope.timer_device),
            session_id: match &self.gate.turn.persistence {
                Some(p) => Some(p.session_id.clone()),
                None => None,
            },
            subagent_depth: scope.subagent_depth,
            admin_room_profile: text::copy_option(&scope.admin_room_profile),
        }
    }

    /// The calls that run, in the order in which the model asked for them.
    pub fn permitted(&self) -> (r: Vec<ToolCall>)
        requires
            self.wf(),
        ensures
            r.deep_view() == self.ran(),
    {
        let ghost calls = self.gate.calls.deep_view();
        let ghost outcomes = self.gate.outcomes@;
        let mut r: Vec<ToolCall> = Vec::new();
        assert(r.deep_view() =~= permitted(calls, outcomes.take(0)));
        let mut i: usize = 0;
        while i < self.gate.outcomes.len()
            invariant
                self.wf(),
                calls == self.gate.calls.deep_view(),
                outcomes == self.gate.outcomes@,
                i <= outcomes.len(),
                r.deep_view() == permitted(calls, outcomes.take(i as int)),
            decreases outcomes.len() - i,
        {
            assert(outcomes.take(i + 1).drop_last() =~= outcomes.take(i as int));
            if self.gate.outcomes[i].is_none() {
                let ghost before = r.deep_view();
                r.push(self.gate.calls[i].copy());
                assert(r.deep_view() =~= before.push(calls[i as int]));
            }
            i += 1;
        }
        assert(outcomes.take(i as int) =~= outcomes);
        r
    }

    /// The calls that do not run and why, in the order in which the model asked
    /// for them.
    pub fn refused(&self) -> (r: Vec<RefusedCall>)
        requires
            self.wf(),
        ensures
            r.len() == self.not_run().len(),
            are_refused(r@, self.not_run()),
    {
        let ghost calls = self.gate.calls.deep_view();
        let ghost outcomes = self.gate.outcomes@;
        let mut r: Vec<RefusedCall> = Vec::new();
        let mut i: usize = 0;
        while i < self.gate.outcomes.len()
            invariant
                self.wf(),
                calls == self.gate.calls.deep_view(),
                outcomes == self.gate.outcomes@,
                i <= outcomes.len(),
                r.len() == refused(calls, outcomes.take(i as int)).len(),
                forall|k: int|
                    0 <= k < r.len() ==> {
                        let want = refused(calls, outcomes.take(i as int))[k];
                        &&& (#[trigger] r@[k]).id@ == want.0.id
                        &&& r@[k].name@ == want.0.name
                        &&& r@[k].refusal == want.1
                    },
            decreases outcomes.len() - i,
        {
            assert(outcomes.take(i + 1).drop_last() =~= outcomes.take(i as int));
            if let Some(refusal) = self.gate.outcomes[i] {
                let call = &self.gate.calls[i];
                r.push(RefusedCall { id: call.id.clone(), name: call.name.clone(), refusal });
            }
            i += 1;
        }
        assert(outcomes.take(i as int) =~= outcomes);
        r
    }

    /// Ends the round with the outputs of the calls that ran and the reasons for
    /// those that did not, each in its order. The answers are written only where
    /// the message with the calls was.
    pub fn finished(self, outputs: Vec<ToolOutput>, reasons: Vec<String>) -> (r: RoundEnd)
        requires
            self.wf(),
            outputs.len() == self.ran().len(),
            reasons.len() == self.not_run().len(),
        ensures
            r.turn.wf(),
            r.turn.same_but_history(self.gate.turn),
            r.calls == self.gate.calls,
            ({
                let msg = tool_result_message(
                    round_results(
                        self.ran(),
                        outputs.deep_view(),
                        self.not_run(),
                        reasons.deep_view(),
                    ),
                );
                &&& r.turn.history.deep_view() == self.gate.turn.history.deep_view().push(msg)
                &&& r.append.deep_view() == if self.gate.tool_use_persisted {
                    self.gate.turn.write_message(msg)
                } else {
                    None
                }
            }),
    {
        let ran = self.permitted();
        let not_run = self.refused();
        let ghost want = round_results(
            self.ran(),
            outputs.deep_view(),
            self.not_run(),
            reasons.deep_view(),
        );
        let mut results: Vec<(String, ToolOutput)> = Vec::new();
        let mut i: usize = 0;
        for output in it: outputs
            invariant
                it.seq() == outputs@,
                i == it.index(),
                ran.deep_view() == self.ran(),
                outputs.len() == self.ran().len(),
                want == round_results(
                    self.ran(),
                    outputs.deep_view(),
                    self.not_run(),
                    reasons.deep_view(),
                ),
                results.len() == i,
                forall|k: int|
                    0 <= k < i ==> (#[trigger] results@[k]).0@ == want[k].0 && results@[k].1@
                        == want[k].1,
        {
            assert(ran.deep_view()[i as int].id == ran@[i as int].id@);
            assert(outputs.deep_view()[i as int] == output@);
            results.push((ran[i].id.clone(), output));
            i += 1;
        }
        let ghost split = results.len() as int;
        let mut j: usize = 0;
        for reason in jt: reasons
            invariant
                jt.seq() == reasons@,
                j == jt.index(),
                split == self.ran().len(),
                not_run.len() == self.not_run().len(),
                reasons.len() == self.not_run().len(),
                want == round_results(
                    self.ran(),
                    outputs.deep_view(),
                    self.not_run(),
                    reasons.deep_view(),
                ),
                forall|k: int|
                    0 <= k < not_run.len() ==> (#[trigger] not_run@[k]).id@
                        == self.not_run()[k].0.id,
                results.len() == split + j,
                forall|k: int|
                    0 <= k < split + j ==> (#[trigger] results@[k]).0@ == want[k].0
                        && results@[k].1@ == want[k].1,
        {
            assert(reasons.deep_view()[j as int] == reason@);
            assert(not_run@[j as int].id@ == self.not_run()[j as int].0.id);
            results.push((not_run[j].id.clone(), ToolOutput::plain(reason)));
            j += 1;
        }
        assert(result_values(results@) =~= want);
        let msg = ChatMessage::round_results(results);
        let mut turn = self.gate.turn;
        let append = turn.push_message(msg, true);
        let append = if self.gate.tool_use_persisted {
            append
        } else {
            None
        };
        RoundEnd { turn, calls: self.gate.calls, append }
    }
}

/// The identifiers of calls, with how often each occurs.
pub open spec fn call_ids(calls: Seq<CallView>) -> Multiset<Seq<char>> {
    calls.map_values(|c: CallView| c.id).to_multiset()
}

/// The identifiers that results answer, with how often each is answered.
pub open spec fn answered_ids(results: Seq<(Seq<char>, OutputView)>) -> Multiset<Seq<char>> {
    results.map_values(|r: (Seq<char>, OutputView)| r.0).to_multiset()
}

proof fn lemma_split_ids(calls: Seq<CallView>, outcomes: Seq<Option<Refusal>>)
    requires
        outcomes.len() <= calls.len(),
    ensures
        call_ids(permitted(calls, outcomes)).add(
            refused(calls, outcomes).map_values(
                |r: (CallView, Refusal)| r.0.id,
            ).to_multiset(),
        ) =~= call_ids(calls.take(outcomes.len() as int)),
        permitted(calls, outcomes).len() + refused(calls, outcomes).len() == outcomes.len(),
    decreases outcomes.len(),
{
    broadcast use vstd::seq_lib::group_to_multiset_ensures;

    let f = |c: CallView| c.id;
    let g = |r: (CallView, Refusal)| r.0.id;
    if outcomes.len() == 0 {
        assert(permitted(calls, outcomes).map_values(f) =~= Seq::empty());
        assert(refused(calls, outcomes).map_values(g) =~= Seq::empty());
        assert(calls.take(0).map_values(f) =~= Seq::empty());
    } else {
        let n = outcomes.len() - 1;
        let before = outcomes.drop_last();
        lemma_split_ids(calls, before);
        assert(calls.take(n + 1).map_values(f) =~= calls.take(n).map_values(f).push(calls[n].id));
        match outcomes.last() {
            None => {
                assert(permitted(calls, outcomes).map_values(f) =~= permitted(
                    calls,
                    before,
                ).map_values(f).push(calls[n].id));
            },
            Some(r) => {
                assert(refused(calls, outcomes).map_values(g) =~= refused(
                    calls,
                    before,
                ).map_values(g).push(calls[n].id));
            },
        }
    }
}

/// Every call of a round is answered, and none more than once: the identifiers
/// that the results answer are those of the calls, each as often.
pub proof fn every_call_is_answered_once(
    running: Running,
    outputs: Seq<OutputView>,
    reasons: Seq<Seq<char>>,
)
    requires
        running.wf(),
        outputs.len() == running.ran().len(),
        reasons.len() == running.not_run().len(),
    ensures
        answered_ids(round_results(running.ran(), outputs, running.not_run(), reasons)) == call_ids(
            running.gate.calls.deep_view(),
        ),
{
    lemma_results_answer(
        running.gate.calls.deep_view(),
        running.gate.outcomes@,
        outputs,
        reasons,
    );
}

/// The results of judged calls answer each of them once.
pub proof fn lemma_results_answer(
    calls: Seq<CallView>,
    outcomes: Seq<Option<Refusal>>,
    outputs: Seq<OutputView>,
    reasons: Seq<Seq<char>>,
)
    requires
        outcomes.len() == calls.len(),
    ensures
        answered_ids(
            round_results(permitted(calls, outcomes), outputs, refused(calls, outcomes), reasons),
        ) == call_ids(calls),
{
    broadcast use vstd::seq_lib::group_to_multiset_ensures;

    let ran = permitted(calls, outcomes);
    let not_run = refused(calls, outcomes);
    let results = round_results(ran, outputs, not_run, reasons);
    let f = |c: CallView| c.id;
    let g = |r: (CallView, Refusal)| r.0.id;
    let h = |r: (Seq<char>, OutputView)| r.0;
    lemma_split_ids(calls, outcomes);
    assert(calls.take(outcomes.len() as int) =~= calls);
    assert(results.map_values(h) =~= ran.map_values(f) + not_run.map_values(g));
    vstd::seq_lib::lemma_multiset_commutative(ran.map_values(f), not_run.map_values(g));
}

/// A call that runs is one that came out so.
pub proof fn lemma_permitted_from(calls: Seq<CallView>, outcomes: Seq<Option<Refusal>>, k: int)
    requires
        outcomes.len() <= calls.len(),
        0 <= k < permitted(calls, outcomes).len(),
    ensures
        exists|i: int|
            0 <= i < outcomes.len() && #[trigger] outcomes[i] is None && calls[i] == permitted(
                calls,
                outcomes,
            )[k],
    decreases outcomes.len(),
{
    let before = outcomes.drop_last();
    let n = outcomes.len() - 1;
    if outcomes.last() is None && k == permitted(calls, before).len() {
        assert(outcomes[n] is None);
    } else {
        lemma_permitted_from(calls, before, k);
        let i = choose|i: int|
            0 <= i < before.len() && #[trigger] before[i] is None && calls[i] == permitted(
                calls,
                before,
            )[k];
        assert(outcomes[i] is None);
    }
}

/// Nothing runs that was not offered, and nothing that the deployment keeps off
/// this machine.
pub proof fn only_offered_calls_run(running: Running, k: int)
    requires
        running.wf(),
        0 <= k < running.ran().len(),
    ensures
        running.gate.turn.rules.offered.deep_view().contains(running.ran()[k].name),
        !host_denied(
            running.ran()[k].name,
            running.gate.turn.rules.host_access_enabled,
            running.gate.turn.rules.routed_to_client,
        ),
{
    let calls = running.gate.calls.deep_view();
    let outcomes = running.gate.outcomes@;
    lemma_permitted_from(calls, outcomes, k);
    let i = choose|i: int|
        0 <= i < outcomes.len() && #[trigger] outcomes[i] is None && calls[i] == permitted(
            calls,
            outcomes,
        )[k];
    assert(obeys(running.gate.turn.rules, running.gate.calls@[i].name@, outcomes[i]));
}

/// A tool name whose visibility decided whether it was offered is never refused by
/// the deployment's switch afterwards.
pub proof fn offered_calls_reach_the_table(
    rules: TurnRules,
    fs_read: bool,
    fs_write: bool,
    terminal: bool,
    name: Seq<char>,
)
    requires
        rules.offered.deep_view().contains(name),
        tool_visible(
            rules.host_access_enabled,
            rules.routed_to_client,
            fs_read,
            fs_write,
            terminal,
            name,
        ),
    ensures
        refusal_up_front(rules, name) is None,
{
    crate::policy::shown_tools_are_not_host_denied(
        rules.host_access_enabled,
        rules.routed_to_client,
        fs_read,
        fs_write,
        terminal,
        name,
    );
}

/// Whether a message asks for calls.
pub open spec fn asks(msg: MessageView) -> bool {
    exists|i: int| 0 <= i < msg.parts.len() && #[trigger] msg.parts[i] is ToolUse
}

/// Whether a message answers calls.
pub open spec fn answers(msg: MessageView) -> bool {
    exists|i: int| 0 <= i < msg.parts.len() && #[trigger] msg.parts[i] is ToolResult
}

/// Whether every message of a session that answers calls comes right after one
/// that asks for some.
pub open spec fn paired(log: Seq<MessageView>) -> bool {
    forall|i: int|
        0 <= i < log.len() && answers(#[trigger] log[i]) ==> i > 0 && asks(log[i - 1])
}

/// What a session holds after a write that was wanted or not, and landed or not.
pub open spec fn written(
    log: Seq<MessageView>,
    append: Option<AppendView>,
    landed: bool,
) -> Seq<MessageView> {
    match append {
        Some(a) => match a.record {
            RecordView::Message(m) => if landed {
                log.push(m)
            } else {
                log
            },
            _ => log,
        },
        None => log,
    }
}

/// A session never holds the answers to calls without the calls: whichever of a
/// round's two writes land, a paired session stays paired.
pub proof fn sessions_stay_paired(
    log: Seq<MessageView>,
    text: Option<Seq<char>>,
    running: Running,
    outputs: Seq<OutputView>,
    reasons: Seq<Seq<char>>,
    use_landed: bool,
    answer_landed: bool,
)
    requires
        paired(log),
        running.gate.calls.len() > 0,
        running.gate.turn.persistence is Some,
        running.gate.tool_use_persisted == use_landed,
    ensures
        ({
            let turn = running.gate.turn;
            let asked = tool_use_message(text, running.gate.calls.deep_view());
            let answered = tool_result_message(
                round_results(running.ran(), outputs, running.not_run(), reasons),
            );
            let mid = written(log, turn.write_message(asked), use_landed);
            let end = if running.gate.tool_use_persisted {
                turn.write_message(answered)
            } else {
                None
            };
            paired(written(mid, end, answer_landed))
        }),
{
    lemma_tool_use_asks(text, running.gate.calls.deep_view());
}

/// A message with calls asks for them and answers none.
pub proof fn lemma_tool_use_asks(text: Option<Seq<char>>, calls: Seq<CallView>)
    requires
        calls.len() > 0,
    ensures
        asks(tool_use_message(text, calls)),
        !answers(tool_use_message(text, calls)),
{
    let asked = tool_use_message(text, calls);
    let at: int = if text is Some {
        1
    } else {
        0
    };
    assert(asked.parts[at] == crate::message::use_part(calls[0]));
    assert forall|i: int| 0 <= i < asked.parts.len() implies !(#[trigger] asked.parts[
        i
    ] is ToolResult) by {
        if i >= at {
            assert(asked.parts[i] == crate::message::use_part(calls[i - at]));
        }
    }
}

/// The prose of a turn is exactly what its host was handed, piece by piece.
pub proof fn prose_is_what_the_host_was_handed(handed: Seq<Seq<char>>, text: Seq<char>)
    ensures
        with_prose(handed, text) == match as_chunk(text) {
            Some(chunk) => handed.push(chunk),
            None => handed,
        },
{
}

/// A call is refused up front as not offered exactly where its name is none of those
/// that were, and as unavailable where it was offered and is kept off this machine.
pub proof fn calls_are_refused_for_their_names(
    rules: TurnRules,
    name: &str,
    r: Option<Refusal>,
    denied: bool,
)
    requires
        call_ensures(TurnRules::refuse_up_front, (&rules, name), r),
        call_ensures(
            host_tool_denied,
            (name, rules.host_access_enabled, rules.routed_to_client),
            denied,
        ),
    ensures
        r == Some(Refusal::NotOffered) <==> (forall|i: int|
            0 <= i < rules.offered.len() ==> (#[trigger] rules.offered@[i])@ != name@),
        r == Some(Refusal::Unavailable) <==> denied && r != Some(Refusal::NotOffered),
        r is None <==> !denied && r != Some(Refusal::NotOffered),
{
    let offered = rules.offered.deep_view();
    assert(offered.len() == rules.offered.len());
    if offered.contains(name@) {
        let i = choose|i: int| 0 <= i < offered.len() && offered[i] == name@;
        assert(offered[i] == rules.offered@[i]@);
    } else {
        assert forall|i: int| 0 <= i < rules.offered.len() implies (#[trigger] rules.offered@[i])@
            != name@ by {
            assert(offered[i] == rules.offered@[i]@);
        }
    }
}

/// Where a call that runs stands among those that do.
pub proof fn lemma_permitted_place(calls: Seq<CallView>, outcomes: Seq<Option<Refusal>>, i: int)
    requires
        0 <= i < outcomes.len() <= calls.len(),
    ensures
        permitted(calls, outcomes).len() == count_of(outcomes, |o: Option<Refusal>| o is None),
        outcomes[i] is None ==> permitted(calls, outcomes)[count_of(
            outcomes.take(i),
            |o: Option<Refusal>| o is None,
        ) as int] == calls[i],
    decreases outcomes.len(),
{
    let runs = |o: Option<Refusal>| o is None;
    let before = outcomes.drop_last();
    lemma_permitted_count(calls, before);
    if i == outcomes.len() - 1 {
        assert(outcomes.take(i) =~= before);
    } else {
        lemma_permitted_place(calls, before, i);
        assert(before.take(i) =~= outcomes.take(i));
        if outcomes[i] is None {
            lemma_count_before(before, runs, i);
        }
    }
}

/// How many calls run, and how many do not.
pub proof fn lemma_permitted_count(calls: Seq<CallView>, outcomes: Seq<Option<Refusal>>)
    ensures
        permitted(calls, outcomes).len() == count_of(outcomes, |o: Option<Refusal>| o is None),
        refused(calls, outcomes).len() == count_of(outcomes, |o: Option<Refusal>| o is Some),
    decreases outcomes.len(),
{
    if outcomes.len() > 0 {
        lemma_permitted_count(calls, outcomes.drop_last());
    }
}

/// Where a call that does not run stands among those that do not.
pub proof fn lemma_refused_place(calls: Seq<CallView>, outcomes: Seq<Option<Refusal>>, i: int)
    requires
        0 <= i < outcomes.len() <= calls.len(),
    ensures
        outcomes[i] is Some ==> refused(calls, outcomes)[count_of(
            outcomes.take(i),
            |o: Option<Refusal>| o is Some,
        ) as int] == (calls[i], outcomes[i].unwrap()),
    decreases outcomes.len(),
{
    let stays = |o: Option<Refusal>| o is Some;
    let before = outcomes.drop_last();
    lemma_permitted_count(calls, before);
    if i == outcomes.len() - 1 {
        assert(outcomes.take(i) =~= before);
    } else {
        lemma_refused_place(calls, before, i);
        assert(before.take(i) =~= outcomes.take(i));
        if outcomes[i] is Some {
            lemma_count_before(before, stays, i);
        }
    }
}

/// Of a round's calls exactly those run that came out so, each as the model asked for
/// it and in that order.
pub proof fn calls_run_as_they_came_out(running: Running, ran: Vec<ToolCall>, i: int)
    requires
        running.wf(),
        call_ensures(Running::permitted, (&running,), ran),
        0 <= i < running.gate.calls.len(),
    ensures
        ({
            let outcomes = running.gate.outcomes@;
            let runs = |o: Option<Refusal>| o is None;
            let k = count_of(outcomes.take(i), runs) as int;
            &&& ran.len() == count_of(outcomes, runs)
            &&& outcomes[i] is None ==> {
                &&& k < ran.len()
                &&& ran@[k].id@ == running.gate.calls@[i].id@
                &&& ran@[k].name@ == running.gate.calls@[i].name@
                &&& ran@[k].input@ == running.gate.calls@[i].input@
            }
        }),
{
    let outcomes = running.gate.outcomes@;
    let runs = |o: Option<Refusal>| o is None;
    let calls = running.gate.calls.deep_view();
    let k = count_of(outcomes.take(i), runs) as int;
    lemma_permitted_place(calls, outcomes, i);
    assert(ran.deep_view().len() == ran.len());
    if outcomes[i] is None {
        lemma_count_before(outcomes, runs, i);
        assert(ran.deep_view()[k] == ran@[k]@);
        assert(calls[i] == running.gate.calls@[i]@);
    }
}

/// Of a round's calls exactly those do not run that came out so, each with its reason
/// and in the order in which the model asked for them.
pub proof fn calls_stay_as_they_came_out(running: Running, not_run: Vec<RefusedCall>, i: int)
    requires
        running.wf(),
        call_ensures(Running::refused, (&running,), not_run),
        0 <= i < running.gate.calls.len(),
    ensures
        ({
            let outcomes = running.gate.outcomes@;
            let stays = |o: Option<Refusal>| o is Some;
            let k = count_of(outcomes.take(i), stays) as int;
            &&& not_run.len() == count_of(outcomes, stays)
            &&& outcomes[i] is Some ==> {
                &&& k < not_run.len()
                &&& not_run@[k].id@ == running.gate.calls@[i].id@
                &&& not_run@[k].name@ == running.gate.calls@[i].name@
                &&& not_run@[k].refusal == outcomes[i].unwrap()
            }
        }),
{
    let outcomes = running.gate.outcomes@;
    let stays = |o: Option<Refusal>| o is Some;
    let calls = running.gate.calls.deep_view();
    let k = count_of(outcomes.take(i), stays) as int;
    lemma_permitted_count(calls, outcomes);
    lemma_refused_place(calls, outcomes, i);
    if outcomes[i] is Some {
        lemma_count_before(outcomes, stays, i);
        assert(calls[i] == running.gate.calls@[i]@);
        assert(not_run@[k].id@ == running.not_run()[k].0.id);
    }
}

proof fn lemma_output_pictures(
    ran: Seq<CallView>,
    outputs: Seq<ToolOutput>,
    not_run: Seq<(CallView, Refusal)>,
    reasons: Seq<Seq<char>>,
    n: int,
)
    requires
        outputs.len() == ran.len(),
        0 <= n <= ran.len() + not_run.len(),
    ensures
        ({
            let views = outputs.map_values(|o: ToolOutput| o.deep_view());
            let results = round_results(ran, views, not_run, reasons);
            sum_of(results.take(n), |r: (Seq<char>, OutputView)| r.1.images.len()) == sum_of(
                outputs.take(
                    if n < ran.len() {
                        n
                    } else {
                        ran.len() as int
                    },
                ),
                |o: ToolOutput| o.images@.len(),
            )
        }),
    decreases n,
{
    let views = outputs.map_values(|o: ToolOutput| o.deep_view());
    let results = round_results(ran, views, not_run, reasons);
    if n > 0 {
        lemma_output_pictures(ran, outputs, not_run, reasons, n - 1);
        assert(results.take(n).drop_last() =~= results.take(n - 1));
        if n <= ran.len() {
            assert(outputs.take(n).drop_last() =~= outputs.take(n - 1));
            assert(results.take(n).last().1 == outputs[n - 1].deep_view());
            assert(outputs.take(n).last() == outputs[n - 1]);
            assert(results[n - 1].1.images.len() == outputs[n - 1].images@.len());
        } else {
            assert(results.take(n).last().1.images.len() == 0);
        }
    }
}

/// A round ends with one message more, which answers every call of it: each that ran
/// with all of its output's text, in order, then each that did not with all of its
/// reason, in order. The pictures of the outputs come last, every one of them, in
/// order. Whatever else the turn holds stays as it was.
#[verifier::rlimit(50)]
pub proof fn rounds_end_with_every_answer(
    running: Running,
    outputs: Vec<ToolOutput>,
    reasons: Vec<String>,
    ran: Vec<ToolCall>,
    not_run: Vec<RefusedCall>,
    r: RoundEnd,
    i: int,
    j: int,
)
    requires
        call_ensures(Running::permitted, (&running,), ran),
        call_ensures(Running::refused, (&running,), not_run),
        outputs.len() == ran.len(),
        reasons.len() == not_run.len(),
        call_ensures(Running::finished, (running, outputs, reasons), r),
    ensures
        ({
            let history = running.gate.turn.history@;
            let msg = r.turn.history@[history.len() as int];
            let pictures = |o: ToolOutput| o.images@.len();
            let first = ran.len() + not_run.len() + sum_of(outputs@.take(i), pictures);
            &&& r.turn.history.len() == history.len() + 1
            &&& 0 <= i < history.len() ==> r.turn.history@[i]@ == history[i]@
            &&& msg.role == Role::User
            &&& msg.input_kind is None
            &&& msg.parts.len() == ran.len() + not_run.len() + sum_of(outputs@, pictures)
            &&& 0 <= i < ran.len() ==> {
                &&& msg.parts@[i] is ToolResult
                &&& msg.parts@[i]->ToolResult_tool_use_id@ == ran@[i].id@
                &&& msg.parts@[i]->content@ == outputs@[i].text@
            }
            &&& 0 <= i < not_run.len() ==> {
                &&& msg.parts@[ran.len() + i] is ToolResult
                &&& msg.parts@[ran.len() + i]->ToolResult_tool_use_id@ == not_run@[i].id@
                &&& msg.parts@[ran.len() + i]->content@ == reasons@[i]@
            }
            &&& 0 <= i < ran.len() && 0 <= j < outputs@[i].images.len() ==> {
                &&& msg.parts@[first + j] is Image
                &&& msg.parts@[first + j]->Image_media_type@ == outputs@[i].images@[j].media_type@
                &&& msg.parts@[first + j]->data_base64@ == outputs@[i].images@[j].data_base64@
            }
            &&& r.calls == running.gate.calls
            &&& r.turn.round == running.gate.turn.round
            &&& r.turn.accumulated == running.gate.turn.accumulated
            &&& r.turn.rules == running.gate.turn.rules
            &&& r.turn.scope == running.gate.turn.scope
            &&& r.turn.persistence == running.gate.turn.persistence
        }),
{
    let history = running.gate.turn.history.deep_view();
    let views = outputs.deep_view();
    let results = round_results(running.ran(), views, running.not_run(), reasons.deep_view());
    let msg = r.turn.history@[history.len() as int];
    let n = ran.len() as int;
    let all = ran.len() + not_run.len();
    let pictures = |o: ToolOutput| o.images@.len();
    assert(history.len() == running.gate.turn.history.len());
    assert(r.turn.history.deep_view().len() == r.turn.history.len());
    assert(r.turn.history.deep_view()[history.len() as int] == msg@);
    assert(ran.deep_view().len() == ran.len());
    assert(views.len() == outputs.len());
    assert(views =~= outputs@.map_values(|o: ToolOutput| o.deep_view()));
    let parts = msg.parts.deep_view();
    assert(parts.len() == msg.parts.len());
    assert(results.len() == all);
    lemma_image_count(results);
    lemma_output_pictures(
        running.ran(),
        outputs@,
        running.not_run(),
        reasons.deep_view(),
        all as int,
    );
    assert(results.take(all as int) =~= results);
    assert(outputs@.take(n) =~= outputs@);
    if 0 <= i < history.len() {
        assert(r.turn.history.deep_view()[i] == r.turn.history@[i]@);
        assert(history[i] == running.gate.turn.history@[i]@);
    }
    if 0 <= i < n {
        assert(parts[i] == msg.parts@[i]@);
        assert(ran.deep_view()[i] == ran@[i]@);
        assert(views[i] == outputs@[i].deep_view());
        assert(parts[i] == result_part(results[i]));
        if 0 <= j < outputs@[i].images.len() {
            lemma_output_pictures(
                running.ran(),
                outputs@,
                running.not_run(),
                reasons.deep_view(),
                i,
            );
            assert(results[i].1.images.len() == outputs@[i].images@.len());
            lemma_image_place(results, i, j);
            let first = all + sum_of(outputs@.take(i), pictures);
            assert(parts[first + j] == results[i].1.images[j]);
            assert(parts[first + j] == msg.parts@[first + j]@);
            assert(results[i].1.images[j] == outputs@[i].images@[j].deep_view());
        }
    }
    if 0 <= i < not_run.len() {
        assert(parts[n + i] == msg.parts@[n + i]@);
        assert(parts[n + i] == result_part(results[n + i]));
        assert(not_run@[i].id@ == running.not_run()[i].0.id);
        assert(reasons.deep_view()[i] == reasons@[i]@);
    }
}

/// The message that answers a round is written exactly where the turn has a session and
/// the message with the calls was written, and it is the one that joined the history.
pub proof fn answers_are_written_where_the_calls_were(
    running: Running,
    outputs: Vec<ToolOutput>,
    reasons: Vec<String>,
    r: RoundEnd,
    p: TurnPersistence,
    write: Append,
)
    requires
        call_ensures(Running::finished, (running, outputs, reasons), r),
        running.gate.turn.persistence is Some ==> p == running.gate.turn.persistence.unwrap(),
        call_ensures(
            TurnPersistence::append_message_paired,
            (&p, &r.turn.history@[running.gate.turn.history.len() as int]),
            write,
        ),
    ensures
        r.append is Some <==> running.gate.turn.persistence is Some
            && running.gate.tool_use_persisted,
        r.append is Some ==> r.append.unwrap().record@ == write.record@,
        r.append is Some ==> r.append.unwrap().session_id@ == write.session_id@,
        r.append is Some ==> r.append.unwrap().store == write.store,
{
    let n = running.gate.turn.history.len() as int;
    assert(running.gate.turn.history.deep_view().len() == n);
    assert(r.turn.history.deep_view().len() == r.turn.history.len());
    assert(r.turn.history.deep_view()[n] == r.turn.history@[n]@);
    if r.append is Some {
        assert(r.append.deep_view() == Some(r.append.unwrap()@));
    } else {
        assert(r.append.deep_view() is None);
    }
}

/// An answer without calls ends the turn: it joins the history whole, as the
/// assistant's and with nothing else, the host is handed it where it is not empty, and
/// what the turn said is all of its prose. Nothing but the history and the prose
/// changes.
pub proof fn last_answers_are_taken_whole(
    round: Round,
    resp: ChatResponse,
    r: Reply,
    i: int,
    text: String,
)
    requires
        call_ensures(Round::replied, (round, resp), r),
        r is Final,
        call_ensures(text::join, (&r->Final_0.turn.accumulated, "\n\n"), text),
    ensures
        ({
            let f = r->Final_0;
            let history = round.turn.history@;
            let msg = f.turn.history@[history.len() as int];
            let before = round.turn.accumulated@;
            let silent = resp.text is None || resp.text.unwrap()@.len() == 0;
            &&& resp.tool_calls.len() == 0
            &&& f.turn.history.len() == history.len() + 1
            &&& 0 <= i < history.len() ==> f.turn.history@[i]@ == history[i]@
            &&& msg.role == Role::Assistant
            &&& msg.input_kind is None
            &&& msg.parts.len() == 1
            &&& msg.parts@[0] is Text
            &&& resp.text is Some ==> msg.parts@[0]->Text_0@ == resp.text.unwrap()@
            &&& resp.text is None ==> msg.parts@[0]->Text_0@.len() == 0
            &&& f.chunk is None <==> silent
            &&& !silent ==> f.chunk.unwrap()@ == resp.text.unwrap()@
            &&& silent ==> f.turn.accumulated.len() == before.len()
            &&& !silent ==> f.turn.accumulated.len() == before.len() + 1
            &&& !silent ==> f.turn.accumulated@[before.len() as int]@ == resp.text.unwrap()@
            &&& 0 <= i < before.len() ==> f.turn.accumulated@[i]@ == before[i]@
            &&& f.text@ == text@
            &&& f.turn.round == round.turn.round
            &&& f.turn.rules == round.turn.rules
            &&& f.turn.scope == round.turn.scope
            &&& f.turn.persistence == round.turn.persistence
        }),
{
    let f = r->Final_0;
    let n = round.turn.history.len() as int;
    let m = round.turn.accumulated.len() as int;
    assert(round.turn.history.deep_view().len() == n);
    assert(f.turn.history.deep_view().len() == f.turn.history.len());
    assert(f.turn.history.deep_view()[n] == f.turn.history@[n]@);
    assert(f.turn.history@[n].parts.deep_view().len() == f.turn.history@[n].parts.len());
    assert(f.turn.history@[n].parts.deep_view()[0] == f.turn.history@[n].parts@[0]@);
    assert(round.turn.accumulated.deep_view().len() == m);
    assert(f.turn.accumulated.deep_view().len() == f.turn.accumulated.len());
    if 0 <= i < n {
        assert(f.turn.history.deep_view()[i] == f.turn.history@[i]@);
        assert(round.turn.history.deep_view()[i] == round.turn.history@[i]@);
    }
    if 0 <= i < m {
        assert(f.turn.accumulated.deep_view()[i] == f.turn.accumulated@[i]@);
        assert(round.turn.accumulated.deep_view()[i] == round.turn.accumulated@[i]@);
    }
    if f.turn.accumulated.len() > m {
        assert(f.turn.accumulated.deep_view()[m] == f.turn.accumulated@[m]@);
    }
    if f.chunk is Some {
        assert(f.chunk.deep_view() == Some(f.chunk.unwrap()@));
    } else {
        assert(f.chunk.deep_view() is None);
    }
}

/// An answer with calls opens a tool round: its prose, where it has any, and every call
/// join the history in one message, the host is handed the prose where it is not
/// empty, and the turn counts one round more, as far as numbers go.
pub proof fn calls_are_taken_whole(
    round: Round,
    resp: ChatResponse,
    r: Reply,
    i: int,
)
    requires
        call_ensures(Round::replied, (round, resp), r),
    ensures
        r is Tools <==> resp.tool_calls.len() > 0,
        r is Tools ==> {
            let u = r->Tools_0;
            let history = round.turn.history@;
            let msg = u.turn.history@[history.len() as int];
            let before = round.turn.accumulated@;
            let silent = resp.text is None || resp.text.unwrap()@.len() == 0;
            let head: int = if resp.text is Some {
                1
            } else {
                0
            };
            &&& u.turn.history.len() == history.len() + 1
            &&& 0 <= i < history.len() ==> u.turn.history@[i]@ == history[i]@
            &&& msg.role == Role::Assistant
            &&& msg.input_kind is None
            &&& msg.parts.len() == head + resp.tool_calls.len()
            &&& resp.text is Some ==> msg.parts@[0] is Text && msg.parts@[0]->Text_0@
                == resp.text.unwrap()@
            &&& 0 <= i < resp.tool_calls.len() ==> {
                let part = msg.parts@[head + i];
                &&& part is ToolUse
                &&& part->ToolUse_id@ == resp.tool_calls@[i].id@
                &&& part->ToolUse_name@ == resp.tool_calls@[i].name@
                &&& part->input@ == resp.tool_calls@[i].input@
            }
            &&& u.calls == resp.tool_calls
            &&& u.chunk is None <==> silent
            &&& !silent ==> u.chunk.unwrap()@ == resp.text.unwrap()@
            &&& silent ==> u.turn.accumulated.len() == before.len()
            &&& !silent ==> u.turn.accumulated.len() == before.len() + 1
            &&& !silent ==> u.turn.accumulated@[before.len() as int]@ == resp.text.unwrap()@
            &&& 0 <= i < before.len() ==> u.turn.accumulated@[i]@ == before[i]@
            &&& round.turn.round < usize::MAX ==> u.turn.round == round.turn.round + 1
            &&& round.turn.round == usize::MAX ==> u.turn.round == usize::MAX
            &&& u.turn.rules == round.turn.rules
            &&& u.turn.scope == round.turn.scope
            &&& u.turn.persistence == round.turn.persistence
        },
{
    if r is Tools {
        let u = r->Tools_0;
        let n = round.turn.history.len() as int;
        let m = round.turn.accumulated.len() as int;
        let head: int = if resp.text is Some {
            1
        } else {
            0
        };
        assert(round.turn.history.deep_view().len() == n);
        assert(u.turn.history.deep_view().len() == u.turn.history.len());
        assert(u.turn.history.deep_view()[n] == u.turn.history@[n]@);
        let msg = u.turn.history@[n];
        let parts = msg.parts.deep_view();
        assert(parts.len() == msg.parts.len());
        assert(resp.tool_calls.deep_view().len() == resp.tool_calls.len());
        assert(round.turn.accumulated.deep_view().len() == m);
        assert(u.turn.accumulated.deep_view().len() == u.turn.accumulated.len());
        if resp.text is Some {
            assert(resp.text.deep_view() == Some(resp.text.unwrap()@));
            assert(parts[0] == msg.parts@[0]@);
        } else {
            assert(resp.text.deep_view() is None);
        }
        if 0 <= i < resp.tool_calls.len() {
            assert(parts[head + i] == msg.parts@[head + i]@);
            assert(resp.tool_calls.deep_view()[i] == resp.tool_calls@[i]@);
            assert(parts[head + i] == crate::message::use_part(resp.tool_calls.deep_view()[i]));
        }
        if 0 <= i < n {
            assert(u.turn.history.deep_view()[i] == u.turn.history@[i]@);
            assert(round.turn.history.deep_view()[i] == round.turn.history@[i]@);
        }
        if 0 <= i < m {
            assert(u.turn.accumulated.deep_view()[i] == u.turn.accumulated@[i]@);
            assert(round.turn.accumulated.deep_view()[i] == round.turn.accumulated@[i]@);
        }
        if u.turn.accumulated.len() > m {
            assert(u.turn.accumulated.deep_view()[m] == u.turn.accumulated@[m]@);
        }
        if u.chunk is Some {
            assert(u.chunk.deep_view() == Some(u.chunk.unwrap()@));
        } else {
            assert(u.chunk.deep_view() is None);
        }
    }
}

/// Every answer of the model is written as it joined the history, exactly where the
/// turn has a session.
pub proof fn answers_are_written_as_they_joined(
    round: Round,
    resp: ChatResponse,
    r: Reply,
    p: TurnPersistence,
    joined: ChatMessage,
    write: Append,
)
    requires
        call_ensures(Round::replied, (round, resp), r),
        round.turn.persistence is Some ==> p == round.turn.persistence.unwrap(),
        r is Final ==> joined == r->Final_0.turn.history@[round.turn.history.len() as int],
        r is Tools ==> joined == r->Tools_0.turn.history@[round.turn.history.len() as int],
        call_ensures(TurnPersistence::append_message, (&p, &joined), write),
    ensures
        ({
            let append = match r {
                Reply::Final(f) => f.append,
                Reply::Tools(u) => u.append,
            };
            &&& append is Some <==> round.turn.persistence is Some
            &&& append is Some ==> append.unwrap().record@ == write.record@
            &&& append is Some ==> append.unwrap().session_id@ == write.session_id@
            &&& append is Some ==> append.unwrap().store == write.store
        }),
{
    let n = round.turn.history.len() as int;
    let append = match r {
        Reply::Final(f) => f.append,
        Reply::Tools(u) => u.append,
    };
    let history = match r {
        Reply::Final(f) => f.turn.history,
        Reply::Tools(u) => u.turn.history,
    };
    assert(round.turn.history.deep_view().len() == n);
    assert(history.deep_view().len() == history.len());
    assert(history.deep_view()[n] == history@[n]@);
    if append is Some {
        assert(append.deep_view() == Some(append.unwrap()@));
    } else {
        assert(append.deep_view() is None);
    }
}

/// A round starts unless the turn has as many behind it as it may take. A turn that
/// may take no more stops with all of its prose.
pub proof fn rounds_start_while_there_are_any(
    turn: TurnLoop,
    r: Result<Round, (TurnLoop, TurnStop)>,
    text: String,
)
    requires
        call_ensures(TurnLoop::begin_round, (turn,), r),
        call_ensures(text::join, (&turn.accumulated, "\n\n"), text),
    ensures
        r is Err <==> turn.rules.round_limit is Some && turn.round
            >= turn.rules.round_limit.unwrap(),
        r is Ok ==> r->Ok_0.turn == turn,
        r is Err ==> r->Err_0.0 == turn,
        r is Err ==> r->Err_0.1 is BudgetExhausted && r->Err_0.1->partial_text@ == text@,
{
}

/// A turn starts without a round or prose behind it, and a turn whose model failed ends
/// as it stands, with the words of the model.
pub proof fn turns_start_and_fail_as_they_stand(
    rules: TurnRules,
    scope: TurnScope,
    persistence: Option<TurnPersistence>,
    history: Vec<ChatMessage>,
    turn: TurnLoop,
    round: Round,
    message: String,
    r: (TurnLoop, TurnStop),
)
    requires
        call_ensures(TurnLoop::new, (rules, scope, persistence, history), turn),
        call_ensures(Round::failed, (round, message), r),
    ensures
        turn.round == 0,
        turn.accumulated.len() == 0,
        turn.history == history,
        turn.rules == rules,
        turn.scope == scope,
        turn.persistence == persistence,
        r.0 == round.turn,
        r.1 is ProviderError,
        r.1->ProviderError_message@ == message@,
{
}

/// A shortened history takes the place of the turn's. Its summary is written with every
/// character, exactly where there is one and the turn has a session. Where nothing was
/// shortened nothing changes and nothing is written.
pub proof fn shortened_histories_take_the_place(
    before: Round,
    after: Round,
    result: Option<CompressionResult>,
    append: Option<Append>,
)
    requires
        exists|s: &mut Round|
            *s == before && *final(s) == after && #[trigger] call_ensures(
                Round::compressed,
                (s, result),
                append,
            ),
    ensures
        after.turn.history == if result is Some {
            result.unwrap().compressed
        } else {
            before.turn.history
        },
        after.turn.rules == before.turn.rules,
        after.turn.scope == before.turn.scope,
        after.turn.persistence == before.turn.persistence,
        after.turn.round == before.turn.round,
        after.turn.accumulated == before.turn.accumulated,
        append is Some <==> before.turn.persistence is Some && result is Some
            && result.unwrap().summary is Some,
        append is Some ==> {
            let p = before.turn.persistence.unwrap();
            let record = append.unwrap().record;
            &&& append.unwrap().session_id@ == p.session_id@
            &&& record is Summary
            &&& record->Summary_text@ == result.unwrap().summary.unwrap()@
            &&& record->Summary_keep_recent == result.unwrap().keep_recent
        },
{
    if append is Some {
        assert(append.deep_view() == Some(append.unwrap()@));
    } else {
        assert(append.deep_view() is None);
    }
}

/// The model is handed every message, in order, each as it is shown alone.
pub proof fn models_are_handed_every_message(
    round: Round,
    hydrated: Vec<ChatMessage>,
    r: Vec<ChatMessage>,
    shown: Vec<ChatMessage>,
    i: int,
)
    requires
        call_ensures(Round::provider_messages, (&round, hydrated), r),
        call_ensures(label_history, (hydrated,), shown),
    ensures
        r.len() == hydrated.len(),
        0 <= i < hydrated.len() ==> r@[i]@ == shown@[i]@,
{
    assert(r.deep_view().len() == r.len());
    assert(shown.deep_view().len() == shown.len());
    assert(hydrated.deep_view().len() == hydrated.len());
    if 0 <= i < hydrated.len() {
        assert(r.deep_view()[i] == r@[i]@);
        assert(shown.deep_view()[i] == shown@[i]@);
    }
}

/// The calls of a round are judged from the first on. Those that are refused up front
/// are refused as they come, and the first that is not is for the permission table.
/// The message with them counts as written where it was, or had nowhere to be.
pub proof fn calls_are_judged_in_order(
    asked: ToolUse,
    landed: bool,
    r: GateStep,
    i: int,
    name: &str,
    refusal: Option<Refusal>,
)
    requires
        asked.turn.wf(),
        call_ensures(ToolUse::appended, (asked, landed), r),
        0 <= i < asked.calls.len(),
        name@ == asked.calls@[i].name@,
        call_ensures(TurnRules::refuse_up_front, (&asked.turn.rules, name), refusal),
    ensures
        ({
            let gate = match r {
                GateStep::Judge(j) => j.gate,
                GateStep::Execute(e) => e.gate,
            };
            let n = gate.outcomes.len();
            &&& gate.turn == asked.turn
            &&& gate.calls == asked.calls
            &&& gate.tool_use_persisted <==> asked.turn.persistence is None || landed
            &&& n <= asked.calls.len()
            &&& i < n ==> gate.outcomes@[i] is Some && gate.outcomes@[i] == refusal
            &&& r is Judge <==> n < asked.calls.len()
            &&& i == n ==> refusal is None
        }),
{
}

/// The permission table's word is taken as it is: a call that it allows runs, one that
/// it denies is refused as unavailable, and one that it leaves to a human waits. The
/// calls before are not judged again, and those after that are refused up front are.
pub proof fn the_tables_word_is_taken(
    judging: Judging,
    decision: Decision,
    r: Verdict,
    i: int,
    name: &str,
    refusal: Option<Refusal>,
)
    requires
        judging.wf(),
        call_ensures(Judging::decided, (judging, decision), r),
        0 <= i < judging.gate.calls.len(),
        name@ == judging.gate.calls@[i].name@,
        call_ensures(TurnRules::refuse_up_front, (&judging.gate.turn.rules, name), refusal),
    ensures
        r is Ask <==> decision is Ask,
        r is Ask ==> r->Ask_0.gate == judging.gate,
        r is Settled ==> (r->Settled_0 is Allowed <==> decision is Allow),
        r is Settled ==> {
            let n = judging.gate.outcomes.len() as int;
            let next = match r->Settled_0 {
                Settled::Allowed { id, next } => next,
                Settled::Refused { next } => next,
            };
            let gate = match next {
                GateStep::Judge(j) => j.gate,
                GateStep::Execute(e) => e.gate,
            };
            &&& decision is Allow ==> r->Settled_0->Allowed_id@ == judging.gate.calls@[n].id@
            &&& gate.turn == judging.gate.turn
            &&& gate.calls == judging.gate.calls
            &&& gate.tool_use_persisted == judging.gate.tool_use_persisted
            &&& gate.outcomes.len() > n
            &&& i < n ==> gate.outcomes@[i] == judging.gate.outcomes@[i]
            &&& n < i < gate.outcomes.len() ==> gate.outcomes@[i] is Some && gate.outcomes@[i]
                == refusal
            &&& i == gate.outcomes.len() ==> refusal is None
            &&& decision is Allow ==> gate.outcomes@[n] is None
            &&& decision is Deny ==> gate.outcomes@[n] == Some(Refusal::Unavailable)
            &&& next is Judge <==> gate.outcomes.len() < gate.calls.len()
        },
{
    let n = judging.gate.outcomes.len() as int;
    if r is Settled {
        let next = match r->Settled_0 {
            Settled::Allowed { id, next } => next,
            Settled::Refused { next } => next,
        };
        let outcome = if decision is Allow {
            None
        } else {
            Some(Refusal::Unavailable)
        };
        let before = judging.gate.outcomes@.push(outcome);
        assert(next.gate().outcomes@.take(before.len() as int) =~= before);
        if i < n {
            assert(next.gate().outcomes@[i] == before[i]);
        }
        assert(next.gate().outcomes@[n] == before[n]);
    }
}

/// A human's word is taken as it is: a call runs where they said yes, once or for good,
/// and is refused as declined where they said no. The calls before are not judged
/// again.
pub proof fn a_humans_word_is_taken(
    asking: Asking,
    approval: Approval,
    r: Settled,
    i: int,
    name: &str,
    refusal: Option<Refusal>,
)
    requires
        asking.wf(),
        call_ensures(Asking::answered, (asking, approval), r),
        0 <= i < asking.gate.calls.len(),
        name@ == asking.gate.calls@[i].name@,
        call_ensures(TurnRules::refuse_up_front, (&asking.gate.turn.rules, name), refusal),
    ensures
        r is Allowed <==> approval is AllowOnce || approval is AllowAlways,
        ({
            let n = asking.gate.outcomes.len() as int;
            let next = match r {
                Settled::Allowed { id, next } => next,
                Settled::Refused { next } => next,
            };
            let gate = match next {
                GateStep::Judge(j) => j.gate,
                GateStep::Execute(e) => e.gate,
            };
            &&& r is Allowed ==> r->Allowed_id@ == asking.gate.calls@[n].id@
            &&& gate.turn == asking.gate.turn
            &&& gate.calls == asking.gate.calls
            &&& gate.tool_use_persisted == asking.gate.tool_use_persisted
            &&& gate.outcomes.len() > n
            &&& i < n ==> gate.outcomes@[i] == asking.gate.outcomes@[i]
            &&& n < i < gate.outcomes.len() ==> gate.outcomes@[i] is Some && gate.outcomes@[i]
                == refusal
            &&& i == gate.outcomes.len() ==> refusal is None
            &&& r is Allowed ==> gate.outcomes@[n] is None
            &&& r is Refused ==> gate.outcomes@[n] == Some(Refusal::UserDeclined)
            &&& next is Judge <==> gate.outcomes.len() < gate.calls.len()
        }),
{
    let n = asking.gate.outcomes.len() as int;
    let next = match r {
        Settled::Allowed { id, next } => next,
        Settled::Refused { next } => next,
    };
    let outcome = if r is Allowed {
        None
    } else {
        Some(Refusal::UserDeclined)
    };
    let before = asking.gate.outcomes@.push(outcome);
    assert(next.gate().outcomes@.take(before.len() as int) =~= before);
    if i < n {
        assert(before[i] == asking.gate.outcomes@[i]);
        assert(next.gate().outcomes@[i] == before[i]);
    }
    assert(next.gate().outcomes@[n] == before[n]);
}

/// The call that the table or a human is asked about is the first that is not judged.
pub proof fn the_next_call_is_asked_about(
    judging: Judging,
    asking: Asking,
    judged: &ToolCall,
    asked: &ToolCall,
)
    requires
        call_ensures(Judging::call, (&judging,), judged),
        call_ensures(Asking::call, (&asking,), asked),
    ensures
        *judged == judging.gate.calls@[judging.gate.outcomes.len() as int],
        *asked == asking.gate.calls@[asking.gate.outcomes.len() as int],
{
}

/// What a call runs under is what the turn has: the tools that its model was shown, in
/// order, its device, its session where it has one, its depth and its grant.
pub proof fn calls_run_under_what_the_turn_has(running: Running, r: TurnContext)
    requires
        call_ensures(Running::context, (&running,), r),
    ensures
        ({
            let turn = running.gate.turn;
            &&& r.visible_tools@ == turn.rules.offered@
            &&& r.timer_device == turn.scope.timer_device
            &&& r.session_id is Some <==> turn.persistence is Some
            &&& r.session_id is Some ==> r.session_id.unwrap()@
                == turn.persistence.unwrap().session_id@
            &&& r.subagent_depth == turn.scope.subagent_depth
            &&& r.admin_room_profile == turn.scope.admin_room_profile
        }),
{
}

} // verus!
