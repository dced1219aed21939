//! A bench on which a whole turn runs without a model, a disk or a human: a model
//! that answers from a script, tools that only note that they ran, and a session
//! that is a list.

use vstd::prelude::*;

use crate::host::{HostMessage, TurnHost};
use crate::json::Json;
use crate::message::{
    copy_messages, tool_result_message, CallView, ChatMessage, ChatResponse, ToolCall, ToolOutput,
};
use crate::persistence::{Append, Record};
use crate::policy::{Approval, Decision, Refusal};
use crate::rehearsal::{
    after_ask, after_reply, after_tools, allowances, chunk_told, ended_steps, ends, final_message,
    has_call, judged_steps, left_of, lemma_has_call_more, lemma_one_more,
    lemma_plain_write_stays_paired, lemma_refused_up_front, lemma_round_stays_paired,
    lemma_sent_none, lemma_sent_one, lemma_sent_then, names_asked, output_of, outcomes_of,
    ran_steps, refusal_words, rehearsed, results_of, round_course, round_told, runs, sent_and,
    sent_for, started_steps, starts, tried, write_of, HostCall, Setting, StepView, StopView, Trace,
};
use crate::table::Table;
use crate::text;
use crate::turn_loop::{
    answers, paired, permitted, refusal_up_front, refused, GateStep, RefusedCall, Reply, Running,
    Settled, ToolUse, TurnLoop, TurnScope, TurnStop, Verdict,
};

verus! {

/// What a model was called with: the system prompt and the tools that it was shown.
pub type LoggedCall = (Option<String>, Vec<String>);

/// The mathematical value of a [`LoggedCall`].
pub open spec fn logged(call: LoggedCall) -> (Option<Seq<char>>, Seq<Seq<char>>) {
    (call.0.deep_view(), call.1.deep_view())
}

/// Every call that a model has seen, in order.
#[derive(Debug, PartialEq, Eq)]
pub struct ChatLog {
    entries: Vec<LoggedCall>,
}

impl View for ChatLog {
    type V = Seq<(Option<Seq<char>>, Seq<Seq<char>>)>;

    closed spec fn view(&self) -> Seq<(Option<Seq<char>>, Seq<Seq<char>>)> {
        self.entries@.map_values(|c: LoggedCall| logged(c))
    }
}

impl ChatLog {
    /// A log without calls.
    pub fn new() -> (r: ChatLog)
        ensures
            r@.len() == 0,
    {
        ChatLog { entries: Vec::new() }
    }

    /// Notes a call.
    fn note(&mut self, system: Option<&str>, tools: &Vec<String>)
        ensures
            final(self)@ == old(self)@.push((text::opt(system), tools.deep_view())),
    {
        let ghost before = self@;
        let system = match system {
            Some(s) => Some(s.to_owned()),
            None => None,
        };
        let names = text::copy_list(tools);
        assert(names.deep_view() =~= tools.deep_view());
        self.entries.push((system, names));
        assert(self@ =~= before.push((system.deep_view(), names.deep_view())));
    }

    /// The calls so far, in order.
    pub fn calls(&self) -> (r: Vec<LoggedCall>)
        ensures
            r@.map_values(|c: LoggedCall| logged(c)) == self@,
    {
        let mut r: Vec<LoggedCall> = Vec::new();
        let mut i: usize = 0;
        while i < self.entries.len()
            invariant
                i <= self.entries.len(),
                r.len() == i,
                forall|k: int| 0 <= k < i ==> logged(#[trigger] r@[k]) == logged(self.entries@[k]),
            decreases self.entries.len() - i,
        {
            let call = &self.entries[i];
            let tools = text::copy_list(&call.1);
            assert(tools.deep_view() =~= call.1.deep_view());
            r.push((text::copy_option(&call.0), tools));
            i += 1;
        }
        assert(r@.map_values(|c: LoggedCall| logged(c)) =~= self@);
        r
    }
}

/// How often a model that hangs was called, and how often such a call was given up.
#[derive(Clone, Copy, Debug, PartialEq, Eq, Structural)]
pub struct HangingChat {
    pub entered: u64,
    pub dropped: u64,
}

/// What comes of a call of the model.
#[derive(Debug, PartialEq)]
pub enum Chat {
    Answered(ChatResponse),
    Failed(String),
    /// Nothing comes until the call is given up.
    Hangs,
}

/// A model that answers from a script, or never.
#[derive(Debug, PartialEq)]
pub struct StubProvider {
    /// What is still to come, the next last. `None` is a model that hangs.
    script: Option<Vec<Result<ChatResponse, String>>>,
    hanging: HangingChat,
    calls: ChatLog,
}

impl StubProvider {
    /// What is still to come, in order.
    pub closed spec fn script(self) -> Seq<Result<ChatResponse, String>> {
        match self.script {
            Some(s) => s@.reverse(),
            None => Seq::empty(),
        }
    }

    /// Whether the model hangs.
    pub closed spec fn hangs(self) -> bool {
        self.script is None
    }

    /// The calls so far.
    pub closed spec fn log(self) -> Seq<(Option<Seq<char>>, Seq<Seq<char>>)> {
        self.calls@
    }

    /// How often the model was called in vain.
    pub closed spec fn observed(self) -> HangingChat {
        self.hanging
    }

    /// A model that gives these answers, one per call.
    pub fn new(responses: Vec<ChatResponse>) -> (r: StubProvider)
        ensures
            !r.hangs(),
            r.log().len() == 0,
            r.script() == responses@.map_values(
                |c: ChatResponse| Ok::<ChatResponse, String>(c),
            ),
    {
        let ghost want = responses@.map_values(|c: ChatResponse| Ok::<ChatResponse, String>(c));
        let mut items: Vec<Result<ChatResponse, String>> = Vec::new();
        for response in it: responses
            invariant
                it.seq() == responses@,
                want == responses@.map_values(|c: ChatResponse| Ok::<ChatResponse, String>(c)),
                items@ == want.take(it.index() as int),
        {
            let ghost k = it.index() as int;
            items.push(Ok(response));
            assert(want.take(k + 1) =~= want.take(k).push(want[k]));
        }
        assert(want.take(want.len() as int) =~= want);
        StubProvider::new_scripted(items)
    }

    /// A model that goes by a script, in which a call may also fail.
    pub fn new_scripted(items: Vec<Result<ChatResponse, String>>) -> (r: StubProvider)
        ensures
            !r.hangs(),
            r.log().len() == 0,
            r.script() == items@,
    {
        let ghost want = items@;
        let mut rest = items;
        let mut script: Vec<Result<ChatResponse, String>> = Vec::new();
        while rest.len() > 0
            invariant
                rest@.len() + script@.len() == want.len(),
                rest@ =~= want.take(rest@.len() as int),
                script@ =~= want.skip(rest@.len() as int).reverse(),
            decreases rest.len(),
        {
            let ghost n = rest@.len() as int;
            if let Some(item) = rest.pop() {
                script.push(item);
                assert(want.skip(n - 1) =~= seq![want[n - 1]] + want.skip(n));
            }
        }
        assert(want.skip(0) =~= want);
        let r = StubProvider {
            script: Some(script),
            hanging: HangingChat { entered: 0, dropped: 0 },
            calls: ChatLog::new(),
        };
        assert(r.script() =~= want);
        r
    }

    /// A model that never answers, and what has been seen of it.
    pub fn new_hanging() -> (r: (StubProvider, HangingChat))
        ensures
            r.0.hangs(),
            r.0.log().len() == 0,
            r.0.observed() == r.1,
            r.1 == (HangingChat { entered: 0, dropped: 0 }),
    {
        let hanging = HangingChat { entered: 0, dropped: 0 };
        (StubProvider { script: None, hanging, calls: ChatLog::new() }, hanging)
    }

    /// The calls so far.
    pub fn call_log(&self) -> (r: ChatLog)
        ensures
            r@ == self.log(),
    {
        let entries = self.calls.calls();
        let r = ChatLog { entries };
        assert(r@ =~= self.log());
        r
    }

    /// How often the model was called in vain.
    pub fn hanging_chat(&self) -> (r: HangingChat)
        ensures
            r == self.observed(),
    {
        self.hanging
    }

    /// Calls the model. It gives what comes next in its script; a script that is
    /// used up fails every call.
    pub fn chat(&mut self, system: Option<&str>, tools: &Vec<String>) -> (r: Chat)
        ensures
            final(self).log() == old(self).log().push((text::opt(system), tools.deep_view())),
            final(self).hangs() == old(self).hangs(),
            !old(self).hangs() ==> final(self).observed() == old(self).observed(),
            if old(self).hangs() {
                &&& r is Hangs
                &&& final(self).observed().dropped == old(self).observed().dropped
                &&& old(self).observed().entered < u64::MAX ==> final(self).observed().entered
                    == old(self).observed().entered + 1
            } else if old(self).script().len() == 0 {
                &&& r matches Chat::Failed(message)
                &&& message@ == "StubProvider script exhausted"@
                &&& final(self).script().len() == 0
            } else {
                &&& final(self).script() == old(self).script().drop_first()
                &&& match old(self).script()[0] {
                    Ok(response) => r == Chat::Answered(response),
                    Err(message) => r == Chat::Failed(message),
                }
            },
    {
        self.calls.note(system, tools);
        match &mut self.script {
            None => {
                if self.hanging.entered < u64::MAX {
                    self.hanging.entered = self.hanging.entered + 1;
                }
                Chat::Hangs
            },
            Some(script) => {
                let ghost before = script@;
                match script.pop() {
                    Some(item) => {
                        proof {
                            assert(before.reverse()[0] == before.last());
                            assert(before.reverse().drop_first() =~= before.drop_last().reverse());
                        }
                        match item {
                            Ok(response) => Chat::Answered(response),
                            Err(message) => Chat::Failed(message),
                        }
                    },
                    None => Chat::Failed("StubProvider script exhausted".to_owned()),
                }
            },
        }
    }

    /// Gives up a call that hangs.
    pub fn give_up(&mut self)
        ensures
            final(self).hangs() == old(self).hangs(),
            final(self).script() == old(self).script(),
            final(self).log() == old(self).log(),
            final(self).observed().entered == old(self).observed().entered,
            old(self).observed().dropped < u64::MAX ==> final(self).observed().dropped == old(
                self,
            ).observed().dropped + 1,
    {
        if self.hanging.dropped < u64::MAX {
            self.hanging.dropped = self.hanging.dropped + 1;
        }
    }
}

/// A tool that stands in for one that needs permission. It notes that it ran.
#[derive(Clone, Copy, Debug, PartialEq, Eq, Structural)]
pub struct RiskyTool {
    ran: bool,
}

impl RiskyTool {
    /// Whether the tool ran.
    pub closed spec fn has_run(self) -> bool {
        self.ran
    }

    /// A tool that has not run.
    pub fn new() -> (r: RiskyTool)
        ensures
            !r.has_run(),
    {
        RiskyTool { ran: false }
    }

    /// Whether the tool ran.
    pub fn ran_flag(&self) -> (r: bool)
        ensures
            r == self.has_run(),
    {
        self.ran
    }

    /// Runs the tool.
    pub fn execute(&mut self) -> (r: ToolOutput)
        ensures
            final(self).has_run(),
            r@.text == "ran"@,
            r@.images.len() == 0,
    {
        self.ran = true;
        ToolOutput::plain("ran".to_owned())
    }
}

/// A tool that notes which room's grant it was run under.
#[derive(Debug, PartialEq, Eq)]
pub struct AdminProfileProbe {
    seen: Option<Option<String>>,
}

impl AdminProfileProbe {
    /// What the tool has seen; nothing before it ran.
    pub closed spec fn noted(self) -> Option<Option<String>> {
        self.seen
    }

    /// A tool that has not run.
    pub fn new() -> (r: AdminProfileProbe)
        ensures
            r.noted() is None,
    {
        AdminProfileProbe { seen: None }
    }

    /// What the tool has seen; nothing before it ran.
    pub fn seen(&self) -> (r: Option<Option<String>>)
        ensures
            r == self.noted(),
    {
        match &self.seen {
            Some(profile) => Some(text::copy_option(profile)),
            None => None,
        }
    }

    /// Runs the tool under a turn's scope.
    pub fn execute(&mut self, scope: &TurnScope) -> (r: ToolOutput)
        ensures
            final(self).noted() == Some(scope.admin_room_profile),
            r@.text == "probed"@,
            r@.images.len() == 0,
    {
        self.seen = Some(text::copy_option(&scope.admin_room_profile));
        ToolOutput::plain("probed".to_owned())
    }
}

/// What the tool gives that says its input's text back.
pub fn echo(input: &Json) -> (r: ToolOutput)
    ensures
        r@.text == match input@.get_text("text"@) {
            Some(t) => t,
            None => Seq::empty(),
        },
        r@.images.len() == 0,
{
    ToolOutput::plain(
        match input.get_str("text") {
            Some(t) => t.to_owned(),
            None => String::new(),
        },
    )
}

/// Something that became of a call, by the call's identifier.
#[derive(Debug, PartialEq, Eq)]
pub enum Step {
    /// The host was told that it starts.
    Started(String),
    /// The human was asked about it.
    Asked(String),
    /// The host was told that it is let through.
    Allowed(String),
    Ran(String),
    /// The host was told that it has ended.
    Ended(String),
}

impl DeepView for Step {
    type V = StepView;

    open spec fn deep_view(&self) -> StepView {
        match self {
            Step::Started(id) => StepView::Started(id@),
            Step::Asked(id) => StepView::Asked(id@),
            Step::Allowed(id) => StepView::Allowed(id@),
            Step::Ran(id) => StepView::Ran(id@),
            Step::Ended(id) => StepView::Ended(id@),
        }
    }
}

/// A bench on which a whole turn runs.
pub struct Bench {
    pub provider: StubProvider,
    /// The system prompt that the model is asked with.
    pub system: Option<String>,
    /// What the permission table says of a tool; it allows those that it does not
    /// list.
    pub decisions: Table<Decision>,
    /// What the human says whenever they are asked.
    pub approval: Approval,
    /// Which writes fail, by their number.
    pub failing_writes: Vec<usize>,
    /// How many writes were tried.
    pub writes: usize,
    /// The messages that were written.
    pub log: Vec<ChatMessage>,
    /// The prose that the host was handed, piece by piece.
    pub handed: Vec<String>,
    /// What the host sent, in order.
    pub sent: Vec<HostMessage>,
    /// What the model was shown of the conversation, each time that it was asked.
    pub shown: Vec<Vec<ChatMessage>>,
    /// The calls that ran, in order.
    pub ran: Vec<ToolCall>,
    /// The names that the human was asked about, in order.
    pub asked: Vec<String>,
    /// What became of the calls, in the order in which it did.
    pub course: Vec<Step>,
    pub risky: RiskyTool,
    pub probe: AdminProfileProbe,
}

/// Why a turn stopped.
pub open spec fn stop_of(stop: TurnStop) -> StopView {
    match stop {
        TurnStop::Replied => StopView::Replied,
        TurnStop::ProviderError { message } => StopView::ProviderError(message@),
        TurnStop::BudgetExhausted { partial_text } => StopView::BudgetExhausted(partial_text@),
    }
}

/// Where the first calls came out as they do, so did those that the next step has
/// judged, and the further ones changed nothing of who is asked and what runs.
proof fn lemma_step(s: Setting, step: GateStep, n: int)
    requires
        step.wf(),
        s.rules == step.gate().turn.rules,
        0 <= n <= step.gate().calls.len(),
        step.follows(outcomes_of(s, step.gate().calls.deep_view()).take(n)),
    ensures
        ({
            let calls = step.gate().calls.deep_view();
            let all = outcomes_of(s, calls);
            let m = step.gate().outcomes.len() as int;
            &&& step.gate().outcomes@ == all.take(m)
            &&& names_asked(s, calls.take(m)) == names_asked(s, calls.take(n))
            &&& judged_steps(s, calls.take(m)) == judged_steps(s, calls.take(n))
            &&& permitted(calls, all.take(m)) == permitted(calls, all.take(n))
        }),
{
    let calls = step.gate().calls.deep_view();
    let all = outcomes_of(s, calls);
    let outcomes = step.gate().outcomes@;
    let m = outcomes.len() as int;
    assert forall|i: int| 0 <= i < m implies outcomes[i] == all[i] by {
        assert(calls[i].name == step.gate().calls@[i].name@);
        if i < n {
            assert(outcomes.subrange(0, n)[i] == outcomes[i]);
        } else {
            assert(outcomes[i] is Some);
        }
    }
    assert(outcomes =~= all.take(m));
    assert forall|i: int| n <= i < m implies refusal_up_front(
        s.rules,
        (#[trigger] calls[i]).name,
    ) is Some by {
        assert(outcomes[i] is Some);
        assert(calls[i].name == step.gate().calls@[i].name@);
    }
    lemma_refused_up_front(s, calls, n, m);
}

impl Bench {
    /// What holds of every bench that a turn can run on.
    pub open spec fn wf(self) -> bool {
        &&& !self.provider.hangs()
        &&& self.decisions.wf()
        &&& paired(self.log.deep_view())
    }

    /// What a turn on this bench runs under.
    pub open spec fn setting(self, turn: TurnLoop) -> Setting {
        Setting {
            rules: turn.rules,
            scope: turn.scope,
            persistence: turn.persistence,
            system: self.system.deep_view(),
            decisions: self.decisions@,
            approval: self.approval,
            failing: self.failing_writes@,
        }
    }

    /// How far a turn on this bench has come, where its host was told `told`.
    pub open spec fn trace(self, turn: TurnLoop, told: Seq<HostCall>) -> Trace {
        Trace {
            history: turn.history.deep_view(),
            round: turn.round,
            prose: turn.accumulated.deep_view(),
            handed: self.handed.deep_view(),
            log: self.log.deep_view(),
            writes: self.writes,
            ran: self.ran.deep_view(),
            asked: self.asked.deep_view(),
            chats: self.provider.log(),
            shown: self.shown.deep_view(),
            told,
            course: self.course.deep_view(),
            risky: self.risky.has_run(),
            probed: self.probe.noted(),
        }
    }

    /// A bench with a model, on which everything is allowed and every write lands.
    pub fn new(provider: StubProvider) -> (r: Bench)
        requires
            !provider.hangs(),
        ensures
            r.wf(),
            r.provider == provider,
            r.system is None,
            r.decisions@ == Map::<Seq<char>, Decision>::empty(),
            r.approval == Approval::AllowOnce,
            r.failing_writes@.len() == 0,
            r.writes == 0,
            r.log@.len() == 0,
            r.handed@.len() == 0,
            r.sent@.len() == 0,
            r.shown@.len() == 0,
            r.ran@.len() == 0,
            r.asked@.len() == 0,
            r.course@.len() == 0,
            !r.risky.has_run(),
            r.probe.noted() is None,
    {
        Bench {
            provider,
            system: None,
            decisions: Table::new(),
            approval: Approval::AllowOnce,
            failing_writes: Vec::new(),
            writes: 0,
            log: Vec::new(),
            handed: Vec::new(),
            sent: Vec::new(),
            shown: Vec::new(),
            ran: Vec::new(),
            asked: Vec::new(),
            course: Vec::new(),
            risky: RiskyTool::new(),
            probe: AdminProfileProbe::new(),
        }
    }

    /// Notes what the host sends, where it sends anything.
    fn send(&mut self, message: Option<HostMessage>)
        ensures
            final(self).sent@ == match message {
                Some(m) => old(self).sent@.push(m),
                None => old(self).sent@,
            },
            *final(self) == (Bench { sent: final(self).sent, ..*old(self) }),
    {
        if let Some(m) = message {
            self.sent.push(m);
        }
    }

    /// Notes what became of a call.
    fn note(&mut self, step: Step)
        ensures
            final(self).course.deep_view() == old(self).course.deep_view().push(step.deep_view()),
            *final(self) == (Bench { course: final(self).course, ..*old(self) }),
    {
        let ghost before = self.course.deep_view();
        self.course.push(step);
        assert(self.course.deep_view() =~= before.push(step.deep_view()));
    }

    /// Hands the host a piece of prose, where there is one.
    fn hand<H: TurnHost>(&mut self, host: &H, chunk: &Option<String>)
        ensures
            final(self).handed.deep_view() == match chunk {
                Some(t) => old(self).handed.deep_view().push(t@),
                None => old(self).handed.deep_view(),
            },
            sent_for(*host, old(self).sent@, chunk_told(chunk.deep_view()), final(self).sent@),
            *final(self) == (Bench {
                handed: final(self).handed,
                sent: final(self).sent,
                ..*old(self)
            }),
    {
        proof {
            lemma_sent_none(*host, self.sent@);
        }
        if let Some(t) = chunk {
            let ghost before = self.handed.deep_view();
            let ghost sent = self.sent@;
            self.handed.push(t.clone());
            assert(self.handed.deep_view() =~= before.push(t@));
            let message = host.message_chunk(t.as_str());
            self.send(message);
            proof {
                lemma_sent_one(
                    *host,
                    sent,
                    Seq::empty(),
                    sent,
                    HostCall::Chunk(t@),
                    message,
                    self.sent@,
                );
            }
        }
    }

    /// Tries a write, which lands unless its number is among those that fail. Where
    /// nothing is to be written, nothing fails, and no number is used.
    fn write(&mut self, append: &Option<Append>) -> (landed: bool)
        ensures
            ({
                let t = tried(
                    old(self).failing_writes@,
                    old(self).log.deep_view(),
                    old(self).writes,
                    append.deep_view(),
                );
                &&& landed == t.landed
                &&& final(self).writes == t.writes
                &&& final(self).log.deep_view() == t.log
            }),
            *final(self) == (Bench {
                writes: final(self).writes,
                log: final(self).log,
                ..*old(self)
            }),
    {
        let wanted = match append {
            Some(a) => a,
            None => {
                return true;
            },
        };
        let n: usize = self.writes;
        if self.writes < usize::MAX {
            self.writes = self.writes + 1;
        }
        let mut i: usize = 0;
        while i < self.failing_writes.len()
            invariant
                i <= self.failing_writes.len(),
                append is Some,
                n == old(self).writes,
                self.writes == if n < usize::MAX {
                    n + 1
                } else {
                    n as int
                },
                *self == (Bench { writes: self.writes, ..*old(self) }),
                forall|k: int| 0 <= k < i ==> #[trigger] self.failing_writes@[k] != n,
            decreases self.failing_writes.len() - i,
        {
            if self.failing_writes[i] == n {
                return false;
            }
            i += 1;
        }
        let ghost before = self.log.deep_view();
        if let Record::Message(m) = &wanted.record {
            self.log.push(m.copy());
            assert(self.log.deep_view() =~= before.push(m@));
        }
        true
    }

    /// Runs a call under a turn's scope, and notes it.
    fn run_tool(&mut self, call: ToolCall, scope: &TurnScope) -> (r: ToolOutput)
        ensures
            r@ == output_of(call@),
            final(self).ran.deep_view() == old(self).ran.deep_view().push(call@),
            final(self).course.deep_view() == old(self).course.deep_view().push(
                StepView::Ran(call@.id),
            ),
            final(self).risky.has_run() == (old(self).risky.has_run() || call@.name == "risky"@),
            final(self).probe.noted() == if call@.name == "heartbeat_config"@ {
                Some(scope.admin_room_profile)
            } else {
                old(self).probe.noted()
            },
            *final(self) == (Bench {
                ran: final(self).ran,
                course: final(self).course,
                risky: final(self).risky,
                probe: final(self).probe,
                ..*old(self)
            }),
    {
        proof {
            reveal_strlit("echo");
            reveal_strlit("risky");
            reveal_strlit("heartbeat_config");
            assert("echo"@.len() == 4 && "risky"@.len() == 5 && "heartbeat_config"@.len() == 16);
        }
        let name = call.name.as_str();
        let output = if text::same(name, "echo") {
            echo(&call.input)
        } else if text::same(name, "risky") {
            self.risky.execute()
        } else if text::same(name, "heartbeat_config") {
            self.probe.execute(scope)
        } else {
            ToolOutput::plain(String::new())
        };
        assert(output@.text =~= output_of(call@).text);
        assert(output@.images =~= output_of(call@).images);
        self.note(Step::Ran(call.id.clone()));
        let ghost before = self.ran.deep_view();
        self.ran.push(call);
        assert(self.ran.deep_view() =~= before.push(call@));
        output
    }

    /// Judges the calls of a round to the last one. The table's word is taken on each
    /// call that is not refused up front, and the human's where the table leaves the
    /// call to them; the host is told of each call that is let through.
    fn judge<H: TurnHost>(&mut self, host: &H, first: GateStep) -> (r: Running)
        requires
            old(self).decisions.wf(),
            first.wf(),
            first.follows(Seq::empty()),
        ensures
            r.wf(),
            r.gate.same_but_outcomes(first.gate()),
            ({
                let s = old(self).setting(first.gate().turn);
                let calls = first.gate().calls.deep_view();
                &&& r.gate.outcomes@ == outcomes_of(s, calls)
                &&& final(self).asked.deep_view() == old(self).asked.deep_view() + names_asked(
                    s,
                    calls,
                )
                &&& final(self).course.deep_view() == old(self).course.deep_view() + judged_steps(
                    s,
                    calls,
                )
                &&& sent_for(
                    *host,
                    old(self).sent@,
                    allowances(runs(s, calls)),
                    final(self).sent@,
                )
            }),
            *final(self) == (Bench {
                asked: final(self).asked,
                sent: final(self).sent,
                course: final(self).course,
                ..*old(self)
            }),
    {
        let ghost s = self.setting(first.gate().turn);
        let ghost calls = first.gate().calls.deep_view();
        let ghost all = outcomes_of(s, calls);
        let ghost earlier = self.asked.deep_view();
        let ghost course = self.course.deep_view();
        let ghost sent = self.sent@;
        let mut step = first;
        proof {
            assert(all.take(0) =~= Seq::empty());
            lemma_step(s, step, 0);
            assert(earlier + names_asked(s, calls.take(0)) =~= earlier);
            assert(course + judged_steps(s, calls.take(0)) =~= course);
            assert(allowances(permitted(calls, all.take(0))) =~= Seq::empty());
            lemma_sent_none(*host, sent);
        }
        loop
            invariant
                s == old(self).setting(first.gate().turn),
                calls == first.gate().calls.deep_view(),
                all == outcomes_of(s, calls),
                earlier == old(self).asked.deep_view(),
                course == old(self).course.deep_view(),
                sent == old(self).sent@,
                self.decisions.wf(),
                step.wf(),
                step.gate().same_but_outcomes(first.gate()),
                step.gate().outcomes@ == all.take(step.gate().outcomes.len() as int),
                self.asked.deep_view() == earlier + names_asked(
                    s,
                    calls.take(step.gate().outcomes.len() as int),
                ),
                self.course.deep_view() == course + judged_steps(
                    s,
                    calls.take(step.gate().outcomes.len() as int),
                ),
                sent_for(
                    *host,
                    sent,
                    allowances(permitted(calls, step.gate().outcomes@)),
                    self.sent@,
                ),
                *self == (Bench {
                    asked: self.asked,
                    sent: self.sent,
                    course: self.course,
                    ..*old(self)
                }),
            decreases step.gate().calls.len() - step.gate().outcomes.len(),
        {
            let judging = match step {
                GateStep::Execute(running) => {
                    proof {
                        assert(all.take(calls.len() as int) =~= all);
                        assert(calls.take(calls.len() as int) =~= calls);
                    }
                    return running;
                },
                GateStep::Judge(judging) => judging,
            };
            let ghost n = judging.gate.outcomes.len() as int;
            let ghost let_through = permitted(calls, judging.gate.outcomes@);
            let ghost so_far = self.sent@;
            proof {
                lemma_one_more(s, calls, n);
                assert(calls[n] == judging.gate.calls@[n]@);
            }
            let name = judging.call().name.clone();
            let about = judging.call().id.clone();
            let decision = match self.decisions.get(name.as_str()) {
                Some(d) => *d,
                None => Decision::Allow,
            };
            let settled = match judging.decided(decision) {
                Verdict::Settled(settled) => settled,
                Verdict::Ask(asking) => {
                    let ghost before = self.asked.deep_view();
                    self.asked.push(name);
                    assert(self.asked.deep_view() =~= before.push(name@));
                    self.note(Step::Asked(about));
                    asking.answered(self.approval)
                },
            };
            assert(self.asked.deep_view() =~= earlier + names_asked(s, calls.take(n + 1)));
            match settled {
                Settled::Allowed { id, next } => {
                    let message = host.tool_allowed(id.as_str());
                    self.send(message);
                    self.note(Step::Allowed(id));
                    proof {
                        lemma_sent_one(
                            *host,
                            sent,
                            allowances(let_through),
                            so_far,
                            HostCall::Allowed(id@),
                            message,
                            self.sent@,
                        );
                        assert(allowances(let_through).push(HostCall::Allowed(id@)) =~= allowances(
                            let_through.push(calls[n]),
                        ));
                    }
                    step = next;
                },
                Settled::Refused { next } => {
                    step = next;
                },
            }
            proof {
                assert(judging.gate.outcomes@.push(all[n]) =~= all.take(n + 1));
                assert(self.course.deep_view() =~= course + judged_steps(s, calls.take(n + 1)));
                lemma_step(s, step, n + 1);
            }
        }
    }

    /// Runs calls one after the other under a turn's scope.
    fn run_tools(&mut self, calls: Vec<ToolCall>, scope: &TurnScope) -> (r: Vec<ToolOutput>)
        ensures
            r.deep_view() == calls.deep_view().map_values(|c: CallView| output_of(c)),
            final(self).ran.deep_view() == old(self).ran.deep_view() + calls.deep_view(),
            final(self).course.deep_view() == old(self).course.deep_view() + ran_steps(
                calls.deep_view(),
            ),
            final(self).risky.has_run() == (old(self).risky.has_run() || has_call(
                calls.deep_view(),
                "risky"@,
            )),
            final(self).probe.noted() == if has_call(calls.deep_view(), "heartbeat_config"@) {
                Some(scope.admin_room_profile)
            } else {
                old(self).probe.noted()
            },
            *final(self) == (Bench {
                ran: final(self).ran,
                course: final(self).course,
                risky: final(self).risky,
                probe: final(self).probe,
                ..*old(self)
            }),
    {
        let mut outputs: Vec<ToolOutput> = Vec::new();
        let ghost all = calls.deep_view();
        let ghost want = all.map_values(|c: CallView| output_of(c));
        let ghost before = self.ran.deep_view();
        let ghost course = self.course.deep_view();
        let ghost steps = ran_steps(all);
        assert(before + all.take(0) =~= before);
        assert(course + steps.take(0) =~= course);
        assert(outputs.deep_view() =~= want.take(0));
        for call in it: calls
            invariant
                it.seq() == calls@,
                all == calls.deep_view(),
                want == all.map_values(|c: CallView| output_of(c)),
                outputs.deep_view() == want.take(it.index() as int),
                before == old(self).ran.deep_view(),
                self.ran.deep_view() == before + all.take(it.index() as int),
                course == old(self).course.deep_view(),
                steps == ran_steps(all),
                self.course.deep_view() == course + steps.take(it.index() as int),
                self.risky.has_run() == (old(self).risky.has_run() || has_call(
                    all.take(it.index() as int),
                    "risky"@,
                )),
                self.probe.noted() == if has_call(
                    all.take(it.index() as int),
                    "heartbeat_config"@,
                ) {
                    Some(scope.admin_room_profile)
                } else {
                    old(self).probe.noted()
                },
                *self == (Bench {
                    ran: self.ran,
                    course: self.course,
                    risky: self.risky,
                    probe: self.probe,
                    ..*old(self)
                }),
        {
            let ghost k = it.index() as int;
            let ghost had = outputs.deep_view();
            assert(all[k] == call@);
            let output = self.run_tool(call, scope);
            outputs.push(output);
            proof {
                assert(outputs.deep_view() =~= had.push(output@));
                assert(want.take(k + 1) =~= want.take(k).push(want[k]));
                assert(before + all.take(k + 1) =~= (before + all.take(k)).push(all[k]));
                assert(course + steps.take(k + 1) =~= (course + steps.take(k)).push(steps[k]));
                lemma_has_call_more(all, k, "risky"@);
                lemma_has_call_more(all, k, "heartbeat_config"@);
            }
        }
        assert(all.take(all.len() as int) =~= all);
        assert(want.take(want.len() as int) =~= want);
        assert(steps.take(steps.len() as int) =~= steps);
        outputs
    }

    /// Words why each call did not run.
    fn word_refusals(&self, calls: &Vec<RefusedCall>) -> (r: Vec<String>)
        ensures
            r.len() == calls.len(),
            forall|i: int|
                0 <= i < r.len() ==> (#[trigger] r@[i])@ == refusal_words(
                    calls@[i].name@,
                    calls@[i].refusal,
                ),
    {
        let mut reasons: Vec<String> = Vec::new();
        let mut i: usize = 0;
        while i < calls.len()
            invariant
                i <= calls.len(),
                reasons.len() == i,
                forall|k: int|
                    0 <= k < i ==> (#[trigger] reasons@[k])@ == refusal_words(
                        calls@[k].name@,
                        calls@[k].refusal,
                    ),
            decreases calls.len() - i,
        {
            let why = match calls[i].refusal {
                Refusal::NotOffered => " was not offered",
                Refusal::Unavailable => " is not available here",
                Refusal::UserDeclined => " was declined",
            };
            reasons.push(calls[i].name.clone().concat(why));
            i += 1;
        }
        reasons
    }

    /// Tells the host of every call, in order, that it starts or that it has ended,
    /// and notes what the host sends of that.
    fn announce<H: TurnHost>(&mut self, host: &H, calls: &Vec<ToolCall>, start: bool)
        ensures
            sent_for(
                *host,
                old(self).sent@,
                if start {
                    starts(calls.deep_view())
                } else {
                    ends(calls.deep_view())
                },
                final(self).sent@,
            ),
            final(self).course.deep_view() == old(self).course.deep_view() + if start {
                started_steps(calls.deep_view())
            } else {
                ended_steps(calls.deep_view())
            },
            *final(self) == (Bench {
                sent: final(self).sent,
                course: final(self).course,
                ..*old(self)
            }),
    {
        let ghost steps = if start {
            started_steps(calls.deep_view())
        } else {
            ended_steps(calls.deep_view())
        };
        let ghost course = self.course.deep_view();
        let ghost all = if start {
            starts(calls.deep_view())
        } else {
            ends(calls.deep_view())
        };
        let ghost before = self.sent@;
        proof {
            assert(all.take(0) =~= Seq::empty());
            assert(course + steps.take(0) =~= course);
            lemma_sent_none(*host, before);
        }
        let mut i: usize = 0;
        while i < calls.len()
            invariant
                i <= calls.len(),
                before == old(self).sent@,
                all == if start {
                    starts(calls.deep_view())
                } else {
                    ends(calls.deep_view())
                },
                sent_for(*host, before, all.take(i as int), self.sent@),
                course == old(self).course.deep_view(),
                steps == if start {
                    started_steps(calls.deep_view())
                } else {
                    ended_steps(calls.deep_view())
                },
                self.course.deep_view() == course + steps.take(i as int),
                *self == (Bench { sent: self.sent, course: self.course, ..*old(self) }),
            decreases calls.len() - i,
        {
            let call = &calls[i];
            let ghost so_far = self.sent@;
            let id = call.id.as_str();
            let name = call.name.as_str();
            assert(calls.deep_view()[i as int] == call@);
            let message = if start {
                host.tool_start(id, name, &call.input)
            } else {
                host.tool_end(id, name)
            };
            self.send(message);
            self.note(
                if start {
                    Step::Started(call.id.clone())
                } else {
                    Step::Ended(call.id.clone())
                },
            );
            proof {
                let k = i as int;
                assert(course + steps.take(k + 1) =~= (course + steps.take(k)).push(steps[k]));
                lemma_sent_one(
                    *host,
                    before,
                    all.take(i as int),
                    so_far,
                    all[i as int],
                    message,
                    self.sent@,
                );
                assert(all.take(i + 1) =~= all.take(i as int).push(all[i as int]));
            }
            i += 1;
        }
        assert(all.take(all.len() as int) =~= all);
        assert(steps.take(steps.len() as int) =~= steps);
    }

    /// Goes through a round whose calls are known: hands the prose on, writes the
    /// message with the calls, judges them, runs those that may run, and writes what
    /// answers them.
    fn tool_round<H: TurnHost>(&mut self, host: &H, tool_use: ToolUse) -> (r: TurnLoop)
        requires
            old(self).decisions.wf(),
            tool_use.turn.wf(),
        ensures
            r.wf(),
            r.same_but_history(tool_use.turn),
            ({
                let s = old(self).setting(tool_use.turn);
                let calls = tool_use.calls.deep_view();
                let answer = tool_result_message(results_of(s, calls));
                let first = tried(
                    s.failing,
                    old(self).log.deep_view(),
                    old(self).writes,
                    tool_use.append.deep_view(),
                );
                let second = tried(
                    s.failing,
                    first.log,
                    first.writes,
                    if first.landed {
                        write_of(s, answer)
                    } else {
                        None
                    },
                );
                &&& r.history.deep_view() == tool_use.turn.history.deep_view().push(answer)
                &&& final(self).log.deep_view() == second.log
                &&& final(self).writes == second.writes
                &&& final(self).handed.deep_view() == match tool_use.chunk {
                    Some(t) => old(self).handed.deep_view().push(t@),
                    None => old(self).handed.deep_view(),
                }
                &&& final(self).ran.deep_view() == old(self).ran.deep_view() + runs(s, calls)
                &&& final(self).asked.deep_view() == old(self).asked.deep_view() + names_asked(
                    s,
                    calls,
                )
                &&& final(self).course.deep_view() == old(self).course.deep_view() + round_course(
                    s,
                    calls,
                )
                &&& final(self).risky.has_run() == (old(self).risky.has_run() || has_call(
                    runs(s, calls),
                    "risky"@,
                ))
                &&& final(self).probe.noted() == if has_call(
                    runs(s, calls),
                    "heartbeat_config"@,
                ) {
                    Some(s.scope.admin_room_profile)
                } else {
                    old(self).probe.noted()
                }
                &&& sent_for(
                    *host,
                    old(self).sent@,
                    round_told(tool_use.chunk.deep_view(), calls, runs(s, calls)),
                    final(self).sent@,
                )
            }),
            *final(self) == (Bench {
                writes: final(self).writes,
                log: final(self).log,
                handed: final(self).handed,
                sent: final(self).sent,
                ran: final(self).ran,
                asked: final(self).asked,
                course: final(self).course,
                risky: final(self).risky,
                probe: final(self).probe,
                ..*old(self)
            }),
    {
        let ghost course = self.course.deep_view();
        let ghost s = self.setting(tool_use.turn);
        let ghost calls = tool_use.calls.deep_view();
        let ghost chunk = chunk_told(tool_use.chunk.deep_view());
        let ghost sent = self.sent@;
        self.hand(host, &tool_use.chunk);
        let ghost sent_chunk = self.sent@;
        let landed = self.write(&tool_use.append);
        self.announce(host, &tool_use.calls, true);
        let ghost sent_starts = self.sent@;
        let step = tool_use.appended(landed);
        let running = self.judge(host, step);
        let ghost sent_allowed = self.sent@;
        let let_through = running.permitted();
        let not_run = running.refused();
        let outputs = self.run_tools(let_through, &running.gate.turn.scope);
        let reasons = self.word_refusals(&not_run);
        proof {
            let words = refused(calls, outcomes_of(s, calls)).map_values(
                |r: (CallView, Refusal)| refusal_words(r.0.name, r.1),
            );
            assert(reasons.deep_view() =~= words);
            assert(outputs.deep_view().len() == outputs.len());
            assert(reasons.deep_view().len() == reasons.len());
        }
        let end = running.finished(outputs, reasons);
        self.announce(host, &end.calls, false);
        self.write(&end.append);
        proof {
            let ran = runs(s, calls);
            assert(self.course.deep_view() =~= course + round_course(s, calls));
            lemma_sent_then(*host, sent, chunk, sent_chunk, starts(calls), sent_starts);
            lemma_sent_then(
                *host,
                sent,
                chunk + starts(calls),
                sent_starts,
                allowances(ran),
                sent_allowed,
            );
            lemma_sent_then(
                *host,
                sent,
                chunk + starts(calls) + allowances(ran),
                sent_allowed,
                ends(calls),
                self.sent@,
            );
        }
        end.turn
    }

    /// Runs a turn to its end. What becomes of it is what [`rehearsed`] says of the
    /// model's script: what is left of the conversation, what was written, shown,
    /// asked, run and told, and why it stopped. Only where the model failed is the
    /// host told one thing more.
    pub fn run<H: TurnHost>(&mut self, host: &mut H, turn: TurnLoop) -> (r: (
        TurnLoop,
        Option<String>,
        TurnStop,
    ))
        requires
            old(self).wf(),
            turn.wf(),
        ensures
            final(self).wf(),
            r.0.wf(),
            final(self).setting(r.0) == old(self).setting(turn),
            final(self).provider.observed() == old(self).provider.observed(),
            ({
                let (t, stop) = rehearsed(
                    old(self).setting(turn),
                    old(self).provider.script(),
                    old(self).trace(turn, Seq::empty()),
                );
                &&& final(self).trace(r.0, t.told) == t
                &&& final(self).provider.script() == left_of(
                    old(self).provider.script(),
                    t.chats.len() - old(self).provider.log().len(),
                )
                &&& stop_of(r.2) == stop
                &&& r.1.deep_view() == if stop is Replied {
                    Some(text::joined(t.prose, "\n\n"@))
                } else {
                    None
                }
                &&& !(stop is ProviderError) ==> sent_for(
                    *old(host),
                    old(self).sent@,
                    t.told,
                    final(self).sent@,
                )
            }),
            !(r.2 is ProviderError) ==> *final(host) == *old(host),
            r.2 matches TurnStop::ProviderError { message } ==> exists|
                h: &mut H,
                m: &str,
                last: Option<HostMessage>,
            |
                {
                    &&& *h == *old(host)
                    &&& *final(h) == *final(host)
                    &&& m@ == message@
                    &&& #[trigger] call_ensures(H::turn_error, (h, m), last)
                    &&& sent_and(
                        *old(host),
                        old(self).sent@,
                        rehearsed(
                            old(self).setting(turn),
                            old(self).provider.script(),
                            old(self).trace(turn, Seq::empty()),
                        ).0.told,
                        last,
                        final(self).sent@,
                    )
                },
    {
        let ghost s = self.setting(turn);
        let ghost whole = rehearsed(s, self.provider.script(), self.trace(turn, Seq::empty()));
        let ghost sent = self.sent@;
        let ghost mut told: Seq<HostCall> = Seq::empty();
        proof {
            lemma_sent_none(*host, sent);
        }
        let mut current = turn;
        loop
            invariant
                s == old(self).setting(turn),
                whole == rehearsed(
                    s,
                    old(self).provider.script(),
                    old(self).trace(turn, Seq::empty()),
                ),
                sent == old(self).sent@,
                self.wf(),
                current.wf(),
                self.setting(current) == s,
                rehearsed(s, self.provider.script(), self.trace(current, told)) == whole,
                self.provider.observed() == old(self).provider.observed(),
                old(self).provider.log().len() <= self.provider.log().len(),
                self.provider.script() == left_of(
                    old(self).provider.script(),
                    self.provider.log().len() - old(self).provider.log().len(),
                ),
                *host == *old(host),
                sent_for(*old(host), sent, told, self.sent@),
            decreases self.provider.script().len(),
        {
            let ghost t = self.trace(current, told);
            let round = match current.begin_round() {
                Ok(round) => round,
                Err((ended, stop)) => {
                    return (ended, None, stop);
                },
            };
            let shown = round.provider_messages(copy_messages(&round.turn.history));
            let ghost before = self.shown.deep_view();
            self.shown.push(shown);
            assert(self.shown.deep_view() =~= before.push(shown.deep_view()));
            let system = match &self.system {
                Some(prompt) => Some(prompt.as_str()),
                None => None,
            };
            let ghost script = self.provider.script();
            let answer = self.provider.chat(system, &round.turn.rules.offered);
            assert(script.len() > 0 ==> script.drop_first() =~= script.skip(1));
            assert(self.provider.script() =~= left_of(
                old(self).provider.script(),
                self.provider.log().len() - old(self).provider.log().len(),
            ));
            assert(self.trace(round.turn, told) == after_ask(s, t));
            let response = match answer {
                Chat::Answered(response) => response,
                Chat::Failed(message) => {
                    let ghost mid = self.sent@;
                    let report = host.turn_error(message.as_str());
                    self.send(report);
                    assert(sent_and(*old(host), sent, told, report, self.sent@)) by {
                        assert(sent_for(*old(host), sent, told, mid));
                    }
                    let (ended, stop) = round.failed(message);
                    return (ended, None, stop);
                },
                Chat::Hangs => {
                    return vstd::pervasive::unreached();
                },
            };
            let ghost text = response.text.deep_view();
            let ghost calls = response.tool_calls.deep_view();
            let ghost log = self.log.deep_view();
            let ghost writes = self.writes;
            let ghost mid = self.sent@;
            let tool_use = match round.replied(response) {
                Reply::Final(reply) => {
                    proof {
                        assert(!answers(final_message(response))) by {
                            assert(final_message(response).parts.len() == 1);
                        }
                        lemma_plain_write_stays_paired(
                            s.failing,
                            log,
                            writes,
                            reply.append.deep_view(),
                        );
                    }
                    self.write(&reply.append);
                    self.hand(host, &reply.chunk);
                    proof {
                        let more = chunk_told(reply.chunk.deep_view());
                        lemma_sent_then(*old(host), sent, told, mid, more, self.sent@);
                        assert(self.trace(reply.turn, told + more) == after_reply(
                            s,
                            after_ask(s, t),
                            response,
                        ));
                    }
                    return (reply.turn, Some(reply.text), TurnStop::Replied);
                },
                Reply::Tools(tool_use) => tool_use,
            };
            let ghost chunk = tool_use.chunk.deep_view();
            let next = self.tool_round(host, tool_use);
            proof {
                let more = round_told(chunk, calls, runs(s, calls));
                lemma_sent_then(*old(host), sent, told, mid, more, self.sent@);
                lemma_round_stays_paired(
                    s,
                    log,
                    writes,
                    text,
                    calls,
                    tool_result_message(results_of(s, calls)),
                );
                assert(self.trace(next, told + more) == after_tools(s, after_ask(s, t), response));
                told = told + more;
            }
            current = next;
        }
    }
}

/// A model that goes by a script gives its items one after the other, each whole, and
/// fails every call once they are used up. Every call is noted with the prompt and all
/// tools that it was made with, behind those before it.
pub proof fn scripts_are_gone_through_in_order(
    items: Vec<Result<ChatResponse, String>>,
    fresh: StubProvider,
    before: StubProvider,
    after: StubProvider,
    system: Option<&str>,
    tools: Vec<String>,
    r: Chat,
    i: int,
)
    requires
        call_ensures(StubProvider::new_scripted, (items,), fresh),
        exists|p: &mut StubProvider|
            *p == before && *final(p) == after && #[trigger] call_ensures(
                StubProvider::chat,
                (p, system, &tools),
                r,
            ),
    ensures
        !fresh.hangs(),
        fresh.script().len() == items.len(),
        0 <= i < items.len() ==> fresh.script()[i] == items@[i],
        fresh.log().len() == 0,
        ({
            let script = before.script();
            let n = before.log().len() as int;
            &&& before.hangs() <==> r is Hangs
            &&& !before.hangs() && script.len() == 0 ==> r is Failed && r->Failed_0@
                == "StubProvider script exhausted"@ && after.script().len() == 0
            &&& !before.hangs() && script.len() > 0 ==> {
                &&& script[0] is Ok ==> r == Chat::Answered(script[0]->Ok_0)
                &&& script[0] is Err ==> r == Chat::Failed(script[0]->Err_0)
                &&& after.script().len() == script.len() - 1
                &&& 0 <= i < script.len() - 1 ==> after.script()[i] == script[i + 1]
            }
            &&& after.log().len() == n + 1
            &&& 0 <= i < n ==> after.log()[i] == before.log()[i]
            &&& after.log()[n].0 is Some <==> system is Some
            &&& system is Some ==> after.log()[n].0.unwrap() == system.unwrap()@
            &&& after.log()[n].1.len() == tools.len()
            &&& 0 <= i < tools.len() ==> after.log()[n].1[i] == tools@[i]@
        }),
{
    assert(tools.deep_view().len() == tools.len());
    if 0 <= i < tools.len() {
        assert(tools.deep_view()[i] == tools@[i]@);
    }
}

/// A model with answers gives them in order, and none of them fails.
pub proof fn answers_are_given_in_order(responses: Vec<ChatResponse>, r: StubProvider, i: int)
    requires
        call_ensures(StubProvider::new, (responses,), r),
    ensures
        !r.hangs(),
        r.script().len() == responses.len(),
        0 <= i < responses.len() ==> r.script()[i] is Ok && r.script()[i]->Ok_0 == responses@[i],
        r.log().len() == 0,
{
}

/// A model that hangs never answers. Each call of it counts once as entered, and each
/// that is given up once as dropped, as far as numbers go.
pub proof fn hanging_calls_are_counted(
    hanging: (StubProvider, HangingChat),
    before: StubProvider,
    called: StubProvider,
    dropped: StubProvider,
    system: Option<&str>,
    tools: Vec<String>,
    r: Chat,
    seen: HangingChat,
)
    requires
        call_ensures(StubProvider::new_hanging, (), hanging),
        exists|p: &mut StubProvider|
            *p == before && *final(p) == called && #[trigger] call_ensures(
                StubProvider::chat,
                (p, system, &tools),
                r,
            ),
        exists|p: &mut StubProvider|
            *p == before && *final(p) == dropped && #[trigger] call_ensures(
                StubProvider::give_up,
                (p,),
                (),
            ),
        call_ensures(StubProvider::hanging_chat, (&before,), seen),
    ensures
        hanging.0.hangs(),
        hanging.1.entered == 0 && hanging.1.dropped == 0,
        hanging.0.observed() == hanging.1,
        seen == before.observed(),
        before.hangs() ==> called.hangs() && called.observed().dropped == seen.dropped,
        before.hangs() && seen.entered < u64::MAX ==> called.observed().entered == seen.entered
            + 1,
        !before.hangs() ==> called.observed() == seen,
        seen.dropped < u64::MAX ==> dropped.observed().dropped == seen.dropped + 1,
        dropped.observed().entered == seen.entered,
        dropped.log() == before.log(),
        dropped.script() == before.script(),
{
}

/// A log gives back every call that it holds, in order, with its prompt and all of its
/// tools.
pub proof fn logs_give_back_every_call(
    provider: StubProvider,
    log: ChatLog,
    calls: Vec<LoggedCall>,
    i: int,
    k: int,
)
    requires
        call_ensures(StubProvider::call_log, (&provider,), log),
        call_ensures(ChatLog::calls, (&log,), calls),
    ensures
        calls.len() == provider.log().len(),
        0 <= i < calls.len() ==> {
            &&& calls@[i].0 is Some <==> provider.log()[i].0 is Some
            &&& calls@[i].0 is Some ==> calls@[i].0.unwrap()@ == provider.log()[i].0.unwrap()
            &&& calls@[i].1.len() == provider.log()[i].1.len()
            &&& 0 <= k < calls@[i].1.len() ==> calls@[i].1@[k]@ == provider.log()[i].1[k]
        },
{
    let values = calls@.map_values(|c: LoggedCall| logged(c));
    assert(values == provider.log());
    assert(values.len() == calls.len());
    if 0 <= i < calls.len() {
        assert(values[i] == logged(calls@[i]));
        assert(calls@[i].1.deep_view().len() == calls@[i].1.len());
        if 0 <= k < calls@[i].1.len() {
            assert(calls@[i].1.deep_view()[k] == calls@[i].1@[k]@);
        }
        if calls@[i].0 is Some {
            assert(calls@[i].0.deep_view() == Some(calls@[i].0.unwrap()@));
        } else {
            assert(calls@[i].0.deep_view() is None);
        }
    }
}

/// The tools of a bench do what they say: one says its input's text back, every
/// character of it; one notes that it ran; one notes the grant that it was run under.
pub proof fn tools_do_what_they_say(
    input: Json,
    echoed: ToolOutput,
    idle: RiskyTool,
    before: RiskyTool,
    after: RiskyTool,
    ran: ToolOutput,
    flag: bool,
    unseen: AdminProfileProbe,
    probe: AdminProfileProbe,
    probed: AdminProfileProbe,
    scope: TurnScope,
    output: ToolOutput,
    seen: Option<Option<String>>,
)
    requires
        call_ensures(echo, (&input,), echoed),
        call_ensures(RiskyTool::new, (), idle),
        exists|t: &mut RiskyTool|
            *t == before && *final(t) == after && #[trigger] call_ensures(
                RiskyTool::execute,
                (t,),
                ran,
            ),
        call_ensures(RiskyTool::ran_flag, (&after,), flag),
        call_ensures(AdminProfileProbe::new, (), unseen),
        exists|t: &mut AdminProfileProbe|
            *t == probe && *final(t) == probed && #[trigger] call_ensures(
                AdminProfileProbe::execute,
                (t, &scope),
                output,
            ),
        call_ensures(AdminProfileProbe::seen, (&probed,), seen),
    ensures
        input@.get_text("text"@) is Some ==> echoed.text@ == input@.get_text("text"@).unwrap(),
        input@.get_text("text"@) is None ==> echoed.text@.len() == 0,
        echoed.images.len() == 0,
        !idle.has_run(),
        flag,
        ran.text@ == "ran"@ && ran.images.len() == 0,
        unseen.noted() is None,
        seen == Some(scope.admin_room_profile),
        output.text@ == "probed"@ && output.images.len() == 0,
{
    assert(echoed@.images.len() == echoed.images.len());
    assert(ran@.images.len() == ran.images.len());
    assert(output@.images.len() == output.images.len());
}

/// A bench starts with nothing noted, allows everything, and every write lands.
pub proof fn benches_start_with_nothing(provider: StubProvider, r: Bench)
    requires
        call_ensures(Bench::new, (provider,), r),
    ensures
        r.provider == provider,
        r.system is None,
        forall|name: Seq<char>| !(#[trigger] r.decisions@.contains_key(name)),
        r.approval == Approval::AllowOnce,
        r.failing_writes.len() == 0 && r.writes == 0 && r.log.len() == 0,
        r.handed.len() == 0 && r.sent.len() == 0 && r.shown.len() == 0,
        r.ran.len() == 0 && r.asked.len() == 0 && r.course.len() == 0,
        !r.risky.has_run(),
        r.probe.noted() is None,
{
}

/// What becomes of a turn on a bench is what is rehearsed of the model's script: every
/// message of the conversation that it leaves, every message that was written, what the
/// model was shown, what ran, who was asked about, what was handed on, and what became
/// of the calls, each in order; and why it stopped.
#[verifier::rlimit(50)]
pub proof fn turns_come_to_what_is_rehearsed<H: TurnHost>(
    before: Bench,
    after: Bench,
    host: H,
    told_host: H,
    turn: TurnLoop,
    r: (TurnLoop, Option<String>, TurnStop),
    s: Setting,
    start: Trace,
    i: int,
)
    requires
        exists|b: &mut Bench, h: &mut H|
            *b == before && *final(b) == after && *h == host && *final(h) == told_host
                && #[trigger] call_ensures(Bench::run::<H>, (b, h, turn), r),
        s.rules == turn.rules,
        s.scope == turn.scope,
        s.persistence == turn.persistence,
        s.system == before.system.deep_view(),
        s.decisions == before.decisions@,
        s.approval == before.approval,
        s.failing == before.failing_writes@,
        start.history == turn.history.deep_view(),
        start.round == turn.round,
        start.prose == turn.accumulated.deep_view(),
        start.handed == before.handed.deep_view(),
        start.log == before.log.deep_view(),
        start.writes == before.writes,
        start.ran == before.ran.deep_view(),
        start.asked == before.asked.deep_view(),
        start.chats == before.provider.log(),
        start.shown == before.shown.deep_view(),
        start.told.len() == 0,
        start.course == before.course.deep_view(),
        start.risky == before.risky.has_run(),
        start.probed == before.probe.noted(),
    ensures
        ({
            let (t, stop) = rehearsed(s, before.provider.script(), start);
            &&& r.0.history.len() == t.history.len()
            &&& 0 <= i < t.history.len() ==> r.0.history@[i]@ == t.history[i]
            &&& r.0.round == t.round
            &&& after.log.len() == t.log.len()
            &&& 0 <= i < t.log.len() ==> after.log@[i]@ == t.log[i]
            &&& after.writes == t.writes
            &&& after.ran.len() == t.ran.len()
            &&& 0 <= i < t.ran.len() ==> after.ran@[i]@ == t.ran[i]
            &&& after.asked.len() == t.asked.len()
            &&& 0 <= i < t.asked.len() ==> after.asked@[i]@ == t.asked[i]
            &&& after.handed.len() == t.handed.len()
            &&& 0 <= i < t.handed.len() ==> after.handed@[i]@ == t.handed[i]
            &&& after.shown.len() == t.shown.len()
            &&& 0 <= i < t.shown.len() ==> after.shown@[i].deep_view() == t.shown[i]
            &&& after.course.len() == t.course.len()
            &&& 0 <= i < t.course.len() ==> after.course@[i].deep_view() == t.course[i]
            &&& after.provider.log() == t.chats
            &&& after.risky.has_run() == t.risky
            &&& after.probe.noted() == t.probed
            &&& r.2 is Replied <==> stop is Replied
            &&& r.2 is ProviderError <==> stop is ProviderError
            &&& r.2 is ProviderError ==> r.2->ProviderError_message@ == stop->ProviderError_0
            &&& r.2 is BudgetExhausted ==> r.2->partial_text@ == stop->BudgetExhausted_0
            &&& r.1 is Some <==> stop is Replied
            &&& r.1 is Some ==> r.1.unwrap()@ == text::joined(t.prose, "\n\n"@)
            &&& r.0.rules == turn.rules && r.0.scope == turn.scope
            &&& r.0.persistence == turn.persistence
            &&& !(r.2 is ProviderError) ==> told_host == host
        }),
{
    assert(start.told =~= Seq::empty());
    assert(before.setting(turn) == s);
    assert(before.trace(turn, Seq::empty()) == start);
    let (t, stop) = rehearsed(s, before.provider.script(), start);
    let end = after.trace(r.0, t.told);
    assert(end == t);
    assert(after.setting(r.0) == s);
    assert(r.0.history.deep_view().len() == r.0.history.len());
    assert(after.log.deep_view().len() == after.log.len());
    assert(after.ran.deep_view().len() == after.ran.len());
    assert(after.asked.deep_view().len() == after.asked.len());
    assert(after.handed.deep_view().len() == after.handed.len());
    assert(after.shown.deep_view().len() == after.shown.len());
    assert(after.course.deep_view().len() == after.course.len());
    if 0 <= i < t.history.len() {
        assert(r.0.history.deep_view()[i] == r.0.history@[i]@);
    }
    if 0 <= i < t.log.len() {
        assert(after.log.deep_view()[i] == after.log@[i]@);
    }
    if 0 <= i < t.ran.len() {
        assert(after.ran.deep_view()[i] == after.ran@[i]@);
    }
    if 0 <= i < t.asked.len() {
        assert(after.asked.deep_view()[i] == after.asked@[i]@);
    }
    if 0 <= i < t.handed.len() {
        assert(after.handed.deep_view()[i] == after.handed@[i]@);
    }
    if 0 <= i < t.shown.len() {
        assert(after.shown.deep_view()[i] == after.shown@[i].deep_view());
    }
    if 0 <= i < t.course.len() {
        assert(after.course.deep_view()[i] == after.course@[i].deep_view());
    }
    if r.1 is Some {
        assert(r.1.deep_view() == Some(r.1.unwrap()@));
    } else {
        assert(r.1.deep_view() is None);
    }
}

} // verus!
