//! What a turn on a bench comes to: a function of the script that its model goes
//! by, of the permission table, of the human's answer and of the writes that fail.
//!
//! Only what the host sends is not such a function. The host is told what
//! [`Trace::told`] lists, in that order, and sends whatever it answers to that.

use vstd::multiset::Multiset;
use vstd::prelude::*;

use crate::count::{count_of, lemma_count_before};
use crate::host::{HostMessage, TurnHost};
use crate::json::{Json, JsonView};
use crate::message::{
    labelled, text_message, tool_result_message, tool_use_message, CallView, ChatResponse,
    MessageView, OutputView, PartView, Role, ToolCall,
};
use crate::persistence::{AppendView, RecordView, TurnPersistence};
use crate::policy::{Approval, Decision, Refusal};
use crate::text;
use crate::turn_loop::{
    answered_ids, answers, as_chunk, asks, call_ids, lemma_permitted_count, lemma_permitted_from,
    lemma_permitted_place, lemma_refused_place, lemma_results_answer, lemma_tool_use_asks,
    next_round, paired, permitted, prose_of, refusal_up_front, refused, round_results, with_prose,
    TurnRules, TurnScope,
};

verus! {

/// What a turn on a bench runs under.
pub struct Setting {
    pub rules: TurnRules,
    pub scope: TurnScope,
    pub persistence: Option<TurnPersistence>,
    pub system: Option<Seq<char>>,
    pub decisions: Map<Seq<char>, Decision>,
    pub approval: Approval,
    /// The writes that fail, by their numbers.
    pub failing: Seq<usize>,
}

/// Something that a host is told.
pub enum HostCall {
    Chunk(Seq<char>),
    Start { id: Seq<char>, name: Seq<char>, input: JsonView },
    Allowed(Seq<char>),
    End { id: Seq<char>, name: Seq<char> },
}

/// Something that becomes of a call, by the call's identifier.
pub enum StepView {
    /// The host was told that it starts.
    Started(Seq<char>),
    /// The human was asked about it.
    Asked(Seq<char>),
    /// The host was told that it is let through.
    Allowed(Seq<char>),
    Ran(Seq<char>),
    /// The host was told that it has ended.
    Ended(Seq<char>),
}

/// How far a turn on a bench has come.
pub struct Trace {
    pub history: Seq<MessageView>,
    pub round: usize,
    /// The pieces of the turn's prose.
    pub prose: Seq<Seq<char>>,
    /// The pieces of prose that the host was handed.
    pub handed: Seq<Seq<char>>,
    /// The messages that were written.
    pub log: Seq<MessageView>,
    /// How many writes were tried.
    pub writes: usize,
    pub ran: Seq<CallView>,
    /// The names that the human was asked about.
    pub asked: Seq<Seq<char>>,
    /// With which system prompt and tools the model was asked, each time.
    pub chats: Seq<(Option<Seq<char>>, Seq<Seq<char>>)>,
    /// What the model was shown of the conversation, each time.
    pub shown: Seq<Seq<MessageView>>,
    /// What the host was told, but for the failure of the model.
    pub told: Seq<HostCall>,
    /// What became of the calls, in the order in which it did.
    pub course: Seq<StepView>,
    /// Whether the tool that needs permission has run.
    pub risky: bool,
    /// What the tool that looks at the grant has seen.
    pub probed: Option<Option<String>>,
}

/// Why a turn on a bench stops.
pub enum StopView {
    Replied,
    ProviderError(Seq<char>),
    BudgetExhausted(Seq<char>),
}

/// What the permission table says of a tool; it allows those that it does not list.
pub open spec fn decision_on(s: Setting, name: Seq<char>) -> Decision {
    if s.decisions.contains_key(name) {
        s.decisions[name]
    } else {
        Decision::Allow
    }
}

/// Whether a human has to say whether a call may run.
pub open spec fn left_to_human(s: Setting, name: Seq<char>) -> bool {
    refusal_up_front(s.rules, name) is None && decision_on(s, name) == Decision::Ask
}

/// How a call comes out.
pub open spec fn outcome_of(s: Setting, name: Seq<char>) -> Option<Refusal> {
    match refusal_up_front(s.rules, name) {
        Some(r) => Some(r),
        None => match decision_on(s, name) {
            Decision::Allow => None,
            Decision::Deny => Some(Refusal::Unavailable),
            Decision::Ask => if s.approval.allowed() {
                None
            } else {
                Some(Refusal::UserDeclined)
            },
        },
    }
}

/// How the calls of a round come out.
pub open spec fn outcomes_of(s: Setting, calls: Seq<CallView>) -> Seq<Option<Refusal>> {
    calls.map_values(|c: CallView| outcome_of(s, c.name))
}

/// The names that the human is asked about in a round.
pub open spec fn names_asked(s: Setting, calls: Seq<CallView>) -> Seq<Seq<char>>
    decreases calls.len(),
{
    if calls.len() == 0 {
        Seq::empty()
    } else {
        let before = names_asked(s, calls.drop_last());
        if left_to_human(s, calls.last().name) {
            before.push(calls.last().name)
        } else {
            before
        }
    }
}

/// What becomes of the calls of a round while they are judged: one after the other
/// the human is asked where it is up to them, and the host told where the call is let
/// through.
pub open spec fn judged_steps(s: Setting, calls: Seq<CallView>) -> Seq<StepView>
    decreases calls.len(),
{
    if calls.len() == 0 {
        Seq::empty()
    } else {
        let before = judged_steps(s, calls.drop_last());
        let call = calls.last();
        let asked = if left_to_human(s, call.name) {
            before.push(StepView::Asked(call.id))
        } else {
            before
        };
        if outcome_of(s, call.name) is None {
            asked.push(StepView::Allowed(call.id))
        } else {
            asked
        }
    }
}

/// What becomes of the calls of a round: all start before any is judged, all are
/// judged before any runs, and none has ended before the last one ran.
pub open spec fn round_course(s: Setting, calls: Seq<CallView>) -> Seq<StepView> {
    started_steps(calls) + judged_steps(s, calls) + ran_steps(runs(s, calls)) + ended_steps(calls)
}

/// That each of the calls starts.
pub open spec fn started_steps(calls: Seq<CallView>) -> Seq<StepView> {
    calls.map_values(|c: CallView| StepView::Started(c.id))
}

/// That each of the calls runs.
pub open spec fn ran_steps(calls: Seq<CallView>) -> Seq<StepView> {
    calls.map_values(|c: CallView| StepView::Ran(c.id))
}

/// That each of the calls has ended.
pub open spec fn ended_steps(calls: Seq<CallView>) -> Seq<StepView> {
    calls.map_values(|c: CallView| StepView::Ended(c.id))
}

/// The calls of a round that run.
pub open spec fn runs(s: Setting, calls: Seq<CallView>) -> Seq<CallView> {
    permitted(calls, outcomes_of(s, calls))
}

/// What a tool of the bench gives.
pub open spec fn output_of(call: CallView) -> OutputView {
    OutputView {
        text: if call.name == "echo"@ {
            match call.input.get_text("text"@) {
                Some(t) => t,
                None => Seq::empty(),
            }
        } else if call.name == "risky"@ {
            "ran"@
        } else if call.name == "heartbeat_config"@ {
            "probed"@
        } else {
            Seq::empty()
        },
        images: Seq::empty(),
    }
}

/// How the bench words that a call did not run.
pub open spec fn refusal_words(name: Seq<char>, refusal: Refusal) -> Seq<char> {
    name + match refusal {
        Refusal::NotOffered => " was not offered"@,
        Refusal::Unavailable => " is not available here"@,
        Refusal::UserDeclined => " was declined"@,
    }
}

/// What answers the calls of a round.
pub open spec fn results_of(s: Setting, calls: Seq<CallView>) -> Seq<(Seq<char>, OutputView)> {
    let not_run = refused(calls, outcomes_of(s, calls));
    round_results(
        runs(s, calls),
        runs(s, calls).map_values(|c: CallView| output_of(c)),
        not_run,
        not_run.map_values(|r: (CallView, Refusal)| refusal_words(r.0.name, r.1)),
    )
}

/// That a piece of prose is handed to the host; an empty one is not.
pub open spec fn chunk_told(chunk: Option<Seq<char>>) -> Seq<HostCall> {
    match chunk {
        Some(t) => seq![HostCall::Chunk(t)],
        None => Seq::empty(),
    }
}

/// That every call of a round starts.
pub open spec fn starts(calls: Seq<CallView>) -> Seq<HostCall> {
    calls.map_values(
        |c: CallView| HostCall::Start { id: c.id, name: c.name, input: c.input },
    )
}

/// That calls are let through.
pub open spec fn allowances(calls: Seq<CallView>) -> Seq<HostCall> {
    calls.map_values(|c: CallView| HostCall::Allowed(c.id))
}

/// That every call of a round has ended.
pub open spec fn ends(calls: Seq<CallView>) -> Seq<HostCall> {
    calls.map_values(|c: CallView| HostCall::End { id: c.id, name: c.name })
}

/// What the host is told in a round: its prose, that every call starts, which calls
/// are let through, and that every call has ended.
pub open spec fn round_told(
    chunk: Option<Seq<char>>,
    calls: Seq<CallView>,
    ran: Seq<CallView>,
) -> Seq<HostCall> {
    chunk_told(chunk) + starts(calls) + allowances(ran) + ends(calls)
}

/// What a session holds after a write was tried, how many were, and whether it
/// landed.
pub struct Tried {
    pub log: Seq<MessageView>,
    pub writes: usize,
    pub landed: bool,
}

/// What comes of a write. Where nothing is to be written, nothing fails, and no
/// number is used.
pub open spec fn tried(
    failing: Seq<usize>,
    log: Seq<MessageView>,
    writes: usize,
    append: Option<AppendView>,
) -> Tried {
    let landed = append is None || !failing.contains(writes);
    Tried {
        log: crate::turn_loop::written(log, append, landed),
        writes: if append is Some && writes < usize::MAX {
            (writes + 1) as usize
        } else {
            writes
        },
        landed,
    }
}

/// The write of a message, where the turn has a session.
pub open spec fn write_of(s: Setting, msg: MessageView) -> Option<AppendView> {
    match s.persistence {
        Some(p) => Some(p.write(RecordView::Message(msg))),
        None => None,
    }
}

/// The message with the calls of a round is written, and the one with the answers
/// if that landed.
pub open spec fn round_writes(
    s: Setting,
    log: Seq<MessageView>,
    writes: usize,
    asked: MessageView,
    answer: MessageView,
) -> Tried {
    let first = tried(s.failing, log, writes, write_of(s, asked));
    tried(
        s.failing,
        first.log,
        first.writes,
        if first.landed {
            write_of(s, answer)
        } else {
            None
        },
    )
}

/// Whether one of the calls is of this tool.
pub open spec fn has_call(calls: Seq<CallView>, name: Seq<char>) -> bool {
    exists|i: int| 0 <= i < calls.len() && (#[trigger] calls[i]).name == name
}

/// A turn after the model was asked once more.
pub open spec fn after_ask(s: Setting, t: Trace) -> Trace {
    Trace {
        chats: t.chats.push((s.system, s.rules.offered.deep_view())),
        shown: t.shown.push(t.history.map_values(|m: MessageView| labelled(m))),
        ..t
    }
}

/// A turn after a round of tools.
pub open spec fn after_tools(s: Setting, t: Trace, response: ChatResponse) -> Trace {
    let calls = response.tool_calls.deep_view();
    let asked = tool_use_message(response.text.deep_view(), calls);
    let answer = tool_result_message(results_of(s, calls));
    let w = round_writes(s, t.log, t.writes, asked, answer);
    let prose = prose_of(response.text);
    Trace {
        history: t.history.push(asked).push(answer),
        round: next_round(t.round),
        prose: with_prose(t.prose, prose),
        handed: with_prose(t.handed, prose),
        log: w.log,
        writes: w.writes,
        ran: t.ran + runs(s, calls),
        asked: t.asked + names_asked(s, calls),
        told: t.told + round_told(as_chunk(prose), calls, runs(s, calls)),
        course: t.course + round_course(s, calls),
        risky: t.risky || has_call(runs(s, calls), "risky"@),
        probed: if has_call(runs(s, calls), "heartbeat_config"@) {
            Some(s.scope.admin_room_profile)
        } else {
            t.probed
        },
        ..t
    }
}

/// The last message of a turn in which the model replied.
pub open spec fn final_message(response: ChatResponse) -> MessageView {
    text_message(Role::Assistant, prose_of(response.text), None)
}

/// A turn after the model replied.
pub open spec fn after_reply(s: Setting, t: Trace, response: ChatResponse) -> Trace {
    let w = tried(s.failing, t.log, t.writes, write_of(s, final_message(response)));
    let prose = prose_of(response.text);
    Trace {
        history: t.history.push(final_message(response)),
        prose: with_prose(t.prose, prose),
        handed: with_prose(t.handed, prose),
        log: w.log,
        writes: w.writes,
        told: t.told + chunk_told(as_chunk(prose)),
        ..t
    }
}

/// How a turn that goes by a script ends, and why it stops.
pub open spec fn rehearsed(
    s: Setting,
    script: Seq<Result<ChatResponse, String>>,
    t: Trace,
) -> (Trace, StopView)
    decreases script.len(),
{
    if s.rules.round_limit is Some && t.round >= s.rules.round_limit.unwrap() {
        (t, StopView::BudgetExhausted(text::joined(t.prose, "\n\n"@)))
    } else if script.len() == 0 {
        (after_ask(s, t), StopView::ProviderError("StubProvider script exhausted"@))
    } else {
        match script[0] {
            Err(message) => (after_ask(s, t), StopView::ProviderError(message@)),
            Ok(response) => if response.tool_calls.len() == 0 {
                (after_reply(s, after_ask(s, t), response), StopView::Replied)
            } else {
                rehearsed(s, script.drop_first(), after_tools(s, after_ask(s, t), response))
            },
        }
    }
}

/// What is left of a script after the model was asked so often; a script that is used
/// up stays so.
pub open spec fn left_of(script: Seq<Result<ChatResponse, String>>, asks: int) -> Seq<
    Result<ChatResponse, String>,
> {
    if asks <= script.len() {
        script.skip(asks)
    } else {
        Seq::empty()
    }
}

/// Whether a host that is told something may answer so.
pub open spec fn host_answers<H: TurnHost>(
    host: H,
    call: HostCall,
    answer: Option<HostMessage>,
) -> bool {
    match call {
        HostCall::Chunk(t) => exists|s: &str|
            s@ == t && #[trigger] call_ensures(H::message_chunk, (&host, s), answer),
        HostCall::Start { id, name, input } => exists|i: &str, n: &str, j: &Json|
            i@ == id && n@ == name && j@ == input && #[trigger] call_ensures(
                H::tool_start,
                (&host, i, n, j),
                answer,
            ),
        HostCall::Allowed(id) => exists|i: &str|
            i@ == id && #[trigger] call_ensures(H::tool_allowed, (&host, i), answer),
        HostCall::End { id, name } => exists|i: &str, n: &str|
            i@ == id && n@ == name && #[trigger] call_ensures(
                H::tool_end,
                (&host, i, n),
                answer,
            ),
    }
}

/// Whether a host that is told one thing after the other may answer so.
pub open spec fn heard<H: TurnHost>(
    host: H,
    calls: Seq<HostCall>,
    answers: Seq<Option<HostMessage>>,
) -> bool {
    &&& answers.len() == calls.len()
    &&& forall|i: int|
        0 <= i < calls.len() ==> host_answers(host, calls[i], #[trigger] answers[i])
}

/// The messages among answers of a host, in order.
pub open spec fn messages_of(answers: Seq<Option<HostMessage>>) -> Seq<HostMessage>
    decreases answers.len(),
{
    if answers.len() == 0 {
        Seq::empty()
    } else {
        match answers.last() {
            Some(m) => messages_of(answers.drop_last()).push(m),
            None => messages_of(answers.drop_last()),
        }
    }
}

/// Whether exactly what a host answers to being told these things was sent since.
pub open spec fn sent_for<H: TurnHost>(
    host: H,
    before: Seq<HostMessage>,
    calls: Seq<HostCall>,
    after: Seq<HostMessage>,
) -> bool {
    exists|answers: Seq<Option<HostMessage>>| #[trigger]
        heard(host, calls, answers) && after == before + messages_of(answers)
}

/// Whether exactly what a host answers to being told these things was sent since,
/// and then one more answer.
pub open spec fn sent_and<H: TurnHost>(
    host: H,
    before: Seq<HostMessage>,
    calls: Seq<HostCall>,
    last: Option<HostMessage>,
    after: Seq<HostMessage>,
) -> bool {
    exists|mid: Seq<HostMessage>| #[trigger]
        sent_for(host, before, calls, mid) && after == match last {
            Some(m) => mid.push(m),
            None => mid,
        }
}

proof fn lemma_messages_concat(a: Seq<Option<HostMessage>>, b: Seq<Option<HostMessage>>)
    ensures
        messages_of(a + b) == messages_of(a) + messages_of(b),
    decreases b.len(),
{
    if b.len() == 0 {
        assert(a + b =~= a);
        assert(messages_of(a) + messages_of(b) =~= messages_of(a));
    } else {
        assert((a + b).drop_last() =~= a + b.drop_last());
        assert((a + b).last() == b.last());
        lemma_messages_concat(a, b.drop_last());
        match b.last() {
            Some(m) => {
                assert(messages_of(a) + messages_of(b.drop_last()).push(m) =~= (messages_of(a)
                    + messages_of(b.drop_last())).push(m));
            },
            None => {},
        }
    }
}

/// A host that is told nothing sends nothing.
pub proof fn lemma_sent_none<H: TurnHost>(host: H, before: Seq<HostMessage>)
    ensures
        sent_for(host, before, Seq::<HostCall>::empty(), before),
{
    let none = Seq::<Option<HostMessage>>::empty();
    assert(heard(host, Seq::<HostCall>::empty(), none));
    assert(before + messages_of(none) =~= before);
}

/// What was sent for one thing after the other was sent for both.
pub proof fn lemma_sent_then<H: TurnHost>(
    host: H,
    a: Seq<HostMessage>,
    first: Seq<HostCall>,
    b: Seq<HostMessage>,
    second: Seq<HostCall>,
    c: Seq<HostMessage>,
)
    requires
        sent_for(host, a, first, b),
        sent_for(host, b, second, c),
    ensures
        sent_for(host, a, first + second, c),
{
    let x = choose|x: Seq<Option<HostMessage>>| #[trigger]
        heard(host, first, x) && b == a + messages_of(x);
    let y = choose|y: Seq<Option<HostMessage>>| #[trigger]
        heard(host, second, y) && c == b + messages_of(y);
    lemma_messages_concat(x, y);
    let both = x + y;
    assert forall|i: int| 0 <= i < (first + second).len() implies host_answers(
        host,
        (first + second)[i],
        #[trigger] both[i],
    ) by {
        if i < first.len() {
            assert(both[i] == x[i]);
        } else {
            assert(both[i] == y[i - first.len()]);
        }
    }
    assert(heard(host, first + second, both));
    assert(a + messages_of(both) =~= a + messages_of(x) + messages_of(y));
}

/// What was sent for one more thing.
pub proof fn lemma_sent_one<H: TurnHost>(
    host: H,
    a: Seq<HostMessage>,
    first: Seq<HostCall>,
    b: Seq<HostMessage>,
    call: HostCall,
    answer: Option<HostMessage>,
    c: Seq<HostMessage>,
)
    requires
        sent_for(host, a, first, b),
        host_answers(host, call, answer),
        c == match answer {
            Some(m) => b.push(m),
            None => b,
        },
    ensures
        sent_for(host, a, first.push(call), c),
{
    let one = seq![answer];
    assert(one.drop_last() =~= Seq::empty());
    assert(messages_of(one.drop_last()) =~= Seq::empty());
    assert(heard(host, seq![call], one));
    assert(c =~= b + messages_of(one));
    assert(sent_for(host, b, seq![call], c));
    lemma_sent_then(host, a, first, b, seq![call], c);
    assert(first + seq![call] =~= first.push(call));
}

/// Calls that are refused up front change nothing of who is asked and what runs.
pub proof fn lemma_refused_up_front(s: Setting, calls: Seq<CallView>, from: int, to: int)
    requires
        0 <= from <= to <= calls.len(),
        forall|i: int|
            from <= i < to ==> refusal_up_front(s.rules, (#[trigger] calls[i]).name) is Some,
    ensures
        names_asked(s, calls.take(to)) == names_asked(s, calls.take(from)),
        judged_steps(s, calls.take(to)) == judged_steps(s, calls.take(from)),
        permitted(calls, outcomes_of(s, calls).take(to)) == permitted(
            calls,
            outcomes_of(s, calls).take(from),
        ),
    decreases to,
{
    if from < to {
        let all = outcomes_of(s, calls);
        lemma_refused_up_front(s, calls, from, to - 1);
        assert(calls.take(to).drop_last() =~= calls.take(to - 1));
        assert(calls.take(to).last() == calls[to - 1]);
        assert(all.take(to).drop_last() =~= all.take(to - 1));
        assert(all.take(to).last() == all[to - 1]);
        assert(refusal_up_front(s.rules, calls[to - 1].name) is Some);
    }
}

/// One more call is asked about, and runs, as it comes out.
pub proof fn lemma_one_more(s: Setting, calls: Seq<CallView>, n: int)
    requires
        0 <= n < calls.len(),
    ensures
        names_asked(s, calls.take(n + 1)) == if left_to_human(s, calls[n].name) {
            names_asked(s, calls.take(n)).push(calls[n].name)
        } else {
            names_asked(s, calls.take(n))
        },
        judged_steps(s, calls.take(n + 1)) == {
            let before = judged_steps(s, calls.take(n));
            let asked = if left_to_human(s, calls[n].name) {
                before.push(StepView::Asked(calls[n].id))
            } else {
                before
            };
            if outcome_of(s, calls[n].name) is None {
                asked.push(StepView::Allowed(calls[n].id))
            } else {
                asked
            }
        },
        permitted(calls, outcomes_of(s, calls).take(n + 1)) == if outcome_of(
            s,
            calls[n].name,
        ) is None {
            permitted(calls, outcomes_of(s, calls).take(n)).push(calls[n])
        } else {
            permitted(calls, outcomes_of(s, calls).take(n))
        },
{
    let all = outcomes_of(s, calls);
    assert(calls.take(n + 1).drop_last() =~= calls.take(n));
    assert(calls.take(n + 1).last() == calls[n]);
    assert(all.take(n + 1).drop_last() =~= all.take(n));
    assert(all.take(n + 1).last() == all[n]);
}

/// One more call is one of a tool, or the calls before it hold one.
pub proof fn lemma_has_call_more(calls: Seq<CallView>, k: int, name: Seq<char>)
    requires
        0 <= k < calls.len(),
    ensures
        has_call(calls.take(k + 1), name) == (has_call(calls.take(k), name) || calls[k].name
            == name),
{
    let (more, fewer) = (calls.take(k + 1), calls.take(k));
    if has_call(fewer, name) {
        let i = choose|i: int| 0 <= i < fewer.len() && (#[trigger] fewer[i]).name == name;
        assert(more[i] == fewer[i]);
    }
    if calls[k].name == name {
        assert(more[k].name == name);
    }
    if has_call(more, name) && calls[k].name != name {
        let i = choose|i: int| 0 <= i < more.len() && (#[trigger] more[i]).name == name;
        assert(fewer[i] == more[i]);
    }
}

/// A write of a message that answers no calls keeps a session paired.
pub proof fn lemma_plain_write_stays_paired(
    failing: Seq<usize>,
    log: Seq<MessageView>,
    writes: usize,
    append: Option<AppendView>,
)
    requires
        paired(log),
        append matches Some(a) ==> a.record matches RecordView::Message(m) ==> !answers(m),
    ensures
        paired(tried(failing, log, writes, append).log),
{
}

/// The two writes of a round keep a session paired, whichever of them land.
pub proof fn lemma_round_stays_paired(
    s: Setting,
    log: Seq<MessageView>,
    writes: usize,
    text: Option<Seq<char>>,
    calls: Seq<CallView>,
    answer: MessageView,
)
    requires
        paired(log),
        calls.len() > 0,
    ensures
        paired(round_writes(s, log, writes, tool_use_message(text, calls), answer).log),
{
    lemma_tool_use_asks(text, calls);
}

/// The calls that a message asks for, by their identifiers, each as often as it does.
pub open spec fn asked_ids(parts: Seq<PartView>) -> Multiset<Seq<char>>
    decreases parts.len(),
{
    if parts.len() == 0 {
        Multiset::empty()
    } else {
        let before = asked_ids(parts.drop_last());
        match parts.last() {
            PartView::ToolUse { id, .. } => before.insert(id),
            _ => before,
        }
    }
}

/// The calls that a message answers, by their identifiers, each as often as it does.
pub open spec fn result_ids(parts: Seq<PartView>) -> Multiset<Seq<char>>
    decreases parts.len(),
{
    if parts.len() == 0 {
        Multiset::empty()
    } else {
        let before = result_ids(parts.drop_last());
        match parts.last() {
            PartView::ToolResult { tool_use_id, .. } => before.insert(tool_use_id),
            _ => before,
        }
    }
}

/// Whether every message of a conversation that asks for calls is followed at once
/// by one that answers each of them once, and nothing else.
pub open spec fn fully_answered(history: Seq<MessageView>) -> bool {
    forall|i: int|
        0 <= i < history.len() && #[trigger] asks(history[i]) ==> {
            &&& i + 1 < history.len()
            &&& result_ids(history[i + 1].parts) == asked_ids(history[i].parts)
        }
}

proof fn lemma_asked_ids(text: Option<Seq<char>>, calls: Seq<CallView>)
    ensures
        asked_ids(tool_use_message(text, calls).parts) == call_ids(calls),
    decreases calls.len(),
{
    broadcast use vstd::seq_lib::group_to_multiset_ensures;

    let parts = tool_use_message(text, calls).parts;
    let ids = calls.map_values(|c: CallView| c.id);
    if calls.len() == 0 {
        assert(ids =~= Seq::empty());
        if text is Some {
            assert(parts.drop_last() =~= Seq::empty());
            assert(parts.last() == PartView::Text(text.unwrap()));
            assert(asked_ids(parts.drop_last()) == Multiset::<Seq<char>>::empty());
        } else {
            assert(parts =~= Seq::empty());
        }
        assert(asked_ids(parts) =~= call_ids(calls));
    } else {
        let before = calls.drop_last();
        lemma_asked_ids(text, before);
        assert(parts.drop_last() =~= tool_use_message(text, before).parts);
        assert(parts.last() == crate::message::use_part(calls.last()));
        assert(ids =~= before.map_values(|c: CallView| c.id).push(calls.last().id));
        assert(asked_ids(parts) =~= call_ids(calls));
    }
}

proof fn lemma_no_images(results: Seq<(Seq<char>, OutputView)>)
    requires
        forall|i: int| 0 <= i < results.len() ==> (#[trigger] results[i]).1.images.len() == 0,
    ensures
        crate::message::all_images(results).len() == 0,
    decreases results.len(),
{
    if results.len() > 0 {
        let before = results.drop_last();
        assert forall|i: int| 0 <= i < before.len() implies (#[trigger] before[i]).1.images.len()
            == 0 by {
            assert(before[i] == results[i]);
        }
        lemma_no_images(before);
        assert(results[results.len() - 1].1.images.len() == 0);
    }
}

proof fn lemma_result_ids(results: Seq<(Seq<char>, OutputView)>)
    requires
        forall|i: int| 0 <= i < results.len() ==> (#[trigger] results[i]).1.images.len() == 0,
    ensures
        result_ids(tool_result_message(results).parts) == answered_ids(results),
    decreases results.len(),
{
    broadcast use vstd::seq_lib::group_to_multiset_ensures;

    let parts = tool_result_message(results).parts;
    let ids = results.map_values(|r: (Seq<char>, OutputView)| r.0);
    lemma_no_images(results);
    if results.len() == 0 {
        assert(parts =~= Seq::empty());
        assert(ids =~= Seq::empty());
        assert(result_ids(parts) =~= answered_ids(results));
    } else {
        let before = results.drop_last();
        assert forall|i: int| 0 <= i < before.len() implies (#[trigger] before[i]).1.images.len()
            == 0 by {
            assert(before[i] == results[i]);
        }
        lemma_no_images(before);
        lemma_result_ids(before);
        assert(parts.drop_last() =~= tool_result_message(before).parts);
        assert(parts.last() == crate::message::result_part(results.last()));
        assert(ids =~= before.map_values(|r: (Seq<char>, OutputView)| r.0).push(
            results.last().0,
        ));
        assert(result_ids(parts) =~= answered_ids(results));
    }
}

proof fn lemma_round_is_answered(s: Setting, text: Option<Seq<char>>, calls: Seq<CallView>)
    ensures
        result_ids(tool_result_message(results_of(s, calls)).parts) == asked_ids(
            tool_use_message(text, calls).parts,
        ),
        !asks(tool_result_message(results_of(s, calls))),
{
    let results = results_of(s, calls);
    let ran = runs(s, calls);
    let not_run = refused(calls, outcomes_of(s, calls));
    lemma_asked_ids(text, calls);
    lemma_results_answer(
        calls,
        outcomes_of(s, calls),
        ran.map_values(|c: CallView| output_of(c)),
        not_run.map_values(|r: (CallView, Refusal)| refusal_words(r.0.name, r.1)),
    );
    lemma_result_ids(results);
    lemma_no_images(results);
    let parts = tool_result_message(results).parts;
    assert forall|i: int| 0 <= i < parts.len() implies !(#[trigger] parts[i] is ToolUse) by {
        assert(parts[i] == crate::message::result_part(results[i]));
    }
}

proof fn lemma_tools_keep_history(s: Setting, t: Trace, response: ChatResponse)
    requires
        fully_answered(t.history),
    ensures
        fully_answered(after_tools(s, t, response).history),
{
    let calls = response.tool_calls.deep_view();
    let after = after_tools(s, t, response).history;
    let n = t.history.len() as int;
    lemma_round_is_answered(s, response.text.deep_view(), calls);
    assert forall|i: int| 0 <= i < after.len() && #[trigger] asks(after[i]) implies i + 1
        < after.len() && result_ids(after[i + 1].parts) == asked_ids(after[i].parts) by {
        if i < n {
            assert(after[i] == t.history[i]);
            assert(after[i + 1] == t.history[i + 1]);
        }
    }
}

proof fn lemma_reply_keeps_history(history: Seq<MessageView>, response: ChatResponse)
    requires
        fully_answered(history),
    ensures
        fully_answered(history.push(final_message(response))),
{
    let last = final_message(response);
    let after = history.push(last);
    assert(!asks(last)) by {
        assert(last.parts.len() == 1);
    }
    assert forall|i: int| 0 <= i < after.len() && #[trigger] asks(after[i]) implies i + 1
        < after.len() && result_ids(after[i + 1].parts) == asked_ids(after[i].parts) by {
        if i < history.len() {
            assert(after[i] == history[i]);
            assert(after[i + 1] == history[i + 1]);
        }
    }
}

/// Whatever becomes of its calls and however it stops, a turn leaves every message
/// of the conversation that it found where it was. Where every call of that
/// conversation was answered right after it, the same holds of the one that the
/// turn leaves.
pub proof fn conversations_stay_answered(
    s: Setting,
    script: Seq<Result<ChatResponse, String>>,
    t: Trace,
)
    ensures
        t.history.len() <= rehearsed(s, script, t).0.history.len(),
        forall|i: int|
            0 <= i < t.history.len() ==> #[trigger] rehearsed(s, script, t).0.history[i]
                == t.history[i],
        fully_answered(t.history) ==> fully_answered(rehearsed(s, script, t).0.history),
    decreases script.len(),
{
    let spent = s.rules.round_limit is Some && t.round >= s.rules.round_limit.unwrap();
    let asked = after_ask(s, t);
    if !spent && script.len() > 0 && script[0] is Ok {
        let response = script[0]->Ok_0;
        if response.tool_calls.len() == 0 {
            if fully_answered(t.history) {
                lemma_reply_keeps_history(t.history, response);
            }
        } else {
            let next = after_tools(s, asked, response);
            if fully_answered(t.history) {
                lemma_tools_keep_history(s, asked, response);
            }
            conversations_stay_answered(s, script.drop_first(), next);
            let end = rehearsed(s, script.drop_first(), next).0;
            assert(end == rehearsed(s, script, t).0);
            assert forall|i: int| 0 <= i < t.history.len() implies #[trigger] end.history[i]
                == t.history[i] by {
                assert(end.history[i] == next.history[i]);
            }
        }
    }
}

/// Where the model replied, its reply comes last: a response of the script without
/// calls, with what came before it all asking for some.
pub proof fn replies_come_last(s: Setting, script: Seq<Result<ChatResponse, String>>, t: Trace)
    requires
        rehearsed(s, script, t).1 is Replied,
    ensures
        rehearsed(s, script, t).0.history.len() > 0,
        exists|k: int|
            0 <= k < script.len() && #[trigger] replies_at(script, k) && rehearsed(
                s,
                script,
                t,
            ).0.history.last() == final_message(script[k]->Ok_0),
    decreases script.len(),
{
    let response = script[0]->Ok_0;
    if response.tool_calls.len() == 0 {
        assert(replies_at(script, 0));
    } else {
        let rest = script.drop_first();
        let next = after_tools(s, after_ask(s, t), response);
        replies_come_last(s, rest, next);
        let end = rehearsed(s, rest, next).0;
        let k = choose|k: int|
            0 <= k < rest.len() && #[trigger] replies_at(rest, k) && end.history.last()
                == final_message(rest[k]->Ok_0);
        assert forall|i: int| 0 <= i < k + 1 implies (#[trigger] script[i]) is Ok
            && script[i]->Ok_0.tool_calls.len() > 0 by {
            if i > 0 {
                assert(script[i] == rest[i - 1]);
            }
        }
        assert(script[k + 1] == rest[k]);
        assert(replies_at(script, k + 1));
    }
}

/// Whether the first response of a script without calls stands here, with nothing
/// but responses with calls before it.
pub open spec fn replies_at(script: Seq<Result<ChatResponse, String>>, k: int) -> bool {
    &&& script[k] is Ok
    &&& script[k]->Ok_0.tool_calls.len() == 0
    &&& forall|i: int|
        0 <= i < k ==> (#[trigger] script[i]) is Ok && script[i]->Ok_0.tool_calls.len() > 0
}

/// Nothing runs in a turn that was not offered, that the table or the deployment
/// refuses, or that the human was asked about and did not allow.
pub proof fn refused_calls_never_run(
    s: Setting,
    script: Seq<Result<ChatResponse, String>>,
    t: Trace,
    i: int,
)
    requires
        t.ran.len() <= i < rehearsed(s, script, t).0.ran.len(),
    ensures
        outcome_of(s, rehearsed(s, script, t).0.ran[i].name) is None,
        s.rules.offered.deep_view().contains(rehearsed(s, script, t).0.ran[i].name),
    decreases script.len(),
{
    let response = script[0]->Ok_0;
    let calls = response.tool_calls.deep_view();
    let next = after_tools(s, after_ask(s, t), response);
    let end = rehearsed(s, script, t).0;
    assert(end == rehearsed(s, script.drop_first(), next).0);
    if i < next.ran.len() {
        ran_calls_stay(s, script.drop_first(), next);
        assert(end.ran[i] == next.ran[i]);
        let all = outcomes_of(s, calls);
        let k = i - t.ran.len();
        lemma_permitted_from(calls, all, k);
        let j = choose|j: int|
            0 <= j < all.len() && #[trigger] all[j] is None && calls[j] == permitted(calls, all)[k];
        assert(all[j] == outcome_of(s, calls[j].name));
    } else {
        refused_calls_never_run(s, script.drop_first(), next, i);
    }
}

/// What has run stays on the list of what ran.
pub proof fn ran_calls_stay(s: Setting, script: Seq<Result<ChatResponse, String>>, t: Trace)
    ensures
        t.ran.len() <= rehearsed(s, script, t).0.ran.len(),
        forall|i: int|
            0 <= i < t.ran.len() ==> #[trigger] rehearsed(s, script, t).0.ran[i] == t.ran[i],
    decreases script.len(),
{
    let spent = s.rules.round_limit is Some && t.round >= s.rules.round_limit.unwrap();
    if !spent && script.len() > 0 && script[0] is Ok && script[0]->Ok_0.tool_calls.len() > 0 {
        let next = after_tools(s, after_ask(s, t), script[0]->Ok_0);
        ran_calls_stay(s, script.drop_first(), next);
        assert forall|i: int| 0 <= i < t.ran.len() implies #[trigger] rehearsed(
            s,
            script,
            t,
        ).0.ran[i] == t.ran[i] by {
            assert(rehearsed(s, script.drop_first(), next).0.ran[i] == next.ran[i]);
        }
    }
}

/// A turn keeps to its rounds: however long its script, it never goes past its
/// limit, and where it stops for that, it is at it.
pub proof fn rounds_are_kept(s: Setting, script: Seq<Result<ChatResponse, String>>, t: Trace)
    requires
        s.rules.round_limit matches Some(max) ==> t.round <= max,
    ensures
        ({
            let (end, stop) = rehearsed(s, script, t);
            &&& s.rules.round_limit matches Some(max) ==> end.round <= max
            &&& stop is BudgetExhausted ==> s.rules.round_limit == Some(end.round)
        }),
    decreases script.len(),
{
    let spent = s.rules.round_limit is Some && t.round >= s.rules.round_limit.unwrap();
    if !spent && script.len() > 0 && script[0] is Ok && script[0]->Ok_0.tool_calls.len() > 0 {
        rounds_are_kept(
            s,
            script.drop_first(),
            after_tools(s, after_ask(s, t), script[0]->Ok_0),
        );
    }
}

/// The host is handed exactly the prose of the turn.
pub proof fn prose_is_handed_on(s: Setting, script: Seq<Result<ChatResponse, String>>, t: Trace)
    requires
        t.handed == t.prose,
    ensures
        rehearsed(s, script, t).0.handed == rehearsed(s, script, t).0.prose,
    decreases script.len(),
{
    let spent = s.rules.round_limit is Some && t.round >= s.rules.round_limit.unwrap();
    if !spent && script.len() > 0 && script[0] is Ok && script[0]->Ok_0.tool_calls.len() > 0 {
        prose_is_handed_on(
            s,
            script.drop_first(),
            after_tools(s, after_ask(s, t), script[0]->Ok_0),
        );
    }
}

/// How a call comes out: as not offered where its name is none of those that were; as
/// unavailable where it is kept off this machine or the table denies it; as declined
/// where the table leaves it to a human who says no; and otherwise it runs. The table
/// allows what it does not list.
pub proof fn calls_come_out_as_ruled(s: Setting, name: Seq<char>)
    ensures
        ({
            let offered = exists|i: int|
                0 <= i < s.rules.offered.len() && (#[trigger] s.rules.offered@[i])@ == name;
            let denied = crate::policy::host_denied(
                name,
                s.rules.host_access_enabled,
                s.rules.routed_to_client,
            );
            let listed = s.decisions.contains_key(name);
            let asks = listed && s.decisions[name] == Decision::Ask;
            let yes = s.approval == Approval::AllowOnce || s.approval == Approval::AllowAlways;
            &&& outcome_of(s, name) == Some(Refusal::NotOffered) <==> !offered
            &&& outcome_of(s, name) == Some(Refusal::Unavailable) <==> offered && (denied || (listed
                && s.decisions[name] == Decision::Deny))
            &&& outcome_of(s, name) == Some(Refusal::UserDeclined) <==> offered && !denied && asks
                && !yes
            &&& left_to_human(s, name) <==> offered && !denied && asks
        }),
{
    let offered = s.rules.offered.deep_view();
    assert(offered.len() == s.rules.offered.len());
    if offered.contains(name) {
        let i = choose|i: int| 0 <= i < offered.len() && offered[i] == name;
        assert(s.rules.offered@[i]@ == name);
    }
    assert forall|i: int|
        0 <= i < s.rules.offered.len() && (#[trigger] s.rules.offered@[i])@
            == name implies offered.contains(name) by {
        assert(offered[i] == s.rules.offered@[i]@);
    }
}

/// Each time that the model is asked it is given the system prompt and every tool that
/// was offered, in order, and shown every message of the conversation, each as it is
/// shown alone. Nothing else changes.
pub proof fn models_are_asked_with_everything(s: Setting, t: Trace, i: int)
    ensures
        ({
            let e = after_ask(s, t);
            let n = t.chats.len() as int;
            let m = t.shown.len() as int;
            &&& e.chats.len() == n + 1
            &&& e.chats[n].0 == s.system
            &&& e.chats[n].1.len() == s.rules.offered.len()
            &&& 0 <= i < s.rules.offered.len() ==> e.chats[n].1[i] == s.rules.offered@[i]@
            &&& e.shown.len() == m + 1
            &&& e.shown[m].len() == t.history.len()
            &&& 0 <= i < t.history.len() ==> e.shown[m][i] == labelled(t.history[i])
            &&& 0 <= i < n ==> e.chats[i] == t.chats[i]
            &&& 0 <= i < m ==> e.shown[i] == t.shown[i]
            &&& e.history == t.history && e.log == t.log && e.told == t.told
            &&& e.ran == t.ran && e.asked == t.asked && e.course == t.course
            &&& e.prose == t.prose && e.round == t.round && e.writes == t.writes
        }),
{
    assert(s.rules.offered.deep_view().len() == s.rules.offered.len());
    if 0 <= i < s.rules.offered.len() {
        assert(s.rules.offered.deep_view()[i] == s.rules.offered@[i]@);
    }
}

/// A round of tools adds two messages to the conversation: the prose and the calls, and
/// then one answer for each call. A call that ran is answered with what its tool gives:
/// the text that it was to say back, all of it, or that it ran or probed; a call that
/// did not with its name and why. What ran comes first, each in the order of the calls.
#[verifier::rlimit(50)]
pub proof fn rounds_answer_each_call(s: Setting, t: Trace, response: ChatResponse, i: int)
    requires
        0 <= i < response.tool_calls.len(),
    ensures
        ({
            let e = after_tools(s, t, response);
            let n = t.history.len() as int;
            let calls = response.tool_calls@;
            let call = calls[i];
            let head: int = if response.text is Some {
                1
            } else {
                0
            };
            let runs = |c: ToolCall| outcome_of(s, c.name@) is None;
            let stays = |c: ToolCall| outcome_of(s, c.name@) is Some;
            let asked = e.history[n].parts;
            let answers = e.history[n + 1].parts;
            let at: int = if runs(call) {
                count_of(calls.take(i), runs) as int
            } else {
                (count_of(calls, runs) + count_of(calls.take(i), stays)) as int
            };
            &&& e.history.len() == n + 2
            &&& forall|k: int| 0 <= k < n ==> #[trigger] e.history[k] == t.history[k]
            &&& e.history[n].role == Role::Assistant
            &&& asked.len() == head + calls.len()
            &&& response.text is Some ==> asked[0] == PartView::Text(response.text.unwrap()@)
            &&& asked[head + i] == PartView::ToolUse {
                id: call.id@,
                name: call.name@,
                input: call.input@,
            }
            &&& e.history[n + 1].role == Role::User
            &&& answers.len() == calls.len()
            &&& 0 <= at < calls.len()
            &&& answers[at] is ToolResult
            &&& answers[at]->ToolResult_tool_use_id == call.id@
            &&& runs(call) && call.name@ == "echo"@ && call.input@.get_text("text"@) is Some
                ==> answers[at]->content == call.input@.get_text("text"@).unwrap()
            &&& runs(call) && call.name@ == "echo"@ && call.input@.get_text("text"@) is None
                ==> answers[at]->content.len() == 0
            &&& runs(call) && call.name@ == "risky"@ ==> answers[at]->content == "ran"@
            &&& runs(call) && call.name@ == "heartbeat_config"@ ==> answers[at]->content
                == "probed"@
            &&& !runs(call) ==> answers[at]->content == call.name@ + match outcome_of(
                s,
                call.name@,
            ).unwrap() {
                Refusal::NotOffered => " was not offered"@,
                Refusal::Unavailable => " is not available here"@,
                Refusal::UserDeclined => " was declined"@,
            }
        }),
{
    let e = after_tools(s, t, response);
    let n = t.history.len() as int;
    let calls = response.tool_calls@;
    let call = calls[i];
    let views = response.tool_calls.deep_view();
    let all = outcomes_of(s, views);
    let runs_call = |c: ToolCall| outcome_of(s, c.name@) is None;
    let stays = |c: ToolCall| outcome_of(s, c.name@) is Some;
    let head: int = if response.text is Some {
        1
    } else {
        0
    };
    assert(views.len() == calls.len());
    assert(views[i] == call@);
    let results = results_of(s, views);
    let not_run = refused(views, all);
    let outputs = runs(s, views).map_values(|c: CallView| output_of(c));
    let reasons = not_run.map_values(|r: (CallView, Refusal)| refusal_words(r.0.name, r.1));
    lemma_outcome_counts(s, response.tool_calls, calls.len() as int);
    lemma_outcome_counts(s, response.tool_calls, i);
    assert(all.take(calls.len() as int) =~= all);
    assert(calls.take(calls.len() as int) =~= calls);
    lemma_permitted_count(views, all);
    lemma_permitted_place(views, all, i);
    lemma_refused_place(views, all, i);
    lemma_count_splits(all);
    assert(results.len() == calls.len());
    lemma_no_images(results);
    let asked = e.history[n].parts;
    let answers = e.history[n + 1].parts;
    assert(e.history[n] == tool_use_message(response.text.deep_view(), views));
    assert(e.history[n + 1] == tool_result_message(results));
    if response.text is Some {
        assert(response.text.deep_view() == Some(response.text.unwrap()@));
        assert(asked[0] == PartView::Text(response.text.unwrap()@));
    } else {
        assert(response.text.deep_view() is None);
    }
    assert(asked[head + i] == crate::message::use_part(views[i]));
    reveal_strlit("echo");
    reveal_strlit("risky");
    reveal_strlit("heartbeat_config");
    assert("echo"@.len() == 4 && "risky"@.len() == 5 && "heartbeat_config"@.len() == 16);
    if runs_call(call) {
        let k = count_of(calls.take(i), runs_call) as int;
        lemma_count_before(all, |o: Option<Refusal>| o is None, i);
        assert(results[k] == (runs(s, views)[k].id, outputs[k]));
        assert(answers[k] == crate::message::result_part(results[k]));
    } else {
        let k = count_of(calls.take(i), stays) as int;
        let at: int = count_of(calls, runs_call) + k;
        lemma_count_before(all, |o: Option<Refusal>| o is Some, i);
        assert(results[at].0 == not_run[k].0.id);
        assert(results[at].1.text == reasons[k]);
        assert(answers[at] == crate::message::result_part(results[at]));
    }
}

proof fn lemma_outcome_counts(s: Setting, calls: Vec<ToolCall>, n: int)
    requires
        0 <= n <= calls.len(),
    ensures
        count_of(outcomes_of(s, calls.deep_view()).take(n), |o: Option<Refusal>| o is None)
            == count_of(calls@.take(n), |c: ToolCall| outcome_of(s, c.name@) is None),
        count_of(outcomes_of(s, calls.deep_view()).take(n), |o: Option<Refusal>| o is Some)
            == count_of(calls@.take(n), |c: ToolCall| outcome_of(s, c.name@) is Some),
    decreases n,
{
    let all = outcomes_of(s, calls.deep_view());
    if n > 0 {
        lemma_outcome_counts(s, calls, n - 1);
        assert(all.take(n).drop_last() =~= all.take(n - 1));
        assert(calls@.take(n).drop_last() =~= calls@.take(n - 1));
        assert(calls.deep_view()[n - 1] == calls@[n - 1]@);
        assert(all.take(n).last() == outcome_of(s, calls@[n - 1].name@));
        assert(calls@.take(n).last() == calls@[n - 1]);
    }
}

proof fn lemma_count_splits(all: Seq<Option<Refusal>>)
    ensures
        count_of(all, |o: Option<Refusal>| o is None) + count_of(
            all,
            |o: Option<Refusal>| o is Some,
        ) == all.len(),
    decreases all.len(),
{
    if all.len() > 0 {
        lemma_count_splits(all.drop_last());
    }
}

/// A round of tools counts as one round, as far as numbers go, and hands its prose to
/// the host where that is not empty. What ran joins what ran before, and who was asked
/// about joins who was asked about before, in the order of the calls. The tool that
/// needs permission has run where a call of it did, and the one that looks at the grant
/// has seen the turn's.
pub proof fn rounds_note_what_became_of_calls(
    s: Setting,
    t: Trace,
    response: ChatResponse,
    i: int,
)
    requires
        0 <= i < response.tool_calls.len(),
    ensures
        ({
            let e = after_tools(s, t, response);
            let calls = response.tool_calls@;
            let call = calls[i];
            let runs = |c: ToolCall| outcome_of(s, c.name@) is None;
            let human = |c: ToolCall| left_to_human(s, c.name@);
            let silent = response.text is None || response.text.unwrap()@.len() == 0;
            let r = t.ran.len() + count_of(calls.take(i), runs);
            let a = t.asked.len() + count_of(calls.take(i), human);
            &&& t.round < usize::MAX ==> e.round == t.round + 1
            &&& t.round == usize::MAX ==> e.round == t.round
            &&& silent ==> e.prose == t.prose && e.handed == t.handed
            &&& !silent ==> e.prose == t.prose.push(response.text.unwrap()@)
            &&& !silent ==> e.handed == t.handed.push(response.text.unwrap()@)
            &&& e.ran.len() == t.ran.len() + count_of(calls, runs)
            &&& e.asked.len() == t.asked.len() + count_of(calls, human)
            &&& forall|k: int| 0 <= k < t.ran.len() ==> #[trigger] e.ran[k] == t.ran[k]
            &&& forall|k: int| 0 <= k < t.asked.len() ==> #[trigger] e.asked[k] == t.asked[k]
            &&& runs(call) ==> r < e.ran.len() && e.ran[r as int] == call@
            &&& human(call) ==> a < e.asked.len() && e.asked[a as int] == call.name@
            &&& t.risky || (runs(call) && call.name@ == "risky"@) ==> e.risky
            &&& e.risky && !t.risky ==> exists|k: int|
                0 <= k < calls.len() && (#[trigger] calls[k]).name@ == "risky"@ && runs(calls[k])
            &&& runs(call) && call.name@ == "heartbeat_config"@ ==> e.probed == Some(
                s.scope.admin_room_profile,
            )
            &&& e.probed == t.probed || e.probed == Some(s.scope.admin_room_profile)
            &&& e.chats == t.chats && e.shown == t.shown
        }),
{
    let calls = response.tool_calls@;
    let call = calls[i];
    let views = response.tool_calls.deep_view();
    let all = outcomes_of(s, views);
    let run = runs(s, views);
    assert(views.len() == calls.len());
    assert(views[i] == call@);
    assert(calls.take(calls.len() as int) =~= calls);
    assert(all.take(calls.len() as int) =~= all);
    assert(views.take(calls.len() as int) =~= views);
    lemma_outcome_counts(s, response.tool_calls, calls.len() as int);
    lemma_outcome_counts(s, response.tool_calls, i);
    lemma_permitted_count(views, all);
    lemma_permitted_place(views, all, i);
    lemma_asked_place(s, response.tool_calls, calls.len() as int, i);
    if outcome_of(s, call.name@) is None {
        lemma_count_before(all, |o: Option<Refusal>| o is None, i);
        let k = count_of(all.take(i), |o: Option<Refusal>| o is None) as int;
        assert(run[k] == call@);
        if call.name@ == "risky"@ {
            assert(has_call(run, "risky"@));
        }
        if call.name@ == "heartbeat_config"@ {
            assert(has_call(run, "heartbeat_config"@));
        }
    }
    if has_call(run, "risky"@) {
        let k = choose|k: int| 0 <= k < run.len() && (#[trigger] run[k]).name == "risky"@;
        lemma_permitted_from(views, all, k);
        let j = choose|j: int|
            0 <= j < all.len() && #[trigger] all[j] is None && views[j] == run[k];
        assert(views[j] == calls[j]@);
        assert(calls[j].name@ == "risky"@);
    }
}

proof fn lemma_asked_place(s: Setting, calls: Vec<ToolCall>, n: int, i: int)
    requires
        0 <= n <= calls.len(),
    ensures
        ({
            let human = |c: ToolCall| left_to_human(s, c.name@);
            let names = names_asked(s, calls.deep_view().take(n));
            &&& names.len() == count_of(calls@.take(n), human)
            &&& 0 <= i < n && human(calls@[i]) ==> count_of(calls@.take(i), human) < names.len()
                && names[count_of(calls@.take(i), human) as int] == calls@[i].name@
        }),
    decreases n,
{
    let human = |c: ToolCall| left_to_human(s, c.name@);
    let views = calls.deep_view();
    if n > 0 {
        lemma_asked_place(s, calls, n - 1, i);
        assert(views.take(n).drop_last() =~= views.take(n - 1));
        assert(calls@.take(n).drop_last() =~= calls@.take(n - 1));
        assert(views.take(n).last() == calls@[n - 1]@);
        assert(calls@.take(n).last() == calls@[n - 1]);
    }
}

/// What the host is told of a round: its prose where that is not empty; then that each
/// call starts, with all of its input, in order; then each that is let through, in
/// order; then that each has ended, in order.
pub proof fn hosts_are_told_of_rounds_in_order(
    s: Setting,
    t: Trace,
    response: ChatResponse,
    i: int,
)
    requires
        0 <= i < response.tool_calls.len(),
    ensures
        ({
            let e = after_tools(s, t, response);
            let calls = response.tool_calls@;
            let call = calls[i];
            let runs = |c: ToolCall| outcome_of(s, c.name@) is None;
            let n = t.told.len() as int;
            let silent = response.text is None || response.text.unwrap()@.len() == 0;
            let first: int = if silent {
                n
            } else {
                n + 1
            };
            let mid = first + calls.len();
            let last = mid + count_of(calls, runs);
            let k = count_of(calls.take(i), runs);
            &&& forall|j: int| 0 <= j < n ==> #[trigger] e.told[j] == t.told[j]
            &&& e.told.len() == last + calls.len()
            &&& !silent ==> e.told[n] == HostCall::Chunk(response.text.unwrap()@)
            &&& e.told[first + i] == HostCall::Start {
                id: call.id@,
                name: call.name@,
                input: call.input@,
            }
            &&& runs(call) ==> mid + k < last && e.told[mid + k] == HostCall::Allowed(call.id@)
            &&& e.told[last + i] == HostCall::End { id: call.id@, name: call.name@ }
        }),
{
    let e = after_tools(s, t, response);
    let calls = response.tool_calls@;
    let call = calls[i];
    let views = response.tool_calls.deep_view();
    let all = outcomes_of(s, views);
    let run = runs(s, views);
    assert(views.len() == calls.len());
    assert(views[i] == call@);
    assert(calls.take(calls.len() as int) =~= calls);
    assert(all.take(calls.len() as int) =~= all);
    lemma_outcome_counts(s, response.tool_calls, calls.len() as int);
    lemma_outcome_counts(s, response.tool_calls, i);
    lemma_permitted_count(views, all);
    lemma_permitted_place(views, all, i);
    let chunk = chunk_told(as_chunk(prose_of(response.text)));
    let n = t.told.len() as int;
    let first = n + chunk.len();
    let mid = first + calls.len();
    let last = mid + run.len();
    assert(e.told == t.told + (chunk + starts(views) + allowances(run) + ends(views)));
    assert(e.told[first + i] == starts(views)[i]);
    assert(e.told[last + i] == ends(views)[i]);
    if outcome_of(s, call.name@) is None {
        lemma_count_before(all, |o: Option<Refusal>| o is None, i);
        let k = count_of(all.take(i), |o: Option<Refusal>| o is None) as int;
        assert(e.told[mid + k] == allowances(run)[k]);
    }
}

proof fn lemma_judged_place(s: Setting, calls: Vec<ToolCall>, n: int, i: int)
    requires
        0 <= n <= calls.len(),
    ensures
        ({
            let runs = |c: ToolCall| outcome_of(s, c.name@) is None;
            let human = |c: ToolCall| left_to_human(s, c.name@);
            let steps = judged_steps(s, calls.deep_view().take(n));
            let at = count_of(calls@.take(i), runs) + count_of(calls@.take(i), human);
            let then = at + if human(calls@[i]) {
                1int
            } else {
                0
            };
            &&& steps.len() == count_of(calls@.take(n), runs) + count_of(calls@.take(n), human)
            &&& 0 <= i < n && human(calls@[i]) ==> at < steps.len() && steps[at as int]
                == StepView::Asked(calls@[i].id@)
            &&& 0 <= i < n && runs(calls@[i]) ==> then < steps.len() && steps[then]
                == StepView::Allowed(calls@[i].id@)
        }),
    decreases n,
{
    let views = calls.deep_view();
    if n > 0 {
        lemma_judged_place(s, calls, n - 1, i);
        assert(views.take(n).drop_last() =~= views.take(n - 1));
        assert(calls@.take(n).drop_last() =~= calls@.take(n - 1));
        assert(views.take(n).last() == calls@[n - 1]@);
        assert(calls@.take(n).last() == calls@[n - 1]);
    }
}

/// What becomes of the calls of a round comes in order: all start before any is judged;
/// they are judged one after the other, each asked about before it is let through; all
/// are judged before any runs; they run in order; and none has ended before the last
/// one ran.
pub proof fn calls_start_then_are_judged_then_run_then_end(
    s: Setting,
    t: Trace,
    response: ChatResponse,
    i: int,
)
    requires
        0 <= i < response.tool_calls.len(),
    ensures
        ({
            let e = after_tools(s, t, response);
            let calls = response.tool_calls@;
            let call = calls[i];
            let runs = |c: ToolCall| outcome_of(s, c.name@) is None;
            let human = |c: ToolCall| left_to_human(s, c.name@);
            let n = t.course.len() as int;
            let judged = n + calls.len();
            let running = judged + count_of(calls, runs) + count_of(calls, human);
            let ending = running + count_of(calls, runs);
            let at = judged + count_of(calls.take(i), runs) + count_of(calls.take(i), human);
            let then = at + if human(call) {
                1int
            } else {
                0
            };
            let k = count_of(calls.take(i), runs);
            &&& forall|j: int| 0 <= j < n ==> #[trigger] e.course[j] == t.course[j]
            &&& e.course.len() == ending + calls.len()
            &&& e.course[n + i] == StepView::Started(call.id@)
            &&& human(call) ==> at < running && e.course[at] == StepView::Asked(call.id@)
            &&& runs(call) ==> then < running && e.course[then] == StepView::Allowed(call.id@)
            &&& runs(call) ==> running + k < ending && e.course[running + k] == StepView::Ran(
                call.id@,
            )
            &&& e.course[ending + i] == StepView::Ended(call.id@)
        }),
{
    let e = after_tools(s, t, response);
    let calls = response.tool_calls@;
    let call = calls[i];
    let views = response.tool_calls.deep_view();
    let all = outcomes_of(s, views);
    let run = runs(s, views);
    assert(views.len() == calls.len());
    assert(views[i] == call@);
    assert(calls.take(calls.len() as int) =~= calls);
    assert(all.take(calls.len() as int) =~= all);
    assert(views.take(calls.len() as int) =~= views);
    lemma_outcome_counts(s, response.tool_calls, calls.len() as int);
    lemma_outcome_counts(s, response.tool_calls, i);
    lemma_permitted_count(views, all);
    lemma_permitted_place(views, all, i);
    lemma_judged_place(s, response.tool_calls, calls.len() as int, i);
    let steps = judged_steps(s, views);
    let n = t.course.len() as int;
    let judged = n + calls.len();
    let running = judged + steps.len();
    let ending = running + run.len();
    assert(e.course == t.course + (started_steps(views) + steps + ran_steps(run) + ended_steps(
        views,
    )));
    assert(e.course[n + i] == started_steps(views)[i]);
    assert(e.course[ending + i] == ended_steps(views)[i]);
    assert forall|j: int| 0 <= j < steps.len() implies e.course[judged + j] == #[trigger] steps[
        j
    ] by {}
    if outcome_of(s, call.name@) is None {
        lemma_count_before(all, |o: Option<Refusal>| o is None, i);
        let k = count_of(all.take(i), |o: Option<Refusal>| o is None) as int;
        assert(e.course[running + k] == ran_steps(run)[k]);
    }
}

/// A message is written where the turn has a session and the write does not fail, and
/// then as it is. A write that was tried uses up a number, as far as numbers go. The
/// answers of a round are not even tried where the message with the calls failed.
pub proof fn writes_are_tried_in_order(
    s: Setting,
    t: Trace,
    response: ChatResponse,
)
    requires
        t.writes < usize::MAX - 1,
    ensures
        ({
            let e = after_tools(s, t, response);
            let n = t.history.len() as int;
            let (asked, answer) = (e.history[n], e.history[n + 1]);
            let w = t.writes;
            &&& s.persistence is None ==> e.log == t.log && e.writes == w
            &&& s.persistence is Some && s.failing.contains(w) ==> e.log == t.log && e.writes == w
                + 1
            &&& s.persistence is Some && !s.failing.contains(w) ==> e.writes == w + 2
            &&& s.persistence is Some && !s.failing.contains(w) && s.failing.contains(
                (w + 1) as usize,
            ) ==> e.log == t.log.push(asked)
            &&& s.persistence is Some && !s.failing.contains(w) && !s.failing.contains(
                (w + 1) as usize,
            ) ==> e.log == t.log.push(asked).push(answer)
        }),
{
}

/// A reply without calls joins the conversation as one text of the assistant's, whole,
/// is handed to the host where it is not empty, and is written where the turn has a
/// session and the write does not fail. Nothing runs, and nobody is asked.
pub proof fn replies_join_the_conversation(s: Setting, t: Trace, response: ChatResponse)
    requires
        t.writes < usize::MAX,
    ensures
        ({
            let e = after_reply(s, t, response);
            let n = t.history.len() as int;
            let said = if response.text is Some {
                response.text.unwrap()@
            } else {
                Seq::empty()
            };
            let msg = e.history[n];
            &&& e.history.len() == n + 1
            &&& forall|k: int| 0 <= k < n ==> #[trigger] e.history[k] == t.history[k]
            &&& msg.role == Role::Assistant
            &&& msg.parts.len() == 1
            &&& msg.parts[0] == PartView::Text(said)
            &&& said.len() == 0 ==> e.prose == t.prose && e.handed == t.handed && e.told == t.told
            &&& said.len() > 0 ==> e.prose == t.prose.push(said) && e.handed == t.handed.push(said)
            &&& said.len() > 0 ==> e.told == t.told.push(HostCall::Chunk(said))
            &&& s.persistence is None ==> e.log == t.log && e.writes == t.writes
            &&& s.persistence is Some ==> e.writes == t.writes + 1
            &&& s.persistence is Some && s.failing.contains(t.writes) ==> e.log == t.log
            &&& s.persistence is Some && !s.failing.contains(t.writes) ==> e.log == t.log.push(msg)
            &&& e.ran == t.ran && e.asked == t.asked && e.course == t.course
            &&& e.round == t.round && e.chats == t.chats && e.shown == t.shown
        }),
{
    assert(after_reply(s, t, response).told =~= t.told + chunk_told(
        as_chunk(prose_of(response.text)),
    ));
}

/// A turn goes through its script one response after the other, and asks the model once
/// for each: it stops before that where its rounds are used up, with all of its prose;
/// it stops where the model fails or has nothing more to say; it stops where the model
/// replies without calls; and it goes on after a round of tools otherwise.
pub proof fn turns_go_through_their_script(
    s: Setting,
    script: Seq<Result<ChatResponse, String>>,
    t: Trace,
)
    ensures
        ({
            let (end, stop) = rehearsed(s, script, t);
            let spent = s.rules.round_limit is Some && t.round >= s.rules.round_limit.unwrap();
            let tools = !spent && script.len() > 0 && script[0] is Ok
                && script[0]->Ok_0.tool_calls.len() > 0;
            &&& spent ==> end == t && stop is BudgetExhausted && stop->BudgetExhausted_0
                == text::joined(t.prose, "\n\n"@)
            &&& !spent && script.len() == 0 ==> end == after_ask(s, t) && stop is ProviderError
                && stop->ProviderError_0 == "StubProvider script exhausted"@
            &&& !spent && script.len() > 0 && script[0] is Err ==> end == after_ask(s, t) && stop
                is ProviderError && stop->ProviderError_0 == script[0]->Err_0@
            &&& !spent && script.len() > 0 && script[0] is Ok && !tools ==> stop is Replied && end
                == after_reply(s, after_ask(s, t), script[0]->Ok_0)
            &&& tools ==> (end, stop) == rehearsed(
                s,
                script.drop_first(),
                after_tools(s, after_ask(s, t), script[0]->Ok_0),
            )
            &&& tools ==> end.chats.len() > t.chats.len()
        }),
    decreases script.len(),
{
    let spent = s.rules.round_limit is Some && t.round >= s.rules.round_limit.unwrap();
    if !spent && script.len() > 0 && script[0] is Ok && script[0]->Ok_0.tool_calls.len() > 0 {
        lemma_chats_grow(
            s,
            script.drop_first(),
            after_tools(s, after_ask(s, t), script[0]->Ok_0),
        );
    }
}

proof fn lemma_chats_grow(s: Setting, script: Seq<Result<ChatResponse, String>>, t: Trace)
    ensures
        rehearsed(s, script, t).0.chats.len() >= t.chats.len(),
    decreases script.len(),
{
    let spent = s.rules.round_limit is Some && t.round >= s.rules.round_limit.unwrap();
    if !spent && script.len() > 0 && script[0] is Ok && script[0]->Ok_0.tool_calls.len() > 0 {
        lemma_chats_grow(
            s,
            script.drop_first(),
            after_tools(s, after_ask(s, t), script[0]->Ok_0),
        );
    }
}

/// What a host answers is sent in the order in which it was told things, one message
/// for each thing that it answers with one.
pub proof fn answers_are_sent_in_order(answers: Seq<Option<HostMessage>>, i: int)
    ensures
        ({
            let speaks = |a: Option<HostMessage>| a is Some;
            let sent = messages_of(answers);
            let k = count_of(answers.take(i), speaks);
            &&& sent.len() == count_of(answers, speaks)
            &&& 0 <= i < answers.len() && answers[i] is Some ==> k < sent.len() && sent[k as int]
                == answers[i].unwrap()
        }),
    decreases answers.len(),
{
    let speaks = |a: Option<HostMessage>| a is Some;
    if answers.len() > 0 {
        let before = answers.drop_last();
        answers_are_sent_in_order(before, i);
        if 0 <= i < answers.len() && answers[i] is Some {
            if i == answers.len() - 1 {
                assert(answers.take(i) =~= before);
            } else {
                assert(before.take(i) =~= answers.take(i));
            }
        }
    }
}

} // verus!
