//! How much of its sessions the server holds in memory.

use vstd::prelude::*;

use crate::count::sum_of;
use crate::message::{ChatMessage, ContentPart, MessageView, PartView};
use crate::state::ServeState;
use crate::text;

verus! {

/// What the sessions in memory amount to.
#[derive(Debug, PartialEq, Eq)]
pub struct SessionResidency {
    pub sessions: usize,
    pub messages: usize,
    pub text_bytes: usize,
    pub tool_result_bytes: usize,
    /// The session that holds the most, and how many bytes that is.
    pub largest: Option<(String, usize)>,
}

/// The sum of what `f` gives for each item.
pub open spec fn total<A>(items: Seq<A>, f: spec_fn(A) -> nat) -> nat
    decreases items.len(),
{
    if items.len() == 0 {
        0
    } else {
        total(items.drop_last(), f) + f(items.last())
    }
}

proof fn lemma_total_prefix<A>(items: Seq<A>, f: spec_fn(A) -> nat, i: int)
    requires
        0 <= i < items.len(),
    ensures
        total(items.take(i + 1), f) == total(items.take(i), f) + f(items[i]),
        total(items.take(i + 1), f) <= total(items, f),
    decreases items.len(),
{
    assert(items.take(i + 1).drop_last() =~= items.take(i));
    if i + 1 == items.len() {
        assert(items.take(i + 1) =~= items);
    } else {
        lemma_total_prefix(items.drop_last(), f, i);
        assert(items.drop_last().take(i + 1) =~= items.take(i + 1));
    }
}

proof fn lemma_total_holds_each<A>(items: Seq<A>, f: spec_fn(A) -> nat, i: int)
    requires
        0 <= i < items.len(),
    ensures
        f(items[i]) <= total(items, f),
{
    lemma_total_prefix(items, f, i);
}

/// The bytes of prose in a part.
pub open spec fn part_text(part: PartView) -> nat {
    match part {
        PartView::Text(t) => text::byte_len(t),
        _ => 0,
    }
}

/// The bytes of tool output in a part.
pub open spec fn part_result(part: PartView) -> nat {
    match part {
        PartView::ToolResult { content, .. } => text::byte_len(content),
        _ => 0,
    }
}

/// The bytes of prose in a conversation.
pub open spec fn history_text(history: Seq<MessageView>) -> nat {
    total(history, |m: MessageView| total(m.parts, |p: PartView| part_text(p)))
}

/// The bytes of tool output in a conversation.
pub open spec fn history_result(history: Seq<MessageView>) -> nat {
    total(history, |m: MessageView| total(m.parts, |p: PartView| part_result(p)))
}

/// The bytes of a conversation that count.
pub open spec fn history_bytes(history: Seq<MessageView>) -> nat {
    history_text(history) + history_result(history)
}

impl ServeState {
    /// The conversation of a session.
    pub open spec fn history(self, session_id: Seq<char>) -> Seq<MessageView> {
        self.sessions@[session_id].deep_view()
    }

    /// The messages in memory.
    pub open spec fn all_messages(self) -> nat {
        total(self.sessions.keys(), |k: Seq<char>| self.history(k).len())
    }

    /// The bytes of prose in memory.
    pub open spec fn all_text(self) -> nat {
        total(self.sessions.keys(), |k: Seq<char>| history_text(self.history(k)))
    }

    /// The bytes of tool output in memory.
    pub open spec fn all_results(self) -> nat {
        total(self.sessions.keys(), |k: Seq<char>| history_result(self.history(k)))
    }
}

/// No session weighs more than all of them together.
pub proof fn no_session_outweighs_the_total(state: ServeState, session_id: Seq<char>)
    requires
        state.wf(),
        state.sessions@.contains_key(session_id),
    ensures
        history_bytes(state.history(session_id)) <= state.all_text() + state.all_results(),
{
    state.sessions.lemma_keys();
    let keys = state.sessions.keys();
    assert(keys.contains(session_id));
    let i = choose|i: int| 0 <= i < keys.len() && keys[i] == session_id;
    lemma_total_holds_each(keys, |k: Seq<char>| history_text(state.history(k)), i);
    lemma_total_holds_each(keys, |k: Seq<char>| history_result(state.history(k)), i);
}

fn weigh_parts(parts: &Vec<ContentPart>) -> (r: Option<(usize, usize)>)
    ensures
        ({
            let prose = total(parts.deep_view(), |p: PartView| part_text(p));
            let output = total(parts.deep_view(), |p: PartView| part_result(p));
            match r {
                Some((p, o)) => p == prose && o == output && prose + output <= usize::MAX,
                None => prose + output > usize::MAX,
            }
        }),
{
    let ghost all = parts.deep_view();
    let ghost f = |p: PartView| part_text(p);
    let ghost g = |p: PartView| part_result(p);
    let mut prose: usize = 0;
    let mut output: usize = 0;
    let mut i: usize = 0;
    while i < parts.len()
        invariant
            i <= parts.len(),
            all == parts.deep_view(),
            f == (|p: PartView| part_text(p)),
            g == (|p: PartView| part_result(p)),
            prose + output <= usize::MAX,
            prose == total(all.take(i as int), f),
            output == total(all.take(i as int), g),
        decreases parts.len() - i,
    {
        proof {
            lemma_total_prefix(all, f, i as int);
            lemma_total_prefix(all, g, i as int);
            assert(all[i as int] == parts@[i as int]@);
        }
        let room: usize = usize::MAX - (prose + output);
        match &parts[i] {
            ContentPart::Text(t) => {
                let len: usize = t.as_str().as_bytes().len();
                if len > room {
                    return None;
                }
                prose += len;
            },
            ContentPart::ToolResult { content, .. } => {
                let len: usize = content.as_str().as_bytes().len();
                if len > room {
                    return None;
                }
                output += len;
            },
            _ => {},
        }
        i += 1;
    }
    assert(all.take(i as int) =~= all);
    Some((prose, output))
}

fn weigh_history(history: &Vec<ChatMessage>) -> (r: Option<(usize, usize)>)
    ensures
        match r {
            Some((p, o)) => {
                &&& p == history_text(history.deep_view())
                &&& o == history_result(history.deep_view())
                &&& p + o <= usize::MAX
            },
            None => history_bytes(history.deep_view()) > usize::MAX,
        },
{
    let ghost all = history.deep_view();
    let ghost f = |m: MessageView| total(m.parts, |p: PartView| part_text(p));
    let ghost g = |m: MessageView| total(m.parts, |p: PartView| part_result(p));
    let mut prose: usize = 0;
    let mut output: usize = 0;
    let mut i: usize = 0;
    while i < history.len()
        invariant
            i <= history.len(),
            all == history.deep_view(),
            f == (|m: MessageView| total(m.parts, |p: PartView| part_text(p))),
            g == (|m: MessageView| total(m.parts, |p: PartView| part_result(p))),
            prose + output <= usize::MAX,
            prose == total(all.take(i as int), f),
            output == total(all.take(i as int), g),
        decreases history.len() - i,
    {
        proof {
            lemma_total_prefix(all, f, i as int);
            lemma_total_prefix(all, g, i as int);
            assert(all[i as int] == history@[i as int]@);
        }
        let (p, o) = match weigh_parts(&history[i].parts) {
            Some(weight) => weight,
            None => {
                return None;
            },
        };
        if p + o > usize::MAX - (prose + output) {
            return None;
        }
        prose += p;
        output += o;
        i += 1;
    }
    assert(all.take(i as int) =~= all);
    Some((prose, output))
}

impl ServeState {
    /// Whether what the sessions in memory amount to can be told in numbers.
    pub open spec fn can_be_weighed(self) -> bool {
        &&& self.all_messages() <= usize::MAX
        &&& self.all_text() + self.all_results() <= usize::MAX
    }

    /// Whether this is what the sessions in memory amount to.
    pub open spec fn amounts_to(self, r: SessionResidency) -> bool {
        &&& r.sessions == self.sessions.keys().len()
        &&& r.messages == self.all_messages()
        &&& r.text_bytes == self.all_text()
        &&& r.tool_result_bytes == self.all_results()
        &&& match r.largest {
            Some((id, bytes)) => {
                &&& self.sessions@.contains_key(id@)
                &&& bytes == history_bytes(self.history(id@))
                &&& forall|k: Seq<char>| #[trigger]
                    self.sessions@.contains_key(k) ==> history_bytes(self.history(k)) <= bytes
            },
            None => self.sessions.keys().len() == 0,
        }
    }

    /// What the sessions in memory amount to, where numbers go that far. Prose and
    /// tool output count; what tools are called with and pictures do not.
    pub fn try_session_residency(&self) -> (r: Option<SessionResidency>)
        requires
            self.wf(),
        ensures
            match r {
                Some(residency) => self.can_be_weighed() && self.amounts_to(residency),
                None => !self.can_be_weighed(),
            },
    {
        let ghost keys = self.sessions.keys();
        let ghost f = |k: Seq<char>| history_text(self.history(k));
        let ghost g = |k: Seq<char>| history_result(self.history(k));
        let ghost h = |k: Seq<char>| self.history(k).len();
        let n: usize = self.sessions.len();
        let mut messages: usize = 0;
        let mut text_bytes: usize = 0;
        let mut tool_result_bytes: usize = 0;
        let mut largest: Option<(String, usize)> = None;
        let mut i: usize = 0;
        while i < n
            invariant
                self.wf(),
                i <= n,
                n == keys.len(),
                keys == self.sessions.keys(),
                f == (|k: Seq<char>| history_text(self.history(k))),
                g == (|k: Seq<char>| history_result(self.history(k))),
                h == (|k: Seq<char>| self.history(k).len()),
                messages == total(keys.take(i as int), h),
                text_bytes == total(keys.take(i as int), f),
                tool_result_bytes == total(keys.take(i as int), g),
                text_bytes + tool_result_bytes <= usize::MAX,
                match largest {
                    Some((id, bytes)) => {
                        &&& self.sessions@.contains_key(id@)
                        &&& bytes == history_bytes(self.history(id@))
                        &&& forall|k: int|
                            0 <= k < i ==> history_bytes(self.history(#[trigger] keys[k])) <= bytes
                    },
                    None => i == 0,
                },
            decreases n - i,
        {
            proof {
                lemma_total_prefix(keys, f, i as int);
                lemma_total_prefix(keys, g, i as int);
                lemma_total_prefix(keys, h, i as int);
            }
            let history = self.sessions.value(i);
            if history.len() > usize::MAX - messages {
                return None;
            }
            messages += history.len();
            let (prose, output) = match weigh_history(history) {
                Some(weight) => weight,
                None => {
                    return None;
                },
            };
            let this_session: usize = prose + output;
            if this_session > usize::MAX - (text_bytes + tool_result_bytes) {
                return None;
            }
            text_bytes += prose;
            tool_result_bytes += output;
            let larger = match &largest {
                Some((_, bytes)) => this_session > *bytes,
                None => true,
            };
            if larger {
                largest = Some((self.sessions.key(i).clone(), this_session));
            }
            i += 1;
        }
        proof {
            assert(keys.take(i as int) =~= keys);
            self.sessions.lemma_keys();
            if largest is Some {
                let bytes = largest.unwrap().1;
                assert forall|k: Seq<char>| #[trigger]
                    self.sessions@.contains_key(k) implies history_bytes(self.history(k))
                    <= bytes by {
                    assert(keys.contains(k));
                    let j = choose|j: int| 0 <= j < keys.len() && keys[j] == k;
                    assert(history_bytes(self.history(keys[j])) <= bytes);
                }
            }
        }
        Some(SessionResidency { sessions: n, messages, text_bytes, tool_result_bytes, largest })
    }

    /// What the sessions in memory amount to. Prose and tool output count; what
    /// tools are called with and pictures do not.
    pub fn session_residency(&self) -> (r: SessionResidency)
        requires
            self.wf(),
            self.can_be_weighed(),
        ensures
            self.amounts_to(r),
    {
        match self.try_session_residency() {
            Some(r) => r,
            None => vstd::pervasive::unreached(),
        }
    }
}

/// The bytes of a part's text; other parts have none.
pub open spec fn prose_bytes(part: ContentPart) -> nat {
    match part {
        ContentPart::Text(t) => vstd::utf8::encode_utf8(t@).len(),
        _ => 0,
    }
}

/// The bytes of what a part answers a call with; other parts have none.
pub open spec fn output_bytes(part: ContentPart) -> nat {
    match part {
        ContentPart::ToolResult { content, .. } => vstd::utf8::encode_utf8(content@).len(),
        _ => 0,
    }
}

/// What the parts of a conversation come to.
pub open spec fn weight_of(history: Seq<ChatMessage>, weigh: spec_fn(ContentPart) -> nat) -> nat {
    sum_of(history, |m: ChatMessage| sum_of(m.parts@, weigh))
}

proof fn lemma_parts_weigh(parts: Vec<ContentPart>, n: int)
    requires
        0 <= n <= parts.len(),
    ensures
        total(parts.deep_view().take(n), |p: PartView| part_text(p)) == sum_of(
            parts@.take(n),
            |p: ContentPart| prose_bytes(p),
        ),
        total(parts.deep_view().take(n), |p: PartView| part_result(p)) == sum_of(
            parts@.take(n),
            |p: ContentPart| output_bytes(p),
        ),
    decreases n,
{
    if n > 0 {
        lemma_parts_weigh(parts, n - 1);
        assert(parts.deep_view().take(n).drop_last() =~= parts.deep_view().take(n - 1));
        assert(parts@.take(n).drop_last() =~= parts@.take(n - 1));
        assert(parts.deep_view().take(n).last() == parts@[n - 1]@);
        assert(parts@.take(n).last() == parts@[n - 1]);
    }
}

proof fn lemma_history_weighs(history: Vec<ChatMessage>, n: int)
    requires
        0 <= n <= history.len(),
    ensures
        history_text(history.deep_view().take(n)) == weight_of(
            history@.take(n),
            |p: ContentPart| prose_bytes(p),
        ),
        history_result(history.deep_view().take(n)) == weight_of(
            history@.take(n),
            |p: ContentPart| output_bytes(p),
        ),
    decreases n,
{
    if n > 0 {
        lemma_history_weighs(history, n - 1);
        let parts = history@[n - 1].parts;
        lemma_parts_weigh(parts, parts.len() as int);
        assert(parts.deep_view().take(parts.len() as int) =~= parts.deep_view());
        assert(parts@.take(parts.len() as int) =~= parts@);
        assert(history.deep_view().take(n).drop_last() =~= history.deep_view().take(n - 1));
        assert(history@.take(n).drop_last() =~= history@.take(n - 1));
        assert(history.deep_view().take(n).last() == history@[n - 1]@);
        assert(history@.take(n).last() == history@[n - 1]);
    }
}

proof fn lemma_conversation_weighs(history: Vec<ChatMessage>)
    ensures
        history_text(history.deep_view()) == weight_of(
            history@,
            |p: ContentPart| prose_bytes(p),
        ),
        history_result(history.deep_view()) == weight_of(
            history@,
            |p: ContentPart| output_bytes(p),
        ),
        history.deep_view().len() == history.len(),
{
    lemma_history_weighs(history, history.len() as int);
    assert(history.deep_view().take(history.len() as int) =~= history.deep_view());
    assert(history@.take(history.len() as int) =~= history@);
}

proof fn lemma_sessions_weigh(state: ServeState, keys: Seq<Seq<char>>)
    ensures
        total(keys, |k: Seq<char>| history_text(state.history(k))) == sum_of(
            keys,
            |k: Seq<char>| weight_of(state.sessions@[k]@, |p: ContentPart| prose_bytes(p)),
        ),
        total(keys, |k: Seq<char>| history_result(state.history(k))) == sum_of(
            keys,
            |k: Seq<char>| weight_of(state.sessions@[k]@, |p: ContentPart| output_bytes(p)),
        ),
        total(keys, |k: Seq<char>| state.history(k).len()) == sum_of(
            keys,
            |k: Seq<char>| state.sessions@[k]@.len(),
        ),
    decreases keys.len(),
{
    if keys.len() > 0 {
        lemma_sessions_weigh(state, keys.drop_last());
        lemma_conversation_weighs(state.sessions@[keys.last()]);
    }
}

/// What is told of the sessions in memory is what adding them up gives: each session
/// once, each of its messages, the bytes of its texts, and the bytes of what its calls
/// were answered with. Nothing else counts. The largest session is one of them, with
/// all of its bytes, and none has more; there is one unless there is no session.
pub proof fn sessions_add_up(state: ServeState, r: SessionResidency, other: Seq<char>)
    requires
        state.wf(),
        call_ensures(ServeState::session_residency, (&state,), r),
    ensures
        ({
            let keys = state.sessions.keys();
            let prose = |p: ContentPart| prose_bytes(p);
            let output = |p: ContentPart| output_bytes(p);
            &&& keys.no_duplicates()
            &&& keys.contains(other) <==> state.sessions@.contains_key(other)
            &&& r.sessions == keys.len()
            &&& r.messages == sum_of(keys, |k: Seq<char>| state.sessions@[k]@.len())
            &&& r.text_bytes == sum_of(
                keys,
                |k: Seq<char>|
                    weight_of(state.sessions@[k]@, |p: ContentPart| prose_bytes(p)),
            )
            &&& r.tool_result_bytes == sum_of(
                keys,
                |k: Seq<char>|
                    weight_of(state.sessions@[k]@, |p: ContentPart| output_bytes(p)),
            )
            &&& r.largest is None <==> keys.len() == 0
            &&& r.largest is Some ==> {
                let (id, bytes) = r.largest.unwrap();
                &&& state.sessions@.contains_key(id@)
                &&& bytes == weight_of(state.sessions@[id@]@, prose) + weight_of(
                    state.sessions@[id@]@,
                    output,
                )
                &&& state.sessions@.contains_key(other) ==> weight_of(
                    state.sessions@[other]@,
                    prose,
                ) + weight_of(state.sessions@[other]@, output) <= bytes
            }
        }),
{
    let keys = state.sessions.keys();
    state.sessions.lemma_keys();
    lemma_sessions_weigh(state, keys);
    lemma_conversation_weighs(state.sessions@[other]);
    if r.largest is Some {
        let (id, bytes) = r.largest.unwrap();
        lemma_conversation_weighs(state.sessions@[id@]);
        if state.sessions@.contains_key(other) {
            assert(history_bytes(state.history(other)) <= bytes);
        }
        if keys.len() == 0 {
            assert(keys.contains(id@));
        }
    }
    assert(keys.contains(other) == state.sessions@.contains_key(other));
}

/// The sessions in memory are weighed exactly where what they come to can be told in
/// numbers, and then as [`ServeState::session_residency`] does.
pub proof fn sessions_are_weighed_where_numbers_reach(
    state: ServeState,
    r: Option<SessionResidency>,
    sure: SessionResidency,
)
    requires
        state.wf(),
        call_ensures(ServeState::try_session_residency, (&state,), r),
        call_ensures(ServeState::session_residency, (&state,), sure),
    ensures
        ({
            let keys = state.sessions.keys();
            &&& r is Some <==> sum_of(keys, |k: Seq<char>| state.sessions@[k]@.len())
                <= usize::MAX && sum_of(
                keys,
                |k: Seq<char>|
                    weight_of(state.sessions@[k]@, |p: ContentPart| prose_bytes(p)),
            ) + sum_of(
                keys,
                |k: Seq<char>|
                    weight_of(state.sessions@[k]@, |p: ContentPart| output_bytes(p)),
            ) <= usize::MAX
            &&& r is Some ==> r.unwrap().sessions == sure.sessions && r.unwrap().messages
                == sure.messages && r.unwrap().text_bytes == sure.text_bytes
                && r.unwrap().tool_result_bytes == sure.tool_result_bytes
        }),
{
    lemma_sessions_weigh(state, state.sessions.keys());
}

} // verus!
