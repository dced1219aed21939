//! The frames of an editor's socket: which are read, how a message that was split
//! over several is put together, and what is written.

use vstd::prelude::*;

use crate::outside::{json_reading, read_json};
use crate::text;

verus! {

/// How an error starts that answers no request that anybody made. Answering it in
/// turn would be an answer to an answer, without end.
pub const NULL_ID_ERROR_RESPONSE_PREFIX: &'static str = "{\"jsonrpc\":\"2.0\",\"id\":null,\"error";

/// How many bytes of a message that does not end are held at most.
pub const MAX_REASSEMBLY_BYTES: usize = 67_108_864;

/// A frame that came over a socket, or the failure to read one.
#[derive(Debug, PartialEq, Eq)]
pub enum WireFrame<E> {
    Text(String),
    Binary,
    Ping,
    Pong,
    Close,
    Failed(E),
}

/// What is read of a frame: a text that does not answer nobody, or the failure.
/// Every other frame is passed over.
pub fn accept_frame<E>(frame: WireFrame<E>) -> (r: Option<Result<String, E>>)
    ensures
        r == match frame {
            WireFrame::Text(t) => if NULL_ID_ERROR_RESPONSE_PREFIX@.is_prefix_of(t@) {
                None
            } else {
                Some(Ok::<String, E>(t))
            },
            WireFrame::Failed(e) => Some(Err::<String, E>(e)),
            _ => None,
        },
{
    match frame {
        WireFrame::Text(t) => if text::has_prefix(t.as_str(), NULL_ID_ERROR_RESPONSE_PREFIX) {
            None
        } else {
            Some(Ok(t))
        },
        WireFrame::Failed(e) => Some(Err(e)),
        _ => None,
    }
}

/// What is handed on and what is held of a text, from how it reads: it is held where
/// it ends before its value does, and there is room for more.
pub open spec fn settled(whole: Seq<char>, reading: Result<(), bool>) -> (
    Option<Seq<char>>,
    Seq<char>,
) {
    if reading == Err::<(), bool>(true) && text::byte_len(whole) < MAX_REASSEMBLY_BYTES {
        (None, whole)
    } else {
        (Some(whole), Seq::empty())
    }
}

/// Settles what is handed on and what is held of a text, from how it reads.
pub fn settle(whole: String, reading: Result<(), bool>) -> (r: (Option<String>, String))
    ensures
        (r.0.deep_view(), r.1@) == settled(whole@, reading),
{
    match reading {
        Err(true) if whole.as_str().as_bytes().len() < MAX_REASSEMBLY_BYTES => (None, whole),
        _ => (Some(whole), String::new()),
    }
}

/// Whether a text has to be held back.
pub open spec fn held_back(text: Seq<char>) -> bool {
    settled(text, json_reading(text)).0 is None
}

/// What was read of a frame, as a mathematical value.
pub open spec fn as_read<E>(item: Result<String, E>) -> Result<Seq<char>, E> {
    match item {
        Ok(t) => Ok(t@),
        Err(e) => Err(e),
    }
}

/// What is handed on and what is held after a frame, from what was held before it. A
/// failure is handed on, and what was held is given up.
pub open spec fn taken_up<E>(held: Seq<char>, item: Result<Seq<char>, E>) -> (
    Option<Result<Seq<char>, E>>,
    Seq<char>,
) {
    match item {
        Err(e) => (Some(Err(e)), Seq::empty()),
        Ok(t) => match settled(held + t, json_reading(held + t)) {
            (Some(line), rest) => (Some(Ok(line)), rest),
            (None, rest) => (None, rest),
        },
    }
}

/// Puts messages together that were split over several frames.
pub struct Reassembler {
    pending: String,
}

impl View for Reassembler {
    type V = Seq<char>;

    closed spec fn view(&self) -> Seq<char> {
        self.pending@
    }
}

impl Reassembler {
    /// What holds of every reassembler: what it holds is what has to be held back.
    pub open spec fn wf(self) -> bool {
        self@.len() > 0 ==> held_back(self@)
    }

    /// A reassembler that holds nothing.
    pub fn new() -> (r: Reassembler)
        ensures
            r.wf(),
            r@ == Seq::<char>::empty(),
    {
        Reassembler { pending: String::new() }
    }

    /// Takes up a frame. What is held with the frame at its end is handed on,
    /// unless it has to be held back; a failure is handed on, and what is held is
    /// given up.
    pub fn frame<E>(&mut self, item: Result<String, E>) -> (r: Option<Result<String, E>>)
        requires
            old(self).wf(),
        ensures
            final(self).wf(),
            ({
                let (line, held) = taken_up(old(self)@, as_read(item));
                &&& final(self)@ == held
                &&& match r {
                    Some(l) => line == Some(as_read(l)),
                    None => line is None,
                }
            }),
    {
        let mut whole = String::new();
        std::mem::swap(&mut whole, &mut self.pending);
        match item {
            Err(e) => Some(Err(e)),
            Ok(t) => {
                whole.append(t.as_str());
                let reading = read_json(whole.as_str());
                let (line, held) = settle(whole, reading);
                self.pending = held;
                match line {
                    Some(l) => Some(Ok(l)),
                    None => None,
                }
            },
        }
    }
}

/// What a reassembler hands on of frames, and what it holds after them.
pub open spec fn reassembled<E>(pending: Seq<char>, items: Seq<Result<Seq<char>, E>>) -> (
    Seq<Result<Seq<char>, E>>,
    Seq<char>,
)
    decreases items.len(),
{
    if items.len() == 0 {
        (Seq::empty(), pending)
    } else {
        let (lines, held) = reassembled(pending, items.drop_last());
        match taken_up(held, items.last()) {
            (Some(line), held) => (lines.push(line), held),
            (None, held) => (lines, held),
        }
    }
}

/// The texts that came, one after the other; failures hold none.
pub open spec fn concatenated<E>(items: Seq<Result<Seq<char>, E>>) -> Seq<char>
    decreases items.len(),
{
    if items.len() == 0 {
        Seq::empty()
    } else {
        concatenated(items.drop_last()) + match items.last() {
            Ok(t) => t,
            Err(_) => Seq::empty(),
        }
    }
}

/// Nothing is lost, added or reordered: of frames that were all read, what was
/// handed on, with what is held at its end, is what was held before with the frames
/// at its end. What is held is nothing, or a value that has not ended and is shorter
/// than the limit.
pub proof fn reassembly_keeps_every_character<E>(
    pending: Seq<char>,
    items: Seq<Result<Seq<char>, E>>,
)
    requires
        pending.len() > 0 ==> held_back(pending),
        forall|i: int| 0 <= i < items.len() ==> #[trigger] items[i] is Ok,
    ensures
        ({
            let (lines, held) = reassembled(pending, items);
            &&& concatenated(lines) + held == pending + concatenated(items)
            &&& forall|i: int| 0 <= i < lines.len() ==> #[trigger] lines[i] is Ok
            &&& held.len() == 0 || (json_reading(held) == Err::<(), bool>(true) && text::byte_len(
                held,
            ) < MAX_REASSEMBLY_BYTES)
        }),
    decreases items.len(),
{
    let (lines, held) = reassembled(pending, items);
    if items.len() == 0 {
        assert(concatenated(lines) + held =~= pending + concatenated(items));
    } else {
        let before = items.drop_last();
        assert forall|i: int| 0 <= i < before.len() implies #[trigger] before[i] is Ok by {
            assert(before[i] == items[i]);
        }
        reassembly_keeps_every_character(pending, before);
        let (l, h) = reassembled(pending, before);
        assert(items[items.len() - 1] is Ok);
        let last = items.last()->Ok_0;
        let whole = h + last;
        if !held_back(whole) {
            assert(lines.drop_last() =~= l);
            assert(lines.last() == Ok::<Seq<char>, E>(whole));
        }
        assert(concatenated(lines) + held =~= concatenated(l) + h + last);
        assert(pending + concatenated(items) =~= pending + concatenated(before) + last);
    }
}

/// Frames that need not be held back are handed on as they came, and so are
/// failures; nothing is held after them.
pub proof fn settled_frames_pass_through<E>(items: Seq<Result<Seq<char>, E>>)
    requires
        forall|i: int|
            0 <= i < items.len() ==> (#[trigger] items[i] matches Ok(t) ==> !held_back(t)),
    ensures
        reassembled(Seq::empty(), items) == (items, Seq::<char>::empty()),
    decreases items.len(),
{
    if items.len() == 0 {
        assert(items =~= Seq::empty());
    } else {
        let before = items.drop_last();
        assert forall|i: int| 0 <= i < before.len() implies (#[trigger] before[i] matches Ok(t)
            ==> !held_back(t)) by {
            assert(before[i] == items[i]);
        }
        settled_frames_pass_through(before);
        let last = items.last();
        assert(last == items[items.len() - 1]);
        if last is Ok {
            assert(Seq::<char>::empty() + last->Ok_0 =~= last->Ok_0);
        }
        assert(before.push(last) =~= items);
    }
}

/// A peer whose every frame is a whole message is not touched, wherever reading
/// fails between them: its frames are handed on as they came.
pub proof fn whole_frames_pass_through<E>(items: Seq<Result<Seq<char>, E>>)
    requires
        forall|i: int|
            0 <= i < items.len() ==> (#[trigger] items[i] matches Ok(t) ==> json_reading(t) is Ok),
    ensures
        reassembled(Seq::empty(), items) == (items, Seq::<char>::empty()),
{
    settled_frames_pass_through(items);
}

proof fn lemma_lines_are_settled<E>(pending: Seq<char>, items: Seq<Result<Seq<char>, E>>)
    ensures
        forall|i: int|
            0 <= i < reassembled(pending, items).0.len() ==> (#[trigger] reassembled(
                pending,
                items,
            ).0[i] matches Ok(t) ==> !held_back(t)),
    decreases items.len(),
{
    if items.len() > 0 {
        let before = items.drop_last();
        lemma_lines_are_settled(pending, before);
        let (l, h) = reassembled(pending, before);
        let lines = reassembled(pending, items).0;
        assert forall|i: int| 0 <= i < lines.len() implies (#[trigger] lines[i] matches Ok(t)
            ==> !held_back(t)) by {
            if i < l.len() {
                assert(lines[i] == l[i]);
            }
        }
    }
}

/// Putting together what was put together changes nothing, whatever came and
/// whatever failed.
pub proof fn reassembly_is_idempotent<E>(pending: Seq<char>, items: Seq<Result<Seq<char>, E>>)
    ensures
        ({
            let lines = reassembled(pending, items).0;
            reassembled(Seq::empty(), lines) == (lines, Seq::<char>::empty())
        }),
{
    lemma_lines_are_settled(pending, items);
    settled_frames_pass_through(reassembled(pending, items).0);
}

/// However long a peer goes on without ending its value, no more than the limit is
/// held.
pub proof fn holding_is_bounded(reassembler: Reassembler)
    requires
        reassembler.wf(),
    ensures
        text::byte_len(reassembler@) < MAX_REASSEMBLY_BYTES,
{
    if reassembler@.len() == 0 {
        assert(reassembler@ =~= Seq::empty());
        reveal_with_fuel(vstd::utf8::encode_utf8, 2);
    }
}

/// What the writer of a socket waits for.
#[derive(Debug, PartialEq, Eq)]
pub enum WriterEvent {
    /// A message to the editor.
    Line(String),
    /// No more messages will come.
    Finished,
    /// Nothing was said for as long as the keepalive allows.
    Quiet,
}

/// What the writer of a socket does.
#[derive(Debug, PartialEq, Eq)]
pub enum WriterAction {
    Text(String),
    Ping,
    Close,
}

/// What the writer of a socket does next: it forwards messages, pings when it was
/// quiet for long, and closes the socket when no more messages will come.
pub fn write_frames(event: WriterEvent) -> (r: WriterAction)
    ensures
        r == match event {
            WriterEvent::Line(line) => WriterAction::Text(line),
            WriterEvent::Finished => WriterAction::Close,
            WriterEvent::Quiet => WriterAction::Ping,
        },
{
    match event {
        WriterEvent::Line(line) => WriterAction::Text(line),
        WriterEvent::Finished => WriterAction::Close,
        WriterEvent::Quiet => WriterAction::Ping,
    }
}

/// How many seconds pass between two pings; zero stands for no pings at all.
pub fn keepalive_period(secs: u64) -> (r: Option<u64>)
    ensures
        r == if secs > 0 {
            Some(secs)
        } else {
            None
        },
{
    if secs > 0 {
        Some(secs)
    } else {
        None
    }
}

/// A text is read whole, unless it starts as an error does that answers nobody. A
/// failure is handed on as it is, and no other frame is read.
pub proof fn frames_are_read_whole<E>(
    frame: WireFrame<E>,
    r: Option<Result<String, E>>,
    rest: Seq<char>,
)
    requires
        call_ensures(accept_frame::<E>, (frame,), r),
    ensures
        frame is Text && frame->Text_0@ == "{\"jsonrpc\":\"2.0\",\"id\":null,\"error"@ + rest
            ==> r is None,
        frame is Text && r is None ==> frame->Text_0@.len()
            >= "{\"jsonrpc\":\"2.0\",\"id\":null,\"error"@.len() && frame->Text_0@.take(
            "{\"jsonrpc\":\"2.0\",\"id\":null,\"error"@.len() as int,
        ) == "{\"jsonrpc\":\"2.0\",\"id\":null,\"error"@,
        frame is Text && r is Some ==> r.unwrap() is Ok && r.unwrap()->Ok_0@ == frame->Text_0@,
        frame is Failed ==> r is Some && r.unwrap() is Err && r.unwrap()->Err_0
            == frame->Failed_0,
        frame is Binary || frame is Ping || frame is Pong || frame is Close ==> r is None,
{
    let prefix = "{\"jsonrpc\":\"2.0\",\"id\":null,\"error"@;
    assert(NULL_ID_ERROR_RESPONSE_PREFIX@ == prefix);
    if frame is Text && frame->Text_0@ == prefix + rest {
        assert(prefix.is_prefix_of(frame->Text_0@));
    }
    if frame is Text && r is None {
        assert(frame->Text_0@.take(prefix.len() as int) =~= prefix);
    }
}

/// A text is held whole where its value has not ended and it is below the limit of
/// sixty-four mebibytes; every other is handed on whole, and then nothing is held.
pub proof fn texts_are_held_or_handed_on_whole(
    whole: String,
    reading: Result<(), bool>,
    r: (Option<String>, String),
)
    requires
        call_ensures(settle, (whole, reading), r),
    ensures
        r.0 is None <==> reading == Err::<(), bool>(true) && vstd::utf8::encode_utf8(
            whole@,
        ).len() < 64 * 1024 * 1024,
        r.0 is None ==> r.1@ == whole@,
        r.0 is Some ==> r.0.unwrap()@ == whole@ && r.1@.len() == 0,
{
    if r.0 is Some {
        assert(r.0.deep_view() == Some(r.0.unwrap()@));
    } else {
        assert(r.0.deep_view() is None);
    }
}

/// A frame joins what is held at its end, and what comes of both is handed on or held
/// whole, from how it reads. A failure is handed on as it is, and nothing is held.
pub proof fn frames_join_what_is_held<E>(
    before: Reassembler,
    after: Reassembler,
    item: Result<String, E>,
    r: Option<Result<String, E>>,
)
    requires
        exists|a: &mut Reassembler|
            *a == before && *final(a) == after && #[trigger] call_ensures(
                Reassembler::frame::<E>,
                (a, item),
                r,
            ),
    ensures
        item is Err ==> r is Some && r.unwrap() == Err::<String, E>(item->Err_0) && after@.len()
            == 0,
        item is Ok ==> {
            let whole = before@ + item->Ok_0@;
            &&& r is None <==> json_reading(whole) == Err::<(), bool>(true)
                && vstd::utf8::encode_utf8(whole).len() < 64 * 1024 * 1024
            &&& r is None ==> after@ == whole
            &&& r is Some ==> r.unwrap() is Ok && r.unwrap()->Ok_0@ == whole && after@.len() == 0
        },
{
}

/// A message is written as it is, a quiet socket is pinged, and one that is done is
/// closed. Pings come as often as is configured, and not at all where that is zero.
pub proof fn messages_are_written_as_they_are(
    line: String,
    a: WriterAction,
    b: WriterAction,
    c: WriterAction,
    secs: u64,
    period: Option<u64>,
)
    requires
        call_ensures(write_frames, (WriterEvent::Line(line),), a),
        call_ensures(write_frames, (WriterEvent::Quiet,), b),
        call_ensures(write_frames, (WriterEvent::Finished,), c),
        call_ensures(keepalive_period, (secs,), period),
    ensures
        a is Text && a->Text_0@ == line@,
        b is Ping,
        c is Close,
        period is None <==> secs == 0,
        period is Some ==> period.unwrap() == secs,
{
}

/// A reassembler starts with nothing held.
pub proof fn reassemblers_start_empty(r: Reassembler)
    requires
        call_ensures(Reassembler::new, (), r),
    ensures
        r@.len() == 0,
{
}

} // verus!
