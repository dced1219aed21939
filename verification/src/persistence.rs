//! Where a turn's messages are written.

use vstd::prelude::*;

use crate::message::{ChatMessage, MessageView};

verus! {

/// The stores that keep sessions.
#[derive(Clone, Copy, Debug, PartialEq, Eq, Structural)]
pub enum StoreKind {
    /// Sessions that an editor opened.
    Acp,
    /// Sessions that run on their own.
    Autonomous,
    /// The one session that stands for a device.
    DeviceDefault,
    /// Every other session.
    CrossDevice,
}

/// What is written to a session.
#[derive(Debug, PartialEq)]
pub enum Record {
    Message(ChatMessage),
    /// A summary that stands for all but the `keep_recent` latest messages.
    Summary { text: String, keep_recent: usize },
    /// What the session is called from now on.
    Title(String),
}

/// The mathematical value of a [`Record`].
pub enum RecordView {
    Message(MessageView),
    Summary { text: Seq<char>, keep_recent: nat },
    Title(Seq<char>),
}

impl View for Record {
    type V = RecordView;

    open spec fn view(&self) -> RecordView {
        match self {
            Record::Message(m) => RecordView::Message(m@),
            Record::Summary { text, keep_recent } => RecordView::Summary {
                text: text@,
                keep_recent: *keep_recent as nat,
            },
            Record::Title(title) => RecordView::Title(title@),
        }
    }
}

/// One write to one session of one store.
#[derive(Debug, PartialEq)]
pub struct Append {
    pub store: StoreKind,
    pub session_id: String,
    pub record: Record,
}

/// The mathematical value of an [`Append`].
pub struct AppendView {
    pub store: StoreKind,
    pub session_id: Seq<char>,
    pub record: RecordView,
}

impl View for Append {
    type V = AppendView;

    open spec fn view(&self) -> AppendView {
        AppendView { store: self.store, session_id: self.session_id@, record: self.record@ }
    }
}

impl DeepView for Append {
    type V = AppendView;

    open spec fn deep_view(&self) -> AppendView {
        self@
    }
}

impl Append {
    /// Whether a message that has to be paired with this one may be written too:
    /// only where this one was.
    pub fn landed<E>(&self, outcome: &Result<(), E>) -> (r: bool)
        ensures
            r == (outcome is Ok),
    {
        outcome.is_ok()
    }
}

/// The session that a turn writes to. A turn without a session has none of these.
#[derive(Debug, PartialEq)]
pub struct TurnPersistence {
    /// The store that keeps the session where it is not an editor's.
    pub store: StoreKind,
    pub session_id: String,
    pub is_acp: bool,
}

impl TurnPersistence {
    /// The store that the session's records go to.
    pub open spec fn target(self) -> StoreKind {
        if self.is_acp {
            StoreKind::Acp
        } else {
            self.store
        }
    }

    /// The write of a record.
    pub open spec fn write(self, record: RecordView) -> AppendView {
        AppendView { store: self.target(), session_id: self.session_id@, record }
    }

    fn append(&self, record: Record) -> (r: Append)
        ensures
            r@ == self.write(record@),
    {
        let store = if self.is_acp {
            StoreKind::Acp
        } else {
            self.store
        };
        Append { store, session_id: self.session_id.clone(), record }
    }

    /// The write of a message that pairs with no other, such as the last of a turn.
    /// Nothing depends on whether it lands.
    pub fn append_message(&self, msg: &ChatMessage) -> (r: Append)
        ensures
            r@ == self.write(RecordView::Message(msg@)),
    {
        self.append(Record::Message(msg.copy()))
    }

    /// The write of one half of a tool call. The other half may be written only
    /// where this one [`Append::landed`].
    pub fn append_message_paired(&self, msg: &ChatMessage) -> (r: Append)
        ensures
            r@ == self.write(RecordView::Message(msg@)),
    {
        self.append(Record::Message(msg.copy()))
    }

    /// The write of a summary, from which a reload starts.
    pub fn append_summary(&self, summary: &str, keep_recent: usize) -> (r: Append)
        ensures
            r@ == self.write(
                (RecordView::Summary { text: summary@, keep_recent: keep_recent as nat }),
            ),
    {
        self.append(Record::Summary { text: summary.to_owned(), keep_recent })
    }

    /// The write of the session's title.
    pub fn set_title(&self, title: &str) -> (r: Append)
        ensures
            r@ == self.write(RecordView::Title(title@)),
    {
        self.append(Record::Title(title.to_owned()))
    }
}

/// A message goes to the session of the turn as it is, whether it pairs with another
/// or not: to the editors' store where the session is an editor's, and to the store
/// that keeps the session otherwise.
pub proof fn messages_are_written_whole(
    p: TurnPersistence,
    msg: ChatMessage,
    alone: Append,
    paired: Append,
)
    requires
        call_ensures(TurnPersistence::append_message, (&p, &msg), alone),
        call_ensures(TurnPersistence::append_message_paired, (&p, &msg), paired),
    ensures
        alone.record is Message && alone.record->Message_0@ == msg@,
        paired.record is Message && paired.record->Message_0@ == msg@,
        alone.session_id@ == p.session_id@ && paired.session_id@ == p.session_id@,
        p.is_acp ==> alone.store == StoreKind::Acp && paired.store == StoreKind::Acp,
        !p.is_acp ==> alone.store == p.store && paired.store == p.store,
{
}

/// A summary and a title go to the session of the turn with every character, and the
/// summary with the number of messages that it leaves.
pub proof fn summaries_and_titles_are_written_whole(
    p: TurnPersistence,
    text: &str,
    keep_recent: usize,
    summary: Append,
    title: Append,
)
    requires
        call_ensures(TurnPersistence::append_summary, (&p, text, keep_recent), summary),
        call_ensures(TurnPersistence::set_title, (&p, text), title),
    ensures
        summary.record is Summary && summary.record->Summary_text@ == text@,
        summary.record->Summary_keep_recent == keep_recent,
        title.record is Title && title.record->Title_0@ == text@,
        summary.session_id@ == p.session_id@ && title.session_id@ == p.session_id@,
        p.is_acp ==> summary.store == StoreKind::Acp && title.store == StoreKind::Acp,
        !p.is_acp ==> summary.store == p.store && title.store == p.store,
{
}

/// A write landed exactly where it did not fail.
pub proof fn writes_land_unless_they_fail<E>(a: Append, outcome: Result<(), E>, r: bool)
    requires
        call_ensures(Append::landed, (&a, &outcome), r),
    ensures
        r <==> outcome is Ok,
{
}

} // verus!
