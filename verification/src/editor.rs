//! What an editor says of itself, and what it is shown.

use vstd::prelude::*;

use crate::count::{count_of, lemma_count_before};
use crate::json::{Json, JsonView};
use crate::message::{ChatMessage, ContentPart, MessageView, PartView, Role};
use crate::policy::{mode_id, SessionMode};
use crate::text;

verus! {

/// What an editor said that it can do.
#[derive(Clone, Copy, Debug, PartialEq, Eq, Structural)]
pub struct ClientCapabilities {
    pub read_text_file: bool,
    pub write_text_file: bool,
    pub terminal: bool,
}

impl ClientCapabilities {
    /// What is taken of an editor that said nothing: it can do nothing.
    pub fn none() -> (r: ClientCapabilities)
        ensures
            r == (ClientCapabilities {
                read_text_file: false,
                write_text_file: false,
                terminal: false,
            }),
    {
        ClientCapabilities { read_text_file: false, write_text_file: false, terminal: false }
    }
}

/// Whether an editor reads files, and whether it writes them. It may do either
/// without the other.
pub fn fs_caps_from(caps: &ClientCapabilities) -> (r: (bool, bool))
    ensures
        r == (caps.read_text_file, caps.write_text_file),
{
    (caps.read_text_file, caps.write_text_file)
}

/// Whether an editor runs terminals.
pub fn terminal_cap_from(caps: &ClientCapabilities) -> (r: bool)
    ensures
        r == caps.terminal,
{
    caps.terminal
}

/// The word for a flag.
pub open spec fn flag_word(flag: bool) -> Seq<char> {
    if flag {
        "true"@
    } else {
        "false"@
    }
}

fn word(flag: bool) -> (r: &'static str)
    ensures
        r@ == flag_word(flag),
{
    if flag {
        "true"
    } else {
        "false"
    }
}

/// What is written down of an editor's capabilities.
pub fn describe_capabilities(caps: &ClientCapabilities) -> (r: String)
    ensures
        r@ == "fs.read="@ + flag_word(caps.read_text_file) + " fs.write="@ + flag_word(
            caps.write_text_file,
        ) + " terminal="@ + flag_word(caps.terminal),
{
    let (read, write) = fs_caps_from(caps);
    "fs.read=".to_owned().concat(word(read)).concat(" fs.write=").concat(word(write)).concat(
        " terminal=",
    ).concat(word(terminal_cap_from(caps)))
}

/// Who an editor says that it is.
#[derive(Debug, PartialEq, Eq)]
pub struct Implementation {
    pub name: String,
    /// The name for humans, where the editor gives one.
    pub title: Option<String>,
    pub version: String,
}

/// What is written down of who an editor is: its name for humans, or else its
/// name, and its version. An editor need not say who it is.
pub fn describe_client(info: Option<&Implementation>) -> (r: String)
    ensures
        r@ == match info {
            Some(i) => (match i.title {
                Some(t) => t@,
                None => i.name@,
            }) + " "@ + i.version@,
            None => "an unidentified client"@,
        },
{
    match info {
        Some(i) => {
            let name = match &i.title {
                Some(t) => t.clone(),
                None => i.name.clone(),
            };
            name.concat(" ").concat(i.version.as_str())
        },
        None => "an unidentified client".to_owned(),
    }
}

/// Where a terminal starts: where the model asks for, or else where the session is.
/// Both are paths on the editor's machine and are taken as they are.
pub fn effective_cwd(requested: Option<&str>, session_cwd: &str) -> (r: String)
    ensures
        r@ == match requested {
            Some(p) => p@,
            None => session_cwd@,
        },
{
    match requested {
        Some(p) => p.to_owned(),
        None => session_cwd.to_owned(),
    }
}

/// How far a call is.
#[derive(Clone, Copy, Debug, PartialEq, Eq, Structural)]
pub enum ToolCallStatus {
    /// Not judged yet, or waiting for an answer.
    Pending,
    InProgress,
    Completed,
}

/// What an editor is shown of a session while it goes on.
#[derive(Debug, PartialEq)]
pub enum SessionUpdate {
    ToolCall { id: String, title: String, raw_input: Json, status: ToolCallStatus },
    /// Only how far the call is has changed.
    ToolCallUpdate { id: String, status: ToolCallStatus },
    UserMessageChunk(String),
    AgentMessageChunk(String),
    CurrentModeUpdate(String),
}

/// The mathematical value of a [`SessionUpdate`].
pub enum UpdateView {
    ToolCall { id: Seq<char>, title: Seq<char>, raw_input: JsonView, status: ToolCallStatus },
    ToolCallUpdate { id: Seq<char>, status: ToolCallStatus },
    UserMessageChunk(Seq<char>),
    AgentMessageChunk(Seq<char>),
    CurrentModeUpdate(Seq<char>),
}

impl View for SessionUpdate {
    type V = UpdateView;

    open spec fn view(&self) -> UpdateView {
        match self {
            SessionUpdate::ToolCall { id, title, raw_input, status } => UpdateView::ToolCall {
                id: id@,
                title: title@,
                raw_input: raw_input@,
                status: *status,
            },
            SessionUpdate::ToolCallUpdate { id, status } => UpdateView::ToolCallUpdate {
                id: id@,
                status: *status,
            },
            SessionUpdate::UserMessageChunk(t) => UpdateView::UserMessageChunk(t@),
            SessionUpdate::AgentMessageChunk(t) => UpdateView::AgentMessageChunk(t@),
            SessionUpdate::CurrentModeUpdate(m) => UpdateView::CurrentModeUpdate(m@),
        }
    }
}

impl DeepView for SessionUpdate {
    type V = UpdateView;

    open spec fn deep_view(&self) -> UpdateView {
        self@
    }
}

/// A block of what a user sends.
#[derive(Debug, PartialEq, Eq)]
pub enum PromptBlock {
    Text(String),
    Image,
    Audio,
    ResourceLink { name: String, uri: String },
    Resource,
    /// A kind that is not known here.
    Unknown,
}

/// The name of a block's kind.
pub fn prompt_block_kind(block: &PromptBlock) -> (r: &'static str)
    ensures
        r@ == match block {
            PromptBlock::Text(_) => "text"@,
            PromptBlock::Image => "image"@,
            PromptBlock::Audio => "audio"@,
            PromptBlock::ResourceLink { .. } => "resource_link"@,
            PromptBlock::Resource => "resource"@,
            PromptBlock::Unknown => "unknown"@,
        },
{
    match block {
        PromptBlock::Text(_) => "text",
        PromptBlock::Image => "image",
        PromptBlock::Audio => "audio",
        PromptBlock::ResourceLink { .. } => "resource_link",
        PromptBlock::Resource => "resource",
        PromptBlock::Unknown => "unknown",
    }
}

/// What a block adds to the user's message: a text as it is, a link by what it
/// names; nothing else is read.
pub open spec fn block_text(block: PromptBlock) -> Option<Seq<char>> {
    match block {
        PromptBlock::Text(t) => Some(t@),
        PromptBlock::ResourceLink { name, uri } => Some(
            "[referenced resource: "@ + name@ + " ("@ + uri@ + ")]"@,
        ),
        _ => None,
    }
}

/// Whether a block adds anything to the user's message.
pub fn prompt_block_read(block: &PromptBlock) -> (r: bool)
    ensures
        r == (block_text(*block) is Some),
{
    matches!(block, PromptBlock::Text(_) | PromptBlock::ResourceLink { .. })
}

/// What blocks add to the user's message, in order.
pub open spec fn block_texts(blocks: Seq<PromptBlock>) -> Seq<Seq<char>>
    decreases blocks.len(),
{
    if blocks.len() == 0 {
        Seq::empty()
    } else {
        let before = block_texts(blocks.drop_last());
        match block_text(blocks.last()) {
            Some(t) => before.push(t),
            None => before,
        }
    }
}

/// The user's message that blocks make up, a line for each that is read.
pub fn flatten_prompt(blocks: &Vec<PromptBlock>) -> (r: String)
    ensures
        r@ == text::joined(block_texts(blocks@), "\n"@),
{
    let mut texts: Vec<String> = Vec::new();
    assert(texts.deep_view() =~= block_texts(blocks@.take(0)));
    let mut i: usize = 0;
    while i < blocks.len()
        invariant
            i <= blocks.len(),
            texts.deep_view() == block_texts(blocks@.take(i as int)),
        decreases blocks.len() - i,
    {
        proof {
            assert(blocks@.take(i + 1).drop_last() =~= blocks@.take(i as int));
            assert(blocks@.take(i + 1).last() == blocks@[i as int]);
        }
        let read = match &blocks[i] {
            PromptBlock::Text(t) => Some(t.clone()),
            PromptBlock::ResourceLink { name, uri } => Some(
                "[referenced resource: ".to_owned().concat(name.as_str()).concat(" (").concat(
                    uri.as_str(),
                ).concat(")]"),
            ),
            _ => None,
        };
        if let Some(t) = read {
            let ghost before = texts.deep_view();
            texts.push(t);
            assert(texts.deep_view() =~= before.push(t@));
        }
        i += 1;
    }
    assert(blocks@.take(i as int) =~= blocks@);
    text::join(&texts, "\n")
}

/// The texts among the parts of a message, in order.
pub open spec fn texts_of(parts: Seq<PartView>) -> Seq<Seq<char>>
    decreases parts.len(),
{
    if parts.len() == 0 {
        Seq::empty()
    } else {
        let before = texts_of(parts.drop_last());
        match parts.last() {
            PartView::Text(t) => before.push(t),
            _ => before,
        }
    }
}

/// What an editor is shown of a message when it loads a session: its texts, a line
/// each, as what the user or the agent said; nothing where there are none.
pub open spec fn replayed_message(msg: MessageView) -> Option<UpdateView> {
    let t = text::joined(texts_of(msg.parts), "\n"@);
    if t.len() == 0 {
        None
    } else {
        Some(
            match msg.role {
                Role::User => UpdateView::UserMessageChunk(t),
                Role::Assistant => UpdateView::AgentMessageChunk(t),
            },
        )
    }
}

/// What an editor is shown of a session when it loads it.
pub open spec fn replayed(history: Seq<MessageView>) -> Seq<UpdateView>
    decreases history.len(),
{
    if history.len() == 0 {
        Seq::empty()
    } else {
        let before = replayed(history.drop_last());
        match replayed_message(history.last()) {
            Some(u) => before.push(u),
            None => before,
        }
    }
}

fn message_text(msg: &ChatMessage) -> (r: String)
    ensures
        r@ == text::joined(texts_of(msg@.parts), "\n"@),
{
    let ghost all = msg@.parts;
    let mut texts: Vec<String> = Vec::new();
    assert(texts.deep_view() =~= texts_of(all.take(0)));
    let mut i: usize = 0;
    while i < msg.parts.len()
        invariant
            i <= msg.parts.len(),
            all == msg.parts.deep_view(),
            texts.deep_view() == texts_of(all.take(i as int)),
        decreases msg.parts.len() - i,
    {
        proof {
            assert(all.take(i + 1).drop_last() =~= all.take(i as int));
            assert(all.take(i + 1).last() == msg.parts@[i as int]@);
        }
        if let ContentPart::Text(t) = &msg.parts[i] {
            let ghost before = texts.deep_view();
            texts.push(t.clone());
            assert(texts.deep_view() =~= before.push(t@));
        }
        i += 1;
    }
    assert(all.take(i as int) =~= all);
    text::join(&texts, "\n")
}

/// What an editor is shown of a session when it loads it, before it is answered.
pub fn replay(history: &Vec<ChatMessage>) -> (r: Vec<SessionUpdate>)
    ensures
        r.deep_view() == replayed(history.deep_view()),
{
    let ghost all = history.deep_view();
    let mut updates: Vec<SessionUpdate> = Vec::new();
    assert(updates.deep_view() =~= replayed(all.take(0)));
    let mut i: usize = 0;
    while i < history.len()
        invariant
            i <= history.len(),
            all == history.deep_view(),
            updates.deep_view() == replayed(all.take(i as int)),
        decreases history.len() - i,
    {
        proof {
            assert(all.take(i + 1).drop_last() =~= all.take(i as int));
            assert(all.take(i + 1).last() == history@[i as int]@);
        }
        let t = message_text(&history[i]);
        if !t.as_str().is_empty() {
            let ghost before = updates.deep_view();
            let update = match history[i].role {
                Role::User => SessionUpdate::UserMessageChunk(t),
                Role::Assistant => SessionUpdate::AgentMessageChunk(t),
            };
            let ghost shown = update@;
            updates.push(update);
            assert(updates.deep_view() =~= before.push(shown));
        }
        i += 1;
    }
    assert(all.take(i as int) =~= all);
    updates
}

/// What a mode is called and described as.
#[derive(Debug, PartialEq, Eq)]
pub struct ModeLabel {
    pub name: String,
    pub description: String,
}

/// A mode that an editor may pick.
#[derive(Debug, PartialEq, Eq)]
pub struct ModeInfo {
    pub id: String,
    pub name: String,
    pub description: String,
}

/// The modes that an editor may pick, and the one that it is in.
#[derive(Debug, PartialEq, Eq)]
pub struct SessionModeState {
    pub current: String,
    pub modes: Vec<ModeInfo>,
}

/// Whether an editor is told of a mode under this label.
pub open spec fn describes(info: ModeInfo, mode: SessionMode, label: ModeLabel) -> bool {
    &&& info.id@ == mode_id(mode)
    &&& info.name@ == label.name@
    &&& info.description@ == label.description@
}

fn mode_info(mode: SessionMode, label: &ModeLabel) -> (r: ModeInfo)
    ensures
        describes(r, mode, *label),
{
    ModeInfo {
        id: mode.id().to_owned(),
        name: label.name.clone(),
        description: label.description.clone(),
    }
}

/// The modes that every session starts with: it is in the one that asks, also where
/// it was loaded, since a mode says how the editor wants the agent to behave now.
pub fn mode_state(default: &ModeLabel, accept_edits: &ModeLabel, bypass: &ModeLabel) -> (r:
    SessionModeState)
    ensures
        r.current@ == mode_id(SessionMode::Default),
        r.modes.len() == 3,
        describes(r.modes@[0], SessionMode::Default, *default),
        describes(r.modes@[1], SessionMode::AcceptEdits, *accept_edits),
        describes(r.modes@[2], SessionMode::Bypass, *bypass),
{
    let mut modes: Vec<ModeInfo> = Vec::new();
    modes.push(mode_info(SessionMode::Default, default));
    modes.push(mode_info(SessionMode::AcceptEdits, accept_edits));
    modes.push(mode_info(SessionMode::Bypass, bypass));
    SessionModeState { current: SessionMode::Default.id().to_owned(), modes }
}

/// What loading a session shows never leaves out a word: every text that is not
/// empty is part of what is shown of its message.
pub proof fn replay_shows_every_text(msg: MessageView, i: int)
    requires
        0 <= i < msg.parts.len(),
        msg.parts[i] is Text,
        msg.parts[i]->Text_0.len() > 0,
    ensures
        replayed_message(msg) is Some,
        texts_of(msg.parts).contains(msg.parts[i]->Text_0),
{
    lemma_texts_of(msg.parts, i);
    let t = msg.parts[i]->Text_0;
    let texts = texts_of(msg.parts);
    let k = choose|k: int| 0 <= k < texts.len() && texts[k] == t;
    lemma_joined_len(texts, "\n"@, k);
}

proof fn lemma_texts_of(parts: Seq<PartView>, i: int)
    requires
        0 <= i < parts.len(),
        parts[i] is Text,
    ensures
        texts_of(parts).contains(parts[i]->Text_0),
    decreases parts.len(),
{
    let t = parts[i]->Text_0;
    if i == parts.len() - 1 {
        let texts = texts_of(parts);
        assert(texts[texts.len() - 1] == t);
    } else {
        let before = texts_of(parts.drop_last());
        lemma_texts_of(parts.drop_last(), i);
        let k = choose|k: int| 0 <= k < before.len() && before[k] == t;
        assert(texts_of(parts)[k] == t);
    }
}

proof fn lemma_joined_len(parts: Seq<Seq<char>>, sep: Seq<char>, k: int)
    requires
        0 <= k < parts.len(),
    ensures
        text::joined(parts, sep).len() >= parts[k].len(),
    decreases parts.len(),
{
    if parts.len() > 1 && k < parts.len() - 1 {
        lemma_joined_len(parts.drop_last(), sep, k);
    }
}

/// Whether a block is of a kind that is read.
pub open spec fn readable(block: PromptBlock) -> bool {
    block is Text || block is ResourceLink
}

proof fn lemma_block_texts(blocks: Seq<PromptBlock>, i: int)
    ensures
        block_texts(blocks).len() == count_of(blocks, |b: PromptBlock| readable(b)),
        0 <= i < blocks.len() && readable(blocks[i]) ==> Some(
            block_texts(blocks)[count_of(
                blocks.take(i),
                |b: PromptBlock| readable(b),
            ) as int],
        ) == block_text(blocks[i]),
    decreases blocks.len(),
{
    let kind = |b: PromptBlock| readable(b);
    if blocks.len() > 0 {
        let before = blocks.drop_last();
        lemma_block_texts(before, i);
        if 0 <= i < blocks.len() && readable(blocks[i]) {
            if i == blocks.len() - 1 {
                assert(blocks.take(i) =~= before);
            } else {
                assert(before.take(i) =~= blocks.take(i));
                lemma_count_before(before, kind, i);
            }
        }
    }
}

/// A prompt loses no block that is read: it has a line for each text and each link, in
/// the order of the blocks. A text is its own line, all of it, and a link's names what
/// it leads to.
pub proof fn prompts_lose_no_block(blocks: Vec<PromptBlock>, r: String) -> (lines: Seq<Seq<char>>)
    requires
        call_ensures(flatten_prompt, (&blocks,), r),
    ensures
        r@ == text::joined(lines, "\n"@),
        lines.len() == count_of(blocks@, |b: PromptBlock| b is Text || b is ResourceLink),
        forall|i: int|
            0 <= i < blocks.len() && (#[trigger] blocks@[i]) is Text ==> lines[count_of(
                blocks@.take(i),
                |b: PromptBlock| b is Text || b is ResourceLink,
            ) as int] == blocks@[i]->Text_0@,
        forall|i: int|
            0 <= i < blocks.len() && (#[trigger] blocks@[i]) is ResourceLink ==> lines[count_of(
                blocks@.take(i),
                |b: PromptBlock| b is Text || b is ResourceLink,
            ) as int] == "[referenced resource: "@ + blocks@[i]->name@ + " ("@ + blocks@[i]->uri@
                + ")]"@,
{
    let lines = block_texts(blocks@);
    let kind = |b: PromptBlock| b is Text || b is ResourceLink;
    assert(kind =~= |b: PromptBlock| readable(b));
    lemma_block_texts(blocks@, 0);
    assert forall|i: int| 0 <= i < blocks.len() && (#[trigger] blocks@[i]) is Text implies lines[
        count_of(blocks@.take(i), |b: PromptBlock| b is Text || b is ResourceLink) as int
    ] == blocks@[i]->Text_0@ by {
        lemma_block_texts(blocks@, i);
    }
    assert forall|i: int|
        0 <= i < blocks.len() && (#[trigger] blocks@[i]) is ResourceLink implies lines[count_of(
        blocks@.take(i),
        |b: PromptBlock| b is Text || b is ResourceLink,
    ) as int] == "[referenced resource: "@ + blocks@[i]->name@ + " ("@ + blocks@[i]->uri@
        + ")]"@ by {
        lemma_block_texts(blocks@, i);
    }
    lines
}

/// What two prompts add together is what one adds, and then what the other does.
pub proof fn prompts_add_up(a: Seq<PromptBlock>, b: Seq<PromptBlock>)
    ensures
        block_texts(a + b) == block_texts(a) + block_texts(b),
    decreases b.len(),
{
    if b.len() == 0 {
        assert(a + b =~= a);
        assert(block_texts(a) + block_texts(b) =~= block_texts(a));
    } else {
        prompts_add_up(a, b.drop_last());
        assert((a + b).drop_last() =~= a + b.drop_last());
        assert((a + b).last() == b.last());
        assert(block_texts(a + b) =~= block_texts(a) + block_texts(b));
    }
}

/// A block is read exactly where it is a text or a link.
pub proof fn texts_and_links_are_read(block: PromptBlock, r: bool)
    requires
        call_ensures(prompt_block_read, (&block,), r),
    ensures
        r <==> block is Text || block is ResourceLink,
{
}

/// The texts of a message are the parts of it that are text, each whole and in order.
pub proof fn texts_are_the_parts_that_are_text(parts: Seq<PartView>, i: int)
    ensures
        texts_of(parts).len() == count_of(parts, |p: PartView| p is Text),
        0 <= i < parts.len() && parts[i] is Text ==> texts_of(parts)[count_of(
            parts.take(i),
            |p: PartView| p is Text,
        ) as int] == parts[i]->Text_0,
    decreases parts.len(),
{
    let kind = |p: PartView| p is Text;
    if parts.len() > 0 {
        let before = parts.drop_last();
        texts_are_the_parts_that_are_text(before, i);
        if 0 <= i < parts.len() && parts[i] is Text {
            if i == parts.len() - 1 {
                assert(parts.take(i) =~= before);
            } else {
                assert(before.take(i) =~= parts.take(i));
                lemma_count_before(before, kind, i);
            }
        }
    }
}

/// What a message says: its texts, a line each.
pub open spec fn said(msg: ChatMessage) -> Seq<char> {
    text::joined(texts_of(msg@.parts), "\n"@)
}

proof fn lemma_replayed(history: Seq<ChatMessage>, views: Seq<MessageView>, i: int)
    requires
        views.len() == history.len(),
        forall|k: int| 0 <= k < views.len() ==> #[trigger] views[k] == history[k]@,
    ensures
        replayed(views).len() == count_of(history, |m: ChatMessage| said(m).len() > 0),
        0 <= i < history.len() && said(history[i]).len() > 0 ==> Some(
            replayed(views)[count_of(
                history.take(i),
                |m: ChatMessage| said(m).len() > 0,
            ) as int],
        ) == replayed_message(views[i]),
    decreases history.len(),
{
    let kind = |m: ChatMessage| said(m).len() > 0;
    if history.len() > 0 {
        let before = history.drop_last();
        let earlier = views.drop_last();
        assert forall|k: int| 0 <= k < earlier.len() implies #[trigger] earlier[k]
            == before[k]@ by {
            assert(earlier[k] == views[k]);
        }
        lemma_replayed(before, earlier, i);
        assert(views[views.len() - 1] == views.last());
        if 0 <= i < history.len() && said(history[i]).len() > 0 {
            if i == history.len() - 1 {
                assert(history.take(i) =~= before);
            } else {
                assert(before.take(i) =~= history.take(i));
                lemma_count_before(before, kind, i);
                assert(earlier[i] == views[i]);
            }
        }
    }
}

/// Loading a session shows every message that says anything, in order, with all that
/// it says, as what the user or the agent said; whatever else the message holds.
pub proof fn replays_lose_no_message(history: Vec<ChatMessage>, r: Vec<SessionUpdate>, i: int)
    requires
        call_ensures(replay, (&history,), r),
    ensures
        r.len() == count_of(history@, |m: ChatMessage| said(m).len() > 0),
        0 <= i < history.len() && said(history@[i]).len() > 0 ==> {
            let place = count_of(
                history@.take(i),
                |m: ChatMessage| said(m).len() > 0,
            ) as int;
            &&& 0 <= place < r.len()
            &&& history@[i].role == Role::User ==> r@[place] is UserMessageChunk
                && r@[place]->UserMessageChunk_0@ == said(history@[i])
            &&& history@[i].role == Role::Assistant ==> r@[place] is AgentMessageChunk
                && r@[place]->AgentMessageChunk_0@ == said(history@[i])
        },
{
    let views = history.deep_view();
    let kind = |m: ChatMessage| said(m).len() > 0;
    assert(views.len() == history.len());
    assert(r.deep_view().len() == r.len());
    lemma_replayed(history@, views, i);
    if 0 <= i < history.len() && said(history@[i]).len() > 0 {
        let place = count_of(history@.take(i), kind) as int;
        lemma_count_before(history@, kind, i);
        assert(r.deep_view()[place] == r@[place]@);
        assert(views[i] == history@[i]@);
    }
}

/// Two conversations one after the other are replayed one after the other.
pub proof fn replays_add_up(a: Seq<MessageView>, b: Seq<MessageView>)
    ensures
        replayed(a + b) == replayed(a) + replayed(b),
    decreases b.len(),
{
    if b.len() == 0 {
        assert(a + b =~= a);
        assert(replayed(a) + replayed(b) =~= replayed(a));
    } else {
        replays_add_up(a, b.drop_last());
        assert((a + b).drop_last() =~= a + b.drop_last());
        assert((a + b).last() == b.last());
        assert(replayed(a + b) =~= replayed(a) + replayed(b));
    }
}

/// A message of one text that is not empty is replayed as that text, whatever parts
/// that are no text stand before and behind it.
pub proof fn a_text_is_replayed_among_other_parts(
    before: Seq<PartView>,
    t: Seq<char>,
    behind: Seq<PartView>,
    msg: MessageView,
)
    requires
        forall|i: int| 0 <= i < before.len() ==> !(#[trigger] before[i] is Text),
        forall|i: int| 0 <= i < behind.len() ==> !(#[trigger] behind[i] is Text),
        t.len() > 0,
        msg.parts == before.push(PartView::Text(t)) + behind,
    ensures
        replayed(seq![msg]) == seq![
            match msg.role {
                Role::User => UpdateView::UserMessageChunk(t),
                Role::Assistant => UpdateView::AgentMessageChunk(t),
            },
        ],
{
    let texts = texts_of(msg.parts);
    lemma_no_texts(before);
    let mid = before.push(PartView::Text(t));
    assert(mid.drop_last() =~= before);
    assert(texts_of(mid) =~= seq![t]);
    lemma_texts_behind(mid, behind);
    assert(texts =~= seq![t]);
    assert(text::joined(texts, "\n"@) == t);
    assert(seq![msg].drop_last() =~= Seq::empty());
    assert(replayed(seq![msg].drop_last()) =~= Seq::empty());
    assert(replayed(seq![msg]) =~= seq![replayed_message(msg).unwrap()]);
}

proof fn lemma_no_texts(parts: Seq<PartView>)
    requires
        forall|i: int| 0 <= i < parts.len() ==> !(#[trigger] parts[i] is Text),
    ensures
        texts_of(parts) == Seq::<Seq<char>>::empty(),
    decreases parts.len(),
{
    if parts.len() > 0 {
        let before = parts.drop_last();
        assert forall|i: int| 0 <= i < before.len() implies !(#[trigger] before[i] is Text) by {
            assert(before[i] == parts[i]);
        }
        lemma_no_texts(before);
        assert(!(parts[parts.len() - 1] is Text));
    }
}

proof fn lemma_texts_behind(parts: Seq<PartView>, behind: Seq<PartView>)
    requires
        forall|i: int| 0 <= i < behind.len() ==> !(#[trigger] behind[i] is Text),
    ensures
        texts_of(parts + behind) == texts_of(parts),
    decreases behind.len(),
{
    if behind.len() == 0 {
        assert(parts + behind =~= parts);
    } else {
        let before = behind.drop_last();
        assert forall|i: int| 0 <= i < before.len() implies !(#[trigger] before[i] is Text) by {
            assert(before[i] == behind[i]);
        }
        lemma_texts_behind(parts, before);
        assert((parts + behind).drop_last() =~= parts + before);
        assert((parts + behind).last() == behind[behind.len() - 1]);
    }
}

/// What an editor says that it can do is taken flag by flag.
pub proof fn flags_are_taken_one_by_one(
    caps: ClientCapabilities,
    fs: (bool, bool),
    terminal: bool,
    none: ClientCapabilities,
)
    requires
        call_ensures(fs_caps_from, (&caps,), fs),
        call_ensures(terminal_cap_from, (&caps,), terminal),
        call_ensures(ClientCapabilities::none, (), none),
    ensures
        fs.0 <==> caps.read_text_file,
        fs.1 <==> caps.write_text_file,
        terminal <==> caps.terminal,
        !none.read_text_file && !none.write_text_file && !none.terminal,
{
}

/// A terminal starts where the model asks for, and where it asks for nothing, where
/// the session is.
pub proof fn terminals_start_where_asked(
    asked: &str,
    session: &str,
    there: String,
    here: String,
)
    requires
        call_ensures(effective_cwd, (Some(asked), session), there),
        call_ensures(effective_cwd, (None::<&str>, session), here),
    ensures
        there@ == asked@,
        here@ == session@,
{
}

/// A session starts in the mode that asks, and may be put into any of the three, each
/// under its own identifier and label.
pub proof fn sessions_start_in_the_mode_that_asks(
    default: ModeLabel,
    accept_edits: ModeLabel,
    bypass: ModeLabel,
    r: SessionModeState,
)
    requires
        call_ensures(mode_state, (&default, &accept_edits, &bypass), r),
    ensures
        r.current@ == "default"@,
        r.modes.len() == 3,
        r.modes@[0].id@ == "default"@ && r.modes@[0].name@ == default.name@,
        r.modes@[1].id@ == "accept_edits"@ && r.modes@[1].name@ == accept_edits.name@,
        r.modes@[2].id@ == "bypass"@ && r.modes@[2].name@ == bypass.name@,
        r.modes@[0].description@ == default.description@,
        r.modes@[1].description@ == accept_edits.description@,
        r.modes@[2].description@ == bypass.description@,
{
}

/// Two updates of one value show the same.
pub proof fn updates_of_one_value_are_alike(a: SessionUpdate, b: SessionUpdate)
    requires
        a@ == b@,
    ensures
        a is ToolCall ==> b is ToolCall && a->ToolCall_id@ == b->ToolCall_id@ && a->title@
            == b->title@ && a->raw_input@ == b->raw_input@ && a->ToolCall_status
            == b->ToolCall_status,
        a is ToolCallUpdate ==> b is ToolCallUpdate && a->ToolCallUpdate_id@
            == b->ToolCallUpdate_id@ && a->ToolCallUpdate_status == b->ToolCallUpdate_status,
        a is UserMessageChunk ==> b is UserMessageChunk && a->UserMessageChunk_0@
            == b->UserMessageChunk_0@,
        a is AgentMessageChunk ==> b is AgentMessageChunk && a->AgentMessageChunk_0@
            == b->AgentMessageChunk_0@,
        a is CurrentModeUpdate ==> b is CurrentModeUpdate && a->CurrentModeUpdate_0@
            == b->CurrentModeUpdate_0@,
{
}

/// What is written down of an editor says each thing that it can do or cannot, and who it
/// says that it is: its name for humans, or else its name, and its version.
pub proof fn editors_are_described(
    caps: ClientCapabilities,
    described: String,
    info: Implementation,
    named: String,
    unnamed: String,
)
    requires
        call_ensures(describe_capabilities, (&caps,), described),
        call_ensures(describe_client, (Some(&info),), named),
        call_ensures(describe_client, (None::<&Implementation>,), unnamed),
    ensures
        described@ == "fs.read="@ + (if caps.read_text_file {
            "true"@
        } else {
            "false"@
        }) + " fs.write="@ + (if caps.write_text_file {
            "true"@
        } else {
            "false"@
        }) + " terminal="@ + (if caps.terminal {
            "true"@
        } else {
            "false"@
        }),
        info.title is Some ==> named@ == info.title.unwrap()@ + " "@ + info.version@,
        info.title is None ==> named@ == info.name@ + " "@ + info.version@,
        unnamed@ == "an unidentified client"@,
{
}

/// A block goes by the name of its kind.
pub proof fn blocks_go_by_their_kind(block: PromptBlock, r: &'static str)
    requires
        call_ensures(prompt_block_kind, (&block,), r),
    ensures
        block is Text ==> r@ == "text"@,
        block is Image ==> r@ == "image"@,
        block is Audio ==> r@ == "audio"@,
        block is ResourceLink ==> r@ == "resource_link"@,
        block is Resource ==> r@ == "resource"@,
        block is Unknown ==> r@ == "unknown"@,
{
}

} // verus!
