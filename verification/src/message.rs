//! The messages of a conversation and what the model is shown of them.

use vstd::prelude::*;

use crate::count::sum_of;
use crate::json::{Json, JsonView};
use crate::text;

verus! {

/// Who a message is from.
#[derive(Clone, Copy, Debug, PartialEq, Eq, Structural)]
pub enum Role {
    User,
    Assistant,
}

/// How a user's message came in.
#[derive(Clone, Copy, Debug, PartialEq, Eq, Structural)]
pub enum UserInputKind {
    Text,
    Voice,
}

/// One part of a message. The `Ref` variants stand for a body kept elsewhere.
#[derive(Debug, PartialEq)]
pub enum ContentPart {
    Text(String),
    Image { media_type: String, data_base64: String },
    ImageRef { media_type: String, sha256: String },
    ToolUse { id: String, name: String, input: Json },
    ToolUseRef { id: String, name: String, sha256: String },
    ToolResult { tool_use_id: String, content: String },
    ToolResultRef { tool_use_id: String, sha256: String },
}

/// The mathematical value of a [`ContentPart`].
pub enum PartView {
    Text(Seq<char>),
    Image { media_type: Seq<char>, data_base64: Seq<char> },
    ImageRef { media_type: Seq<char>, sha256: Seq<char> },
    ToolUse { id: Seq<char>, name: Seq<char>, input: JsonView },
    ToolUseRef { id: Seq<char>, name: Seq<char>, sha256: Seq<char> },
    ToolResult { tool_use_id: Seq<char>, content: Seq<char> },
    ToolResultRef { tool_use_id: Seq<char>, sha256: Seq<char> },
}

impl View for ContentPart {
    type V = PartView;

    open spec fn view(&self) -> PartView {
        match self {
            ContentPart::Text(t) => PartView::Text(t@),
            ContentPart::Image { media_type, data_base64 } => PartView::Image {
                media_type: media_type@,
                data_base64: data_base64@,
            },
            ContentPart::ImageRef { media_type, sha256 } => PartView::ImageRef {
                media_type: media_type@,
                sha256: sha256@,
            },
            ContentPart::ToolUse { id, name, input } => PartView::ToolUse {
                id: id@,
                name: name@,
                input: input@,
            },
            ContentPart::ToolUseRef { id, name, sha256 } => PartView::ToolUseRef {
                id: id@,
                name: name@,
                sha256: sha256@,
            },
            ContentPart::ToolResult { tool_use_id, content } => PartView::ToolResult {
                tool_use_id: tool_use_id@,
                content: content@,
            },
            ContentPart::ToolResultRef { tool_use_id, sha256 } => PartView::ToolResultRef {
                tool_use_id: tool_use_id@,
                sha256: sha256@,
            },
        }
    }
}

impl DeepView for ContentPart {
    type V = PartView;

    open spec fn deep_view(&self) -> PartView {
        self@
    }
}

impl ContentPart {
    /// A copy of the part.
    pub fn copy(&self) -> (r: ContentPart)
        ensures
            r@ == self@,
    {
        match self {
            ContentPart::Text(t) => ContentPart::Text(t.clone()),
            ContentPart::Image { media_type, data_base64 } => ContentPart::Image {
                media_type: media_type.clone(),
                data_base64: data_base64.clone(),
            },
            ContentPart::ImageRef { media_type, sha256 } => ContentPart::ImageRef {
                media_type: media_type.clone(),
                sha256: sha256.clone(),
            },
            ContentPart::ToolUse { id, name, input } => ContentPart::ToolUse {
                id: id.clone(),
                name: name.clone(),
                input: input.copy(),
            },
            ContentPart::ToolUseRef { id, name, sha256 } => ContentPart::ToolUseRef {
                id: id.clone(),
                name: name.clone(),
                sha256: sha256.clone(),
            },
            ContentPart::ToolResult { tool_use_id, content } => ContentPart::ToolResult {
                tool_use_id: tool_use_id.clone(),
                content: content.clone(),
            },
            ContentPart::ToolResultRef { tool_use_id, sha256 } => ContentPart::ToolResultRef {
                tool_use_id: tool_use_id.clone(),
                sha256: sha256.clone(),
            },
        }
    }
}

/// One message of a conversation.
#[derive(Debug, PartialEq)]
pub struct ChatMessage {
    pub role: Role,
    pub parts: Vec<ContentPart>,
    /// How a user's message came in, where that is known.
    pub input_kind: Option<UserInputKind>,
    pub user_id: Option<String>,
}

/// The mathematical value of a [`ChatMessage`].
pub struct MessageView {
    pub role: Role,
    pub parts: Seq<PartView>,
    pub input_kind: Option<UserInputKind>,
    pub user_id: Option<Seq<char>>,
}

impl View for ChatMessage {
    type V = MessageView;

    open spec fn view(&self) -> MessageView {
        MessageView {
            role: self.role,
            parts: self.parts.deep_view(),
            input_kind: self.input_kind,
            user_id: self.user_id.deep_view(),
        }
    }
}

impl DeepView for ChatMessage {
    type V = MessageView;

    open spec fn deep_view(&self) -> MessageView {
        self@
    }
}

/// A call that the model asks for.
#[derive(Debug, PartialEq)]
pub struct ToolCall {
    pub id: String,
    pub name: String,
    pub input: Json,
}

/// The mathematical value of a [`ToolCall`].
pub struct CallView {
    pub id: Seq<char>,
    pub name: Seq<char>,
    pub input: JsonView,
}

impl View for ToolCall {
    type V = CallView;

    open spec fn view(&self) -> CallView {
        CallView { id: self.id@, name: self.name@, input: self.input@ }
    }
}

impl DeepView for ToolCall {
    type V = CallView;

    open spec fn deep_view(&self) -> CallView {
        self@
    }
}

impl ToolCall {
    /// A copy of the call.
    pub fn copy(&self) -> (r: ToolCall)
        ensures
            r@ == self@,
    {
        ToolCall { id: self.id.clone(), name: self.name.clone(), input: self.input.copy() }
    }
}

impl Clone for ContentPart {
    fn clone(&self) -> (r: ContentPart)
        ensures
            r@ == self@,
    {
        self.copy()
    }
}

impl Clone for ChatMessage {
    fn clone(&self) -> (r: ChatMessage)
        ensures
            r@ == self@,
    {
        self.copy()
    }
}

impl Clone for ToolCall {
    fn clone(&self) -> (r: ToolCall)
        ensures
            r@ == self@,
    {
        self.copy()
    }
}

/// A copy of a list of calls.
pub fn copy_calls(calls: &Vec<ToolCall>) -> (r: Vec<ToolCall>)
    ensures
        r.deep_view() == calls.deep_view(),
{
    let mut r: Vec<ToolCall> = Vec::new();
    let mut i: usize = 0;
    while i < calls.len()
        invariant
            i <= calls.len(),
            r.len() == i,
            forall|k: int| 0 <= k < i ==> #[trigger] r@[k]@ == calls@[k]@,
        decreases calls.len() - i,
    {
        r.push(calls[i].copy());
        i += 1;
    }
    assert(r.deep_view() =~= calls.deep_view());
    r
}

/// A picture that a tool hands back.
#[derive(Debug, PartialEq)]
pub struct ToolImage {
    pub media_type: String,
    pub data_base64: String,
}

/// The part that shows a picture.
pub open spec fn image_part(image: ToolImage) -> PartView {
    PartView::Image { media_type: image.media_type@, data_base64: image.data_base64@ }
}

impl DeepView for ToolImage {
    type V = PartView;

    open spec fn deep_view(&self) -> PartView {
        image_part(*self)
    }
}

/// What a tool hands back.
#[derive(Debug, PartialEq)]
pub struct ToolOutput {
    pub text: String,
    pub images: Vec<ToolImage>,
}

/// The mathematical value of a [`ToolOutput`], its pictures as message parts.
pub struct OutputView {
    pub text: Seq<char>,
    pub images: Seq<PartView>,
}

impl View for ToolOutput {
    type V = OutputView;

    open spec fn view(&self) -> OutputView {
        OutputView { text: self.text@, images: self.images.deep_view() }
    }
}

impl DeepView for ToolOutput {
    type V = OutputView;

    open spec fn deep_view(&self) -> OutputView {
        self@
    }
}

impl ToolOutput {
    /// An output that is text alone.
    pub fn plain(text: String) -> (r: ToolOutput)
        ensures
            r@ == (OutputView { text: text@, images: Seq::empty() }),
    {
        let r = ToolOutput { text, images: Vec::new() };
        assert(r@.images =~= Seq::empty());
        r
    }
}

/// What the model answers: prose, calls, or both.
#[derive(Debug, PartialEq)]
pub struct ChatResponse {
    pub text: Option<String>,
    pub tool_calls: Vec<ToolCall>,
}

/// A message that holds one text.
pub open spec fn text_message(
    role: Role,
    text: Seq<char>,
    input_kind: Option<UserInputKind>,
) -> MessageView {
    MessageView { role, parts: seq![PartView::Text(text)], input_kind, user_id: None }
}

/// The part that asks for a call.
pub open spec fn use_part(call: CallView) -> PartView {
    PartView::ToolUse { id: call.id, name: call.name, input: call.input }
}

/// The part that answers a call.
pub open spec fn result_part(result: (Seq<char>, OutputView)) -> PartView {
    PartView::ToolResult { tool_use_id: result.0, content: result.1.text }
}

/// An assistant's message with its prose, if any, ahead of the calls it asks for.
pub open spec fn tool_use_message(text: Option<Seq<char>>, calls: Seq<CallView>) -> MessageView {
    MessageView {
        role: Role::Assistant,
        parts: (match text {
            Some(t) => seq![PartView::Text(t)],
            None => Seq::empty(),
        }) + calls.map_values(|c: CallView| use_part(c)),
        input_kind: None,
        user_id: None,
    }
}

/// All pictures of a round's results, in order.
pub open spec fn all_images(results: Seq<(Seq<char>, OutputView)>) -> Seq<PartView>
    decreases results.len(),
{
    if results.len() == 0 {
        Seq::empty()
    } else {
        all_images(results.drop_last()) + results.last().1.images
    }
}

/// The message that answers a round's calls: one part per result, then the pictures.
pub open spec fn tool_result_message(results: Seq<(Seq<char>, OutputView)>) -> MessageView {
    MessageView {
        role: Role::User,
        parts: results.map_values(|r: (Seq<char>, OutputView)| result_part(r)) + all_images(
            results,
        ),
        input_kind: None,
        user_id: None,
    }
}

/// The part that answers a call with a text.
pub open spec fn answer_part(answer: (Seq<char>, Seq<char>)) -> PartView {
    PartView::ToolResult { tool_use_id: answer.0, content: answer.1 }
}

/// The message that answers calls: one part per answer, then the pictures.
pub open spec fn answer_message(
    answers: Seq<(Seq<char>, Seq<char>)>,
    images: Seq<PartView>,
) -> MessageView {
    MessageView {
        role: Role::User,
        parts: answers.map_values(|r: (Seq<char>, Seq<char>)| answer_part(r)) + images,
        input_kind: None,
        user_id: None,
    }
}

/// A list of answers by its values.
pub open spec fn answer_values(answers: Seq<(String, String)>) -> Seq<(Seq<char>, Seq<char>)> {
    Seq::new(answers.len(), |i: int| (answers[i].0@, answers[i].1@))
}

/// A result list by its values.
pub open spec fn result_values(results: Seq<(String, ToolOutput)>) -> Seq<
    (Seq<char>, OutputView),
> {
    Seq::new(results.len(), |i: int| (results[i].0@, results[i].1@))
}

impl ChatMessage {
    fn single(role: Role, text: &str, input_kind: Option<UserInputKind>) -> (r: ChatMessage)
        ensures
            r@ == text_message(role, text@, input_kind),
    {
        let mut parts: Vec<ContentPart> = Vec::new();
        parts.push(ContentPart::Text(text.to_owned()));
        let r = ChatMessage { role, parts, input_kind, user_id: None };
        assert(r@.parts =~= seq![PartView::Text(text@)]);
        r
    }

    /// A message that a user typed.
    pub fn user(text: &str) -> (r: ChatMessage)
        ensures
            r@ == text_message(Role::User, text@, Some(UserInputKind::Text)),
    {
        ChatMessage::single(Role::User, text, Some(UserInputKind::Text))
    }

    /// A message that a user spoke.
    pub fn user_voice(text: &str) -> (r: ChatMessage)
        ensures
            r@ == text_message(Role::User, text@, Some(UserInputKind::Voice)),
    {
        ChatMessage::single(Role::User, text, Some(UserInputKind::Voice))
    }

    /// A message of the assistant that asks for nothing.
    pub fn assistant(text: &str) -> (r: ChatMessage)
        ensures
            r@ == text_message(Role::Assistant, text@, None),
    {
        ChatMessage::single(Role::Assistant, text, None)
    }

    /// A message of the assistant that asks for calls.
    pub fn assistant_with_tools(text: Option<String>, calls: Vec<ToolCall>) -> (r: ChatMessage)
        ensures
            r@ == tool_use_message(text.deep_view(), calls.deep_view()),
    {
        let mut parts: Vec<ContentPart> = Vec::new();
        if let Some(t) = &text {
            parts.push(ContentPart::Text(t.clone()));
        }
        let ghost head = parts.deep_view();
        let ghost want = calls.deep_view().map_values(|c: CallView| use_part(c));
        assert(head =~= match text.deep_view() {
            Some(t) => seq![PartView::Text(t)],
            None => Seq::empty(),
        });
        assert(head + want.take(0) =~= head);
        for call in it: calls
            invariant
                it.seq() == calls@,
                want == calls.deep_view().map_values(|c: CallView| use_part(c)),
                parts.deep_view() == head + want.take(it.index() as int),
        {
            let ghost k = it.index() as int;
            let ghost before = parts.deep_view();
            parts.push(
                ContentPart::ToolUse { id: call.id, name: call.name, input: call.input },
            );
            assert(parts.deep_view() =~= before.push(want[k]));
            assert(head + want.take(k + 1) =~= (head + want.take(k)).push(want[k]));
        }
        assert(want.take(want.len() as int) =~= want);
        ChatMessage { role: Role::Assistant, parts, input_kind: None, user_id: None }
    }

    /// The message that answers calls, with the pictures behind the answers.
    pub fn tool_results_with_images(results: Vec<(String, String)>, images: Vec<ToolImage>) -> (r:
        ChatMessage)
        ensures
            r@ == answer_message(answer_values(results@), images.deep_view()),
    {
        let ghost answers = answer_values(results@).map_values(
            |r: (Seq<char>, Seq<char>)| answer_part(r),
        );
        let ghost pictures = images.deep_view();
        let mut parts: Vec<ContentPart> = Vec::new();
        assert(parts.deep_view() =~= answers.take(0));
        for result in it: results
            invariant
                it.seq() == results@,
                answers == answer_values(results@).map_values(
                    |r: (Seq<char>, Seq<char>)| answer_part(r),
                ),
                parts.deep_view() == answers.take(it.index() as int),
        {
            let ghost k = it.index() as int;
            let ghost before = parts.deep_view();
            parts.push(ContentPart::ToolResult { tool_use_id: result.0, content: result.1 });
            assert(parts.deep_view() =~= before.push(answers[k]));
            assert(answers.take(k + 1) =~= answers.take(k).push(answers[k]));
        }
        assert(answers.take(answers.len() as int) =~= answers);
        assert(answers + pictures.take(0) =~= answers);
        for image in jt: images
            invariant
                jt.seq() == images@,
                pictures == images.deep_view(),
                parts.deep_view() == answers + pictures.take(jt.index() as int),
        {
            let ghost k = jt.index() as int;
            let ghost before = parts.deep_view();
            parts.push(
                ContentPart::Image {
                    media_type: image.media_type,
                    data_base64: image.data_base64,
                },
            );
            assert(parts.deep_view() =~= before.push(pictures[k]));
            assert(answers + pictures.take(k + 1) =~= (answers + pictures.take(k)).push(
                pictures[k],
            ));
        }
        assert(pictures.take(pictures.len() as int) =~= pictures);
        ChatMessage { role: Role::User, parts, input_kind: None, user_id: None }
    }

    /// The message that answers a round's calls.
    pub fn round_results(results: Vec<(String, ToolOutput)>) -> (r: ChatMessage)
        ensures
            r@ == tool_result_message(result_values(results@)),
    {
        let ghost all = result_values(results@);
        let mut texts: Vec<(String, String)> = Vec::new();
        let mut images: Vec<ToolImage> = Vec::new();
        assert(images.deep_view() =~= all_images(all.take(0)));
        for result in it: results
            invariant
                it.seq() == results@,
                all == result_values(results@),
                texts.len() == it.index(),
                forall|k: int|
                    0 <= k < texts.len() ==> (#[trigger] texts@[k]).0@ == all[k].0 && texts@[k].1@
                        == all[k].1.text,
                images.deep_view() == all_images(all.take(it.index() as int)),
        {
            let ghost k = it.index() as int;
            let ghost shown = images.deep_view();
            let (id, output) = result;
            let ghost ov = output@;
            texts.push((id, output.text));
            let mut fresh = output.images;
            let ghost new = fresh.deep_view();
            images.append(&mut fresh);
            proof {
                assert(images.deep_view() =~= shown + new);
                assert(all.take(k + 1).drop_last() =~= all.take(k));
                assert(all.take(k + 1).last() == all[k]);
                assert(all[k].1 == ov);
            }
        }
        proof {
            assert(all.take(all.len() as int) =~= all);
            assert(answer_values(texts@).map_values(|r: (Seq<char>, Seq<char>)| answer_part(r))
                =~= all.map_values(|r: (Seq<char>, OutputView)| result_part(r)));
        }
        ChatMessage::tool_results_with_images(texts, images)
    }

    /// A copy of the message.
    pub fn copy(&self) -> (r: ChatMessage)
        ensures
            r@ == self@,
    {
        let mut parts: Vec<ContentPart> = Vec::new();
        let mut i: usize = 0;
        while i < self.parts.len()
            invariant
                i <= self.parts.len(),
                parts.len() == i,
                forall|k: int| 0 <= k < i ==> #[trigger] parts@[k]@ == self.parts@[k]@,
            decreases self.parts.len() - i,
        {
            parts.push(self.parts[i].copy());
            i += 1;
        }
        assert(parts.deep_view() =~= self.parts.deep_view());
        ChatMessage {
            role: self.role,
            parts,
            input_kind: self.input_kind,
            user_id: text::copy_option(&self.user_id),
        }
    }
}

/// A copy of a conversation.
pub fn copy_messages(messages: &Vec<ChatMessage>) -> (r: Vec<ChatMessage>)
    ensures
        r.deep_view() == messages.deep_view(),
{
    let mut r: Vec<ChatMessage> = Vec::new();
    let mut i: usize = 0;
    while i < messages.len()
        invariant
            i <= messages.len(),
            r.len() == i,
            forall|k: int| 0 <= k < i ==> #[trigger] r@[k]@ == messages@[k]@,
        decreases messages.len() - i,
    {
        r.push(messages[i].copy());
        i += 1;
    }
    assert(r.deep_view() =~= messages.deep_view());
    r
}

/// Whether the part at `i` is the first that is text.
pub open spec fn is_first_text(parts: Seq<PartView>, i: int) -> bool {
    &&& 0 <= i < parts.len()
    &&& parts[i] is Text
    &&& forall|k: int| 0 <= k < i ==> !(#[trigger] parts[k] is Text)
}

/// The parts of a spoken message with the note that it was spoken: in front of its
/// first text, or as a text of its own where it has none.
pub open spec fn spoken_parts(parts: Seq<PartView>) -> Seq<PartView> {
    if exists|i: int| is_first_text(parts, i) {
        let i = choose|i: int| is_first_text(parts, i);
        parts.update(i, PartView::Text("[voice input]\n"@ + parts[i]->Text_0))
    } else {
        parts.insert(0, PartView::Text("[voice input]"@))
    }
}

/// A message as the model is shown it.
pub open spec fn labelled(msg: MessageView) -> MessageView {
    if msg.input_kind == Some(UserInputKind::Voice) {
        MessageView { parts: spoken_parts(msg.parts), ..msg }
    } else {
        msg
    }
}

proof fn lemma_first_text_is_one(parts: Seq<PartView>, i: int, k: int)
    requires
        is_first_text(parts, i),
        is_first_text(parts, k),
    ensures
        i == k,
{
    if i < k {
        assert(!(parts[i] is Text));
    } else if k < i {
        assert(!(parts[k] is Text));
    }
}

/// Rewrites a message so that the model sees that it was spoken. A message that
/// was typed, or of which that is not known, stays as it is.
pub fn apply_input_kind_label(msg: ChatMessage) -> (r: ChatMessage)
    ensures
        r@ == labelled(msg@),
{
    match msg.input_kind {
        Some(UserInputKind::Voice) => {},
        _ => {
            return msg;
        },
    }
    let ghost before = msg@;
    let mut parts = msg.parts;
    let mut i: usize = 0;
    while i < parts.len()
        invariant
            i <= parts.len(),
            parts.deep_view() == before.parts,
            before == msg@,
            before.input_kind == Some(UserInputKind::Voice),
            forall|k: int| 0 <= k < i ==> !(#[trigger] before.parts[k] is Text),
        decreases parts.len() - i,
    {
        let spoken: Option<String> = match &parts[i] {
            ContentPart::Text(t) => Some("[voice input]\n".to_owned().concat(t.as_str())),
            _ => None,
        };
        assert(before.parts[i as int] == parts@[i as int]@);
        if let Some(t) = spoken {
            proof {
                assert(is_first_text(before.parts, i as int));
                let j = choose|j: int| is_first_text(before.parts, j);
                lemma_first_text_is_one(before.parts, i as int, j);
            }
            parts.set(i, ContentPart::Text(t));
            assert(parts.deep_view() =~= spoken_parts(before.parts));
            return ChatMessage {
                role: msg.role,
                parts,
                input_kind: msg.input_kind,
                user_id: msg.user_id,
            };
        }
        i += 1;
    }
    assert forall|k: int| !is_first_text(before.parts, k) by {}
    parts.insert(0, ContentPart::Text("[voice input]".to_owned()));
    assert(parts.deep_view() =~= spoken_parts(before.parts));
    ChatMessage { role: msg.role, parts, input_kind: msg.input_kind, user_id: msg.user_id }
}

/// A conversation as the model is shown it.
pub fn label_history(messages: Vec<ChatMessage>) -> (r: Vec<ChatMessage>)
    ensures
        r.deep_view() == messages.deep_view().map_values(|m: MessageView| labelled(m)),
{
    let ghost want = messages.deep_view().map_values(|m: MessageView| labelled(m));
    let mut r: Vec<ChatMessage> = Vec::new();
    assert(r.deep_view() =~= want.take(0));
    for m in it: messages
        invariant
            it.seq() == messages@,
            want == messages.deep_view().map_values(|m: MessageView| labelled(m)),
            r.deep_view() == want.take(it.index() as int),
    {
        let ghost k = it.index() as int;
        let ghost before = r.deep_view();
        r.push(apply_input_kind_label(m));
        assert(r.deep_view() =~= before.push(want[k]));
        assert(want.take(k + 1) =~= want.take(k).push(want[k]));
    }
    assert(want.take(want.len() as int) =~= want);
    r
}

/// Whether a part is still all there: a text as the end of a text, any other part
/// as it was.
pub open spec fn kept(before: PartView, after: PartView) -> bool {
    match before {
        PartView::Text(t) => match after {
            PartView::Text(u) => exists|head: Seq<char>| u == #[trigger] (head + t),
            _ => false,
        },
        _ => after == before,
    }
}

/// A label loses nothing: every part of a message is still all there in what the
/// model is shown of it.
pub proof fn label_keeps_every_part(msg: MessageView, i: int)
    requires
        0 <= i < msg.parts.len(),
    ensures
        exists|k: int|
            0 <= k < labelled(msg).parts.len() && kept(
                msg.parts[i],
                #[trigger] labelled(msg).parts[k],
            ),
{
    let l = labelled(msg).parts;
    if msg.parts[i] is Text {
        let t = msg.parts[i]->Text_0;
        assert(t =~= Seq::<char>::empty() + t);
    }
    assert(kept(msg.parts[i], msg.parts[i]));
    if msg.input_kind == Some(UserInputKind::Voice) {
        if exists|j: int| is_first_text(msg.parts, j) {
            assert(kept(msg.parts[i], l[i]));
        } else {
            if msg.parts[i] is Text {
                lemma_some_first_text(msg.parts, i);
            }
            assert(kept(msg.parts[i], l[i + 1]));
        }
    } else {
        assert(kept(msg.parts[i], l[i]));
    }
}

proof fn lemma_some_first_text(parts: Seq<PartView>, i: int)
    requires
        0 <= i < parts.len(),
        parts[i] is Text,
    ensures
        exists|k: int| is_first_text(parts, k),
    decreases i,
{
    if forall|k: int| 0 <= k < i ==> !(#[trigger] parts[k] is Text) {
        assert(is_first_text(parts, i));
    } else {
        let k = choose|k: int| 0 <= k < i && #[trigger] parts[k] is Text;
        lemma_some_first_text(parts, k);
    }
}

/// Whether two parts are of one kind and hold the same.
pub open spec fn alike(a: ContentPart, b: ContentPart) -> bool {
    match a {
        ContentPart::Text(t) => b matches ContentPart::Text(u) && u@ == t@,
        ContentPart::Image { media_type, data_base64 } => {
            &&& b is Image
            &&& b->Image_media_type@ == media_type@
            &&& b->data_base64@ == data_base64@
        },
        ContentPart::ImageRef { media_type, sha256 } => {
            &&& b is ImageRef
            &&& b->ImageRef_media_type@ == media_type@
            &&& b->ImageRef_sha256@ == sha256@
        },
        ContentPart::ToolUse { id, name, input } => {
            &&& b is ToolUse
            &&& b->ToolUse_id@ == id@
            &&& b->ToolUse_name@ == name@
            &&& b->input@ == input@
        },
        ContentPart::ToolUseRef { id, name, sha256 } => {
            &&& b is ToolUseRef
            &&& b->ToolUseRef_id@ == id@
            &&& b->ToolUseRef_name@ == name@
            &&& b->ToolUseRef_sha256@ == sha256@
        },
        ContentPart::ToolResult { tool_use_id, content } => {
            &&& b is ToolResult
            &&& b->ToolResult_tool_use_id@ == tool_use_id@
            &&& b->content@ == content@
        },
        ContentPart::ToolResultRef { tool_use_id, sha256 } => {
            &&& b is ToolResultRef
            &&& b->ToolResultRef_tool_use_id@ == tool_use_id@
            &&& b->ToolResultRef_sha256@ == sha256@
        },
    }
}

/// Two messages of one value say the same: from the same role, with as many parts,
/// each of the same kind and with the same in it.
pub proof fn messages_of_one_value_are_alike(a: ChatMessage, b: ChatMessage, i: int)
    requires
        a@ == b@,
    ensures
        a.role == b.role,
        a.input_kind == b.input_kind,
        a.user_id is Some <==> b.user_id is Some,
        a.user_id is Some ==> a.user_id.unwrap()@ == b.user_id.unwrap()@,
        a.parts.len() == b.parts.len(),
        0 <= i < a.parts.len() ==> alike(a.parts@[i], b.parts@[i]),
{
    assert(a.parts.deep_view().len() == b.parts.deep_view().len());
    if 0 <= i < a.parts.len() {
        assert(a.parts.deep_view()[i] == b.parts.deep_view()[i]);
        assert(a.parts@[i]@ == b.parts@[i]@);
    }
}

/// Two conversations of one value hold as many messages, each of the same value.
pub proof fn conversations_of_one_value_are_alike(
    a: Vec<ChatMessage>,
    b: Vec<ChatMessage>,
    i: int,
)
    requires
        a.deep_view() == b.deep_view(),
    ensures
        a.len() == b.len(),
        0 <= i < a.len() ==> a@[i]@ == b@[i]@,
{
    assert(a.deep_view().len() == a@.len());
    assert(b.deep_view().len() == b@.len());
    if 0 <= i < a.len() {
        assert(a.deep_view()[i] == a@[i]@);
        assert(b.deep_view()[i] == b@[i]@);
    }
}

/// A copy of a message says all that the message does.
pub proof fn copies_are_alike(msg: ChatMessage, copied: ChatMessage, i: int)
    requires
        call_ensures(ChatMessage::copy, (&msg,), copied),
    ensures
        copied.role == msg.role,
        copied.input_kind == msg.input_kind,
        copied.parts.len() == msg.parts.len(),
        0 <= i < msg.parts.len() ==> alike(msg.parts@[i], copied.parts@[i]),
{
    messages_of_one_value_are_alike(msg, copied, i);
}

/// A message of one text holds that text and nothing else, from whom it is.
pub proof fn texts_make_messages(
    text: &str,
    typed: ChatMessage,
    spoken: ChatMessage,
    said: ChatMessage,
)
    requires
        call_ensures(ChatMessage::user, (text,), typed),
        call_ensures(ChatMessage::user_voice, (text,), spoken),
        call_ensures(ChatMessage::assistant, (text,), said),
    ensures
        typed.role == Role::User && typed.input_kind == Some(UserInputKind::Text),
        spoken.role == Role::User && spoken.input_kind == Some(UserInputKind::Voice),
        said.role == Role::Assistant && said.input_kind is None,
        typed.user_id is None && spoken.user_id is None && said.user_id is None,
        typed.parts.len() == 1 && typed.parts@[0] is Text && typed.parts@[0]->Text_0@ == text@,
        spoken.parts.len() == 1 && spoken.parts@[0] is Text && spoken.parts@[0]->Text_0@ == text@,
        said.parts.len() == 1 && said.parts@[0] is Text && said.parts@[0]->Text_0@ == text@,
{
    assert(typed.parts.deep_view().len() == typed.parts@.len());
    assert(spoken.parts.deep_view().len() == spoken.parts@.len());
    assert(said.parts.deep_view().len() == said.parts@.len());
    assert(typed.parts.deep_view()[0] == typed.parts@[0]@);
    assert(spoken.parts.deep_view()[0] == spoken.parts@[0]@);
    assert(said.parts.deep_view()[0] == said.parts@[0]@);
}

/// A message that asks for calls holds its prose, where there is any, and then every
/// call, in order and whole.
pub proof fn calls_are_asked_for_whole(
    text: Option<String>,
    calls: Vec<ToolCall>,
    r: ChatMessage,
    i: int,
)
    requires
        call_ensures(ChatMessage::assistant_with_tools, (text, calls), r),
    ensures
        ({
            let head: int = if text is Some {
                1
            } else {
                0
            };
            &&& r.role == Role::Assistant
            &&& r.input_kind is None
            &&& r.user_id is None
            &&& r.parts.len() == head + calls.len()
            &&& text is Some ==> r.parts@[0] is Text && r.parts@[0]->Text_0@ == text.unwrap()@
            &&& 0 <= i < calls.len() ==> {
                let part = r.parts@[head + i];
                &&& part is ToolUse
                &&& part->ToolUse_id@ == calls@[i].id@
                &&& part->ToolUse_name@ == calls@[i].name@
                &&& part->input@ == calls@[i].input@
            }
        }),
{
    let head: int = if text is Some {
        1
    } else {
        0
    };
    let parts = r.parts.deep_view();
    assert(parts.len() == head + calls.deep_view().len());
    if text is Some {
        assert(parts[0] == r.parts@[0]@);
    }
    if 0 <= i < calls.len() {
        assert(parts[head + i] == r.parts@[head + i]@);
        assert(calls.deep_view()[i] == calls@[i]@);
        assert(parts[head + i] == use_part(calls.deep_view()[i]));
    }
}

/// A message that answers calls answers each with all of its text, in order, and then
/// shows every picture, in order and whole.
pub proof fn answers_are_given_in_full(
    results: Vec<(String, String)>,
    images: Vec<ToolImage>,
    r: ChatMessage,
    i: int,
)
    requires
        call_ensures(ChatMessage::tool_results_with_images, (results, images), r),
    ensures
        r.role == Role::User,
        r.input_kind is None,
        r.user_id is None,
        r.parts.len() == results.len() + images.len(),
        0 <= i < results.len() ==> {
            let part = r.parts@[i];
            &&& part is ToolResult
            &&& part->ToolResult_tool_use_id@ == results@[i].0@
            &&& part->content@ == results@[i].1@
        },
        0 <= i < images.len() ==> {
            let part = r.parts@[results.len() + i];
            &&& part is Image
            &&& part->Image_media_type@ == images@[i].media_type@
            &&& part->data_base64@ == images@[i].data_base64@
        },
{
    let parts = r.parts.deep_view();
    let n = results.len() as int;
    assert(parts.len() == n + images.deep_view().len());
    if 0 <= i < results.len() {
        assert(parts[i] == r.parts@[i]@);
        assert(answer_values(results@)[i] == (results@[i].0@, results@[i].1@));
        assert(parts[i] == answer_part(answer_values(results@)[i]));
    }
    if 0 <= i < images.len() {
        assert(parts[n + i] == r.parts@[n + i]@);
        assert(parts[n + i] == images.deep_view()[i]);
        assert(images.deep_view()[i] == images@[i].deep_view());
    }
}

/// Where a picture stands among all of a round.
pub proof fn lemma_image_place(results: Seq<(Seq<char>, OutputView)>, i: int, j: int)
    requires
        0 <= i < results.len(),
        0 <= j < results[i].1.images.len(),
    ensures
        ({
            let before = sum_of(
                results.take(i),
                |r: (Seq<char>, OutputView)| r.1.images.len(),
            );
            &&& before + j < all_images(results).len()
            &&& all_images(results)[before + j] == results[i].1.images[j]
        }),
    decreases results.len(),
{
    let count = |r: (Seq<char>, OutputView)| r.1.images.len();
    lemma_image_count(results.drop_last());
    if i == results.len() - 1 {
        assert(results.take(i) =~= results.drop_last());
    } else {
        lemma_image_place(results.drop_last(), i, j);
        assert(results.drop_last().take(i) =~= results.take(i));
    }
}

/// How many pictures a round has.
pub proof fn lemma_image_count(results: Seq<(Seq<char>, OutputView)>)
    ensures
        all_images(results).len() == sum_of(
            results,
            |r: (Seq<char>, OutputView)| r.1.images.len(),
        ),
    decreases results.len(),
{
    if results.len() > 0 {
        lemma_image_count(results.drop_last());
    }
}

/// The message that answers a round answers each call with all of its output's text,
/// in order, and then shows every picture of every output, in order.
pub proof fn rounds_are_answered_in_full(
    results: Vec<(String, ToolOutput)>,
    r: ChatMessage,
    i: int,
    j: int,
)
    requires
        call_ensures(ChatMessage::round_results, (results,), r),
    ensures
        ({
            let pictures = |v: (String, ToolOutput)| v.1.images@.len();
            let first = results.len() + sum_of(results@.take(i), pictures);
            &&& r.role == Role::User
            &&& r.input_kind is None
            &&& r.user_id is None
            &&& r.parts.len() == results.len() + sum_of(results@, pictures)
            &&& 0 <= i < results.len() ==> {
                let part = r.parts@[i];
                &&& part is ToolResult
                &&& part->ToolResult_tool_use_id@ == results@[i].0@
                &&& part->content@ == results@[i].1.text@
            }
            &&& 0 <= i < results.len() && 0 <= j < results@[i].1.images.len() ==> {
                let part = r.parts@[first + j];
                &&& part is Image
                &&& part->Image_media_type@ == results@[i].1.images@[j].media_type@
                &&& part->data_base64@ == results@[i].1.images@[j].data_base64@
            }
        }),
{
    let pictures = |v: (String, ToolOutput)| v.1.images@.len();
    let values = result_values(results@);
    let parts = r.parts.deep_view();
    let n = results.len() as int;
    lemma_image_count(values);
    lemma_sums_agree(results@);
    assert(parts.len() == n + all_images(values).len());
    if 0 <= i < n {
        assert(parts[i] == r.parts@[i]@);
        assert(parts[i] == result_part(values[i]));
        if 0 <= j < results@[i].1.images.len() {
            let first = sum_of(results@.take(i), pictures);
            lemma_image_place(values, i, j);
            lemma_sums_agree(results@.take(i));
            assert(result_values(results@.take(i)) =~= values.take(i));
            assert(values[i].1.images.len() == results@[i].1.images.len());
            assert(parts[n + first + j] == all_images(values)[first + j]);
            assert(parts[n + first + j] == r.parts@[n + first + j]@);
            assert(values[i].1.images[j] == results@[i].1.images@[j].deep_view());
        }
    }
}

proof fn lemma_sums_agree(results: Seq<(String, ToolOutput)>)
    ensures
        sum_of(results, |v: (String, ToolOutput)| v.1.images@.len()) == sum_of(
            result_values(results),
            |r: (Seq<char>, OutputView)| r.1.images.len(),
        ),
    decreases results.len(),
{
    if results.len() > 0 {
        lemma_sums_agree(results.drop_last());
        assert(result_values(results).drop_last() =~= result_values(results.drop_last()));
        assert(result_values(results).last().1.images.len() == results.last().1.images@.len());
    }
}

/// A message that was not spoken is shown as it is. One that was is shown with a note
/// of that in front of its first text, or as a first text of its own where it has
/// none; nothing else of it changes.
pub proof fn only_speech_is_labelled(msg: ChatMessage, r: ChatMessage, i: int)
    requires
        call_ensures(apply_input_kind_label, (msg,), r),
        0 <= i < msg.parts.len(),
    ensures
        r.role == msg.role,
        r.input_kind == msg.input_kind,
        r.user_id is Some <==> msg.user_id is Some,
        r.user_id is Some ==> r.user_id.unwrap()@ == msg.user_id.unwrap()@,
        msg.input_kind != Some(UserInputKind::Voice) ==> r.parts.len() == msg.parts.len() && alike(
            msg.parts@[i],
            r.parts@[i],
        ),
        msg.input_kind == Some(UserInputKind::Voice) && (exists|k: int|
            0 <= k < msg.parts.len() && #[trigger] msg.parts@[k] is Text) ==> {
            &&& r.parts.len() == msg.parts.len()
            &&& if msg.parts@[i] is Text && (forall|k: int|
                0 <= k < i ==> !(#[trigger] msg.parts@[k] is Text)) {
                &&& r.parts@[i] is Text
                &&& r.parts@[i]->Text_0@ == "[voice input]\n"@ + msg.parts@[i]->Text_0@
            } else {
                alike(msg.parts@[i], r.parts@[i])
            }
        },
        msg.input_kind == Some(UserInputKind::Voice) && (forall|k: int|
            0 <= k < msg.parts.len() ==> !(#[trigger] msg.parts@[k] is Text)) ==> {
            &&& r.parts.len() == msg.parts.len() + 1
            &&& r.parts@[0] is Text
            &&& r.parts@[0]->Text_0@ == "[voice input]"@
            &&& alike(msg.parts@[i], r.parts@[i + 1])
        },
{
    let parts = msg.parts.deep_view();
    let shown = r.parts.deep_view();
    assert(parts.len() == msg.parts.len());
    assert(shown.len() == r.parts.len());
    assert forall|k: int| 0 <= k < parts.len() implies (#[trigger] parts[k]) is Text
        == msg.parts@[k] is Text by {}
    assert(parts[i] == msg.parts@[i]@);
    if i < r.parts.len() {
        assert(shown[i] == r.parts@[i]@);
    }
    if i + 1 < r.parts.len() {
        assert(shown[i + 1] == r.parts@[i + 1]@);
    }
    if msg.input_kind == Some(UserInputKind::Voice) {
        if exists|k: int| 0 <= k < msg.parts.len() && #[trigger] msg.parts@[k] is Text {
            let k = choose|k: int| 0 <= k < msg.parts.len() && #[trigger] msg.parts@[k] is Text;
            assert(parts[k] is Text);
            lemma_some_first_text(parts, k);
            let first = choose|f: int| is_first_text(parts, f);
            if msg.parts@[i] is Text && (forall|k: int|
                0 <= k < i ==> !(#[trigger] msg.parts@[k] is Text)) {
                assert(is_first_text(parts, i));
                lemma_first_text_is_one(parts, i, first);
            } else {
                assert(first != i) by {
                    if first == i {
                        assert forall|k: int| 0 <= k < i implies !(#[trigger] msg.parts@[k] is Text)
                            by {
                            assert(!(parts[k] is Text));
                        }
                    }
                }
                assert(shown[i] == parts[i]);
            }
        } else {
            assert forall|k: int| !is_first_text(parts, k) by {
                if is_first_text(parts, k) {
                    assert(msg.parts@[k] is Text);
                }
            }
            assert(shown[0] == r.parts@[0]@);
            assert(shown[i + 1] == parts[i]);
        }
    }
}

/// A conversation is shown message by message, each as it is shown alone.
pub proof fn conversations_are_shown_one_by_one(
    messages: Vec<ChatMessage>,
    r: Vec<ChatMessage>,
    i: int,
    msg: ChatMessage,
    alone: ChatMessage,
)
    requires
        call_ensures(label_history, (messages,), r),
        0 <= i < messages.len(),
        msg@ == messages@[i]@,
        call_ensures(apply_input_kind_label, (msg,), alone),
    ensures
        r.len() == messages.len(),
        r@[i]@ == alone@,
{
    assert(r.deep_view().len() == r.len());
    assert(r.deep_view()[i] == r@[i]@);
    assert(messages.deep_view()[i] == messages@[i]@);
}

/// A message without parts is shown without any, unless it was spoken: that is shown
/// as the note of it alone.
pub proof fn speech_without_parts_is_labelled(msg: ChatMessage, r: ChatMessage)
    requires
        call_ensures(apply_input_kind_label, (msg,), r),
        msg.parts.len() == 0,
    ensures
        r.role == msg.role,
        r.input_kind == msg.input_kind,
        msg.input_kind != Some(UserInputKind::Voice) ==> r.parts.len() == 0,
        msg.input_kind == Some(UserInputKind::Voice) ==> r.parts.len() == 1 && r.parts@[0] is Text
            && r.parts@[0]->Text_0@ == "[voice input]"@,
{
    assert(msg.parts.deep_view().len() == 0);
    assert(r.parts.deep_view().len() == r.parts.len());
    if msg.input_kind == Some(UserInputKind::Voice) {
        assert(forall|k: int| !is_first_text(msg.parts.deep_view(), k));
        assert(r.parts.deep_view()[0] == r.parts@[0]@);
    }
}

/// A copy of a part, of a call or of a list of either holds all that it was made from,
/// in order; and a plain output is its text, all of it, without pictures.
pub proof fn copies_hold_everything(
    part: ContentPart,
    part_copy: ContentPart,
    call: ToolCall,
    call_copy: ToolCall,
    calls: Vec<ToolCall>,
    calls_copy: Vec<ToolCall>,
    messages: Vec<ChatMessage>,
    messages_copy: Vec<ChatMessage>,
    text: String,
    output: ToolOutput,
    i: int,
)
    requires
        call_ensures(ContentPart::copy, (&part,), part_copy),
        call_ensures(ToolCall::copy, (&call,), call_copy),
        call_ensures(copy_calls, (&calls,), calls_copy),
        call_ensures(copy_messages, (&messages,), messages_copy),
        call_ensures(ToolOutput::plain, (text,), output),
    ensures
        alike(part, part_copy),
        call_copy.id@ == call.id@ && call_copy.name@ == call.name@ && call_copy.input@
            == call.input@,
        calls_copy.len() == calls.len(),
        0 <= i < calls.len() ==> calls_copy@[i].id@ == calls@[i].id@ && calls_copy@[i].name@
            == calls@[i].name@ && calls_copy@[i].input@ == calls@[i].input@,
        messages_copy.len() == messages.len(),
        0 <= i < messages.len() ==> messages_copy@[i]@ == messages@[i]@,
        output.text@ == text@,
        output.images.len() == 0,
{
    assert(calls.deep_view().len() == calls.len());
    assert(calls_copy.deep_view().len() == calls_copy.len());
    if 0 <= i < calls.len() {
        assert(calls.deep_view()[i] == calls@[i]@);
        assert(calls_copy.deep_view()[i] == calls_copy@[i]@);
    }
    conversations_of_one_value_are_alike(messages, messages_copy, i);
    assert(output@.images.len() == output.images.len());
}

} // verus!
