//! Titles of sessions.

use vstd::prelude::*;

use crate::message::{text_message, ChatMessage, Role, UserInputKind};
use crate::text;

verus! {

/// The most characters that a title has.
pub const TITLE_CHARS: usize = 60;

/// The most characters of a message that a title is made from.
pub const SNIPPET_CHARS: usize = 300;

/// What the model is asked for a title.
pub open spec fn title_prompt_text(user: Seq<char>, assistant: Seq<char>) -> Seq<char> {
    "Generate a concise title (max 60 characters) for this conversation. Respond with only the title text — no quotes, no punctuation at the end.\n\nUser: "@
        + text::first(user, SNIPPET_CHARS as nat) + "\nAssistant: "@ + text::first(
        assistant,
        SNIPPET_CHARS as nat,
    )
}

/// The message that asks the model for a title of a conversation.
pub fn title_prompt(user_message: &str, assistant_response: &str) -> (r: ChatMessage)
    ensures
        r@ == text_message(
            Role::User,
            title_prompt_text(user_message@, assistant_response@),
            Some(UserInputKind::Text),
        ),
{
    let head =
        "Generate a concise title (max 60 characters) for this conversation. Respond with only the title text — no quotes, no punctuation at the end.\n\nUser: ";
    let prompt = head.to_owned().concat(text::first_chars(user_message, SNIPPET_CHARS)).concat(
        "\nAssistant: ",
    ).concat(text::first_chars(assistant_response, SNIPPET_CHARS));
    ChatMessage::user(prompt.as_str())
}

/// A title as it is kept.
pub open spec fn title_of(text: Seq<char>) -> Seq<char> {
    text::first(text::trimmed(text), TITLE_CHARS as nat)
}

/// The title that the model's answer gives, without white space at its ends and no
/// longer than a title may be. An answer without text gives none.
pub fn title_from(answer: Option<String>) -> (r: Option<String>)
    ensures
        r.deep_view() == match answer {
            Some(t) => Some(title_of(t@)),
            None => None,
        },
{
    match answer {
        Some(t) => Some(text::first_chars(text::trim(t.as_str()), TITLE_CHARS).to_owned()),
        None => None,
    }
}

/// Whether a title is to be made after a turn: after the first one of a session, if
/// it gave an answer.
pub fn wants_title(was_first_turn: bool, text: &Option<String>) -> (r: bool)
    ensures
        r == (was_first_turn && text is Some),
{
    was_first_turn && text.is_some()
}

/// No title is longer than a title may be.
pub proof fn titles_are_short(text: Seq<char>)
    ensures
        title_of(text).len() <= TITLE_CHARS,
{
}

/// The model is asked in one text of a user's. It holds what is asked for, then the
/// start of what the user said, then the start of what was answered: all of it up to
/// three hundred characters.
pub proof fn titles_are_asked_for_with_both_sides(user: &str, assistant: &str, r: ChatMessage)
    requires
        call_ensures(title_prompt, (user, assistant), r),
    ensures
        ({
            let said = if user@.len() <= 300 {
                user@
            } else {
                user@.take(300)
            };
            let answered = if assistant@.len() <= 300 {
                assistant@
            } else {
                assistant@.take(300)
            };
            &&& r.role == Role::User
            &&& r.parts.len() == 1
            &&& r.parts@[0] is Text
            &&& r.parts@[0]->Text_0@
                == "Generate a concise title (max 60 characters) for this conversation. Respond with only the title text — no quotes, no punctuation at the end.\n\nUser: "@
                + said + "\nAssistant: "@ + answered
        }),
{
    assert(r.parts.deep_view().len() == r.parts.len());
    assert(r.parts.deep_view()[0] == r.parts@[0]@);
}

/// A title is the answer without the white space at its ends: all of it up to sixty
/// characters. There is one exactly where there is an answer. What is given back is
/// what the answer is made of: white space, what is kept of it or cut, white space.
pub proof fn titles_are_what_was_answered(answer: Option<String>, r: Option<String>) -> (w: (
    Seq<char>,
    Seq<char>,
    Seq<char>,
))
    requires
        call_ensures(title_from, (answer,), r),
    ensures
        r is Some <==> answer is Some,
        answer is Some ==> {
            &&& answer.unwrap()@ == w.0 + w.1 + w.2
            &&& forall|i: int| 0 <= i < w.0.len() ==> text::is_white(#[trigger] w.0[i])
            &&& forall|i: int| 0 <= i < w.2.len() ==> text::is_white(#[trigger] w.2[i])
            &&& w.1.len() > 0 ==> !text::is_white(w.1[0]) && !text::is_white(w.1.last())
            &&& r.unwrap()@ == if w.1.len() <= 60 {
                w.1
            } else {
                w.1.take(60)
            }
        },
{
    if answer is Some {
        let (head, tail) = text::trimming_cuts_white_space_alone(answer.unwrap()@);
        assert(r.deep_view() is Some);
        assert(r.deep_view() == Some(r.unwrap()@));
        (head, text::trimmed(answer.unwrap()@), tail)
    } else {
        assert(r.deep_view() is None);
        (Seq::empty(), Seq::empty(), Seq::empty())
    }
}

/// A title is made after the first turn of a session that gave an answer, and after no
/// other.
pub proof fn first_turns_make_titles(was_first_turn: bool, text: Option<String>, r: bool)
    requires
        call_ensures(wants_title, (was_first_turn, &text), r),
    ensures
        r <==> was_first_turn && text is Some,
{
}

} // verus!
