//! The decisions of a chat session and of its history views.

use vstd::prelude::*;
use crate::err::{Error, Oops};
use crate::openai::{Message, Role, role_label};
use crate::text::{push_char, views};

verus! {

/// Where the chat to continue comes from.
#[derive(Debug, Clone, Copy, PartialEq, Eq, Structural)]
pub enum ChatIdSource {
    /// The chat the user asked to resume.
    Resume,
    /// A new chat.
    New,
    /// The active chat, or a new one when none is active.
    Active,
}

/// The message for asking to start a new chat and resume one at once.
pub const NEW_AND_RESUME: &'static str = "Cannot specify --new and --resume together.";

/// The message for an empty prompt.
pub const EMPTY_PROMPT: &'static str = "Prompt is empty!";

/// Decides which chat a session continues; asking for a new chat and for
/// resuming one at once is an error.
pub fn chat_id_source(new: bool, resume_given: bool) -> (r: Result<ChatIdSource, Error>)
    ensures
        (new && resume_given) ==> (r matches Err(e) && e@ == seq![(Oops::ChatError, Some(NEW_AND_RESUME@))]),
        (!new && resume_given) ==> r == Ok::<ChatIdSource, Error>(ChatIdSource::Resume),
        (new && !resume_given) ==> r == Ok::<ChatIdSource, Error>(ChatIdSource::New),
        (!new && !resume_given) ==> r == Ok::<ChatIdSource, Error>(ChatIdSource::Active),
{
    if new && resume_given {
        let e = Error::new().wrap(Oops::ChatError).because(NEW_AND_RESUME.to_owned());
        proof {
            assert(e@ =~= seq![(Oops::ChatError, Some(NEW_AND_RESUME@))]);
        }
        Err(e)
    } else if resume_given {
        Ok(ChatIdSource::Resume)
    } else if new {
        Ok(ChatIdSource::New)
    } else {
        Ok(ChatIdSource::Active)
    }
}

/// Decides whether the prompt is sent: an empty prompt ends a session that
/// only started a new chat, and is an error otherwise.
pub fn prompt_outcome(prompt_empty: bool, new: bool) -> (r: Result<bool, Error>)
    ensures
        !prompt_empty ==> r == Ok::<bool, Error>(true),
        (prompt_empty && new) ==> r == Ok::<bool, Error>(false),
        (prompt_empty && !new) ==> (r matches Err(e) && e@ == seq![(Oops::ChatError, Some(EMPTY_PROMPT@))]),
{
    if !prompt_empty {
        Ok(true)
    } else if new {
        Ok(false)
    } else {
        let e = Error::new().wrap(Oops::ChatError).because(EMPTY_PROMPT.to_owned());
        proof {
            assert(e@ =~= seq![(Oops::ChatError, Some(EMPTY_PROMPT@))]);
        }
        Err(e)
    }
}

/// Words joined with a space between each two of them.
pub open spec fn joined_words(words: Seq<Seq<char>>) -> Seq<char>
    decreases words.len(),
{
    if words.len() == 0 {
        Seq::empty()
    } else if words.len() == 1 {
        words[0]
    } else {
        joined_words(words.drop_last()) + seq![' '] + words.last()
    }
}

/// The prompt's words joined with spaces.
pub fn join_prompt(prompt: &Vec<String>) -> (r: String)
    ensures
        r@ == joined_words(views(prompt@)),
{
    let mut out = String::new();
    let mut i: usize = 0;
    while i < prompt.len()
        invariant
            i <= prompt.len(),
            out@ == joined_words(views(prompt@).take(i as int)),
        decreases prompt.len() - i,
    {
        if i > 0 {
            push_char(&mut out, ' ');
        }
        out.append(prompt[i].as_str());
        proof {
            let w = views(prompt@);
            assert(w.take(i + 1).drop_last() == w.take(i as int));
            assert(w.take(i + 1).last() == prompt@[i as int]@);
            if i == 0 {
                assert(w.take(i + 1).len() == 1);
            }
            assert(out@ =~= joined_words(w.take(i + 1)));
        }
        i = i + 1;
    }
    proof {
        assert(views(prompt@).take(prompt@.len() as int) == views(prompt@));
    }
    out
}

/// The history with the user's prompt added: a history that is still empty
/// first gets the system prompt.
pub fn extend_conversation(messages: Vec<Message>, system_prompt: String, prompt: &Vec<String>) -> (r: Vec<
    Message,
>)
    ensures
        messages@.len() == 0 ==> (r@.len() == 2 && r@[0] == (Message { role: Role::System, content: Some(system_prompt), refusal: None })),
        messages@.len() > 0 ==> (r@.len() == messages@.len() + 1 && r@.take(messages@.len() as int)
            == messages@),
        r@.last().role == Role::User && r@.last().refusal is None,
        r@.last().content matches Some(c) && c@ == joined_words(views(prompt@)),
{
    let mut messages = messages;
    if messages.len() == 0 {
        messages.push(Message::new(Role::System, system_prompt));
    }
    let ghost before = messages@;
    messages.push(Message::new(Role::User, join_prompt(prompt)));
    proof {
        assert(messages@.take(before.len() as int) == before);
    }
    messages
}

/// Whether any of the messages has content.
pub open spec fn has_content(msgs: Seq<Message>) -> bool {
    exists|i: int| 0 <= i < msgs.len() && (#[trigger] msgs[i]).content is Some
}

/// One message of a recap: its role in brackets, then its content; content
/// that ends with a line break gets one more.
pub open spec fn recap_entry(role: Role, c: Seq<char>) -> Seq<char> {
    "["@ + role_label(role) + "]: "@ + c + if c.len() > 0 && c.last() == '\n' {
        seq!['\n']
    } else {
        Seq::empty()
    }
}

/// The recap of a conversation: the entries of the messages that have
/// content, separated by `"\n===\n"`.
pub open spec fn recap_of(msgs: Seq<Message>) -> Seq<char>
    decreases msgs.len(),
{
    if msgs.len() == 0 {
        Seq::empty()
    } else {
        let prev = recap_of(msgs.drop_last());
        match msgs.last().content {
            None => prev,
            Some(c) => if has_content(msgs.drop_last()) {
                prev + "\n===\n"@ + recap_entry(msgs.last().role, c@)
            } else {
                recap_entry(msgs.last().role, c@)
            },
        }
    }
}

/// Proof that messages without content recap to nothing.
proof fn lemma_recap_empty(msgs: Seq<Message>)
    requires
        !has_content(msgs),
    ensures
        recap_of(msgs) == Seq::<char>::empty(),
    decreases msgs.len(),
{
    if msgs.len() > 0 {
        let d = msgs.drop_last();
        assert(msgs[msgs.len() - 1].content is None);
        assert forall|k: int| 0 <= k < d.len() implies !((#[trigger] d[k]).content is Some) by {
            assert(d[k] == msgs[k]);
        }
        lemma_recap_empty(d);
    }
}

/// The text that recaps a conversation; see [`recap_of`].
pub fn recap_text(messages: &Vec<Message>) -> (r: String)
    ensures
        r@ == recap_of(messages@),
{
    let mut out = String::new();
    let mut any = false;
    let mut i: usize = 0;
    while i < messages.len()
        invariant
            i <= messages.len(),
            any == has_content(messages@.take(i as int)),
            out@ == recap_of(messages@.take(i as int)),
        decreases messages.len() - i,
    {
        let m = &messages[i];
        let ghost pre = messages@.take(i as int);
        let ghost cur = messages@.take(i + 1);
        assert(cur.drop_last() == pre);
        assert(cur.last() == *m);
        match &m.content {
            None => {
                proof {
                    if has_content(cur) {
                        let k = choose|k: int| 0 <= k < cur.len() && (#[trigger] cur[k]).content is Some;
                        assert(pre[k] == cur[k]);
                    }
                    if any {
                        let k = choose|k: int| 0 <= k < pre.len() && (#[trigger] pre[k]).content is Some;
                        assert(cur[k] == pre[k]);
                    }
                }
            },
            Some(c) => {
                let ghost before = out@;
                proof {
                    if !any {
                        lemma_recap_empty(pre);
                    }
                }
                if any {
                    out.append("\n===\n");
                }
                out.append("[");
                out.append(m.role.label());
                out.append("]: ");
                out.append(c.as_str());
                let n = c.as_str().unicode_len();
                if n > 0 && c.as_str().get_char(n - 1) == '\n' {
                    push_char(&mut out, '\n');
                }
                proof {
                    assert(cur[i as int].content is Some);
                    if any {
                        let k = choose|k: int| 0 <= k < pre.len() && (#[trigger] pre[k]).content is Some;
                        assert(cur[k] == pre[k]);
                    }
                    assert(out@ =~= recap_of(cur));
                }
                any = true;
            },
        }
        i = i + 1;
    }
    proof {
        assert(messages@.take(messages@.len() as int) == messages@);
    }
    out
}

} // verus!
