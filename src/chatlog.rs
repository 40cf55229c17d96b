//! The chat log: past conversations, most recently used first, each shown
//! by the first line of its latest user message.

use vstd::prelude::*;
use crate::openai::{Message, Role};
use crate::text::{chars_of, push_char, split_newlines, split_pieces, views, lemma_split_nonempty};

verus! {

/// `s` with conversation `i` placed after every conversation used no
/// earlier than it, and before the rest.
pub open spec fn insert_by_recency(s: Seq<usize>, i: usize, times: Seq<u128>) -> Seq<usize>
    decreases s.len(),
{
    if s.len() == 0 {
        seq![i]
    } else if times[s.last() as int] >= times[i as int] {
        s.push(i)
    } else {
        insert_by_recency(s.drop_last(), i, times).push(s.last())
    }
}

/// The first `n` conversations ordered by time of last use, latest first;
/// conversations used at the same time keep their order.
pub open spec fn recency_order_of(times: Seq<u128>, n: nat) -> Seq<usize>
    decreases n,
{
    if n == 0 {
        Seq::empty()
    } else {
        insert_by_recency(recency_order_of(times, (n - 1) as nat), (n - 1) as usize, times)
    }
}

/// Proof that inserting by recency puts the conversation where a backward
/// scan stops.
proof fn lemma_insert_recency_at(s: Seq<usize>, i: usize, times: Seq<u128>, j: int)
    requires
        0 <= j <= s.len(),
        forall|k: int| j <= k < s.len() ==> times[#[trigger] s[k] as int] < times[i as int],
        j == 0 || times[s[j - 1] as int] >= times[i as int],
    ensures
        insert_by_recency(s, i, times) == s.insert(j, i),
    decreases s.len(),
{
    if s.len() == 0 {
        assert(s.insert(j, i) =~= seq![i]);
    } else if times[s.last() as int] >= times[i as int] {
        assert(s.insert(j, i) =~= s.push(i));
    } else {
        lemma_insert_recency_at(s.drop_last(), i, times, j);
        assert(s.drop_last().insert(j, i).push(s.last()) =~= s.insert(j, i));
    }
}

/// Orders conversations by their time of last use, latest first; `times[k]`
/// is the time of conversation `k`, and the result lists conversation
/// indices.
pub fn recency_order(times: &Vec<u128>) -> (r: Vec<usize>)
    ensures
        r@ == recency_order_of(times@, times@.len()),
{
    let mut out: Vec<usize> = Vec::new();
    let mut i: usize = 0;
    while i < times.len()
        invariant
            i <= times.len(),
            out@ == recency_order_of(times@, i as nat),
            forall|k: int| 0 <= k < out@.len() ==> #[trigger] out@[k] < i,
        decreases times.len() - i,
    {
        let mut j: usize = out.len();
        while j > 0 && times[out[j - 1]] < times[i]
            invariant
                i < times.len(),
                j <= out.len(),
                forall|k: int| 0 <= k < out@.len() ==> #[trigger] out@[k] < i,
                forall|k: int| j <= k < out.len() ==> times@[#[trigger] out@[k] as int] < times@[i as int],
            decreases j,
        {
            j = j - 1;
        }
        proof {
            lemma_insert_recency_at(out@, i, times@, j as int);
        }
        out.insert(j, i);
        i = i + 1;
    }
    out
}

/// How many conversations the log shows for a limit: one more than the
/// limit, at most all of them.
pub open spec fn shown_count(limit: Option<usize>, len: usize) -> nat {
    let wanted: int = match limit {
        Some(l) => l + 1,
        None => len + 1,
    };
    if wanted < len { wanted as nat } else { len as nat }
}

/// How many conversations the log shows; see [`shown_count`].
pub fn recent_count(limit: Option<usize>, len: usize) -> (r: usize)
    ensures
        r == shown_count(limit, len),
{
    let wanted = match limit {
        Some(l) => l.saturating_add(1),
        None => len.saturating_add(1),
    };
    if wanted < len { wanted } else { len }
}

/// The index of the latest user message that has content.
pub open spec fn last_user_message(msgs: Seq<Message>) -> Option<int>
    decreases msgs.len(),
{
    if msgs.len() == 0 {
        None
    } else if msgs.last().role == Role::User && msgs.last().content is Some {
        Some(msgs.len() - 1)
    } else {
        last_user_message(msgs.drop_last())
    }
}

/// The message a conversation is shown by: its latest user message with
/// content, else its first message.
pub open spec fn summary_message(msgs: Seq<Message>) -> Option<Message> {
    match last_user_message(msgs) {
        Some(i) => Some(msgs[i]),
        None => if msgs.len() > 0 { Some(msgs[0]) } else { None },
    }
}

/// The log line of a conversation: its id, then the first line of the
/// message it is shown by, cut to `max_len` characters, then `"..."`. A
/// conversation whose message has no text gets no line.
pub open spec fn summary_of(id: Seq<char>, msgs: Seq<Message>, max_len: nat) -> Option<Seq<char>> {
    match summary_message(msgs) {
        Some(m) => match m.content {
            Some(c) => if c@.len() > 0 {
                let line = split_newlines(c@)[0];
                let cut = if line.len() <= max_len { line } else { line.take(max_len as int) };
                Some(id + " :: "@ + cut + "...\n"@)
            } else {
                None
            },
            None => None,
        },
        None => None,
    }
}

/// Finds the index of the latest user message that has content.
fn find_last_user(messages: &Vec<Message>) -> (r: Option<usize>)
    ensures
        match r {
            Some(i) => last_user_message(messages@) == Some(i as int),
            None => last_user_message(messages@) is None,
        },
        r matches Some(i) ==> i < messages@.len(),
{
    assert(messages@.take(messages@.len() as int) == messages@);
    let mut j: usize = messages.len();
    while j > 0
        invariant
            j <= messages.len(),
            last_user_message(messages@) == last_user_message(messages@.take(j as int)),
        decreases j,
    {
        let m = &messages[j - 1];
        assert(messages@.take(j as int).last() == *m);
        if m.role == Role::User && m.content.is_some() {
            return Some(j - 1);
        }
        assert(messages@.take(j as int).drop_last() == messages@.take(j - 1));
        j = j - 1;
    }
    None
}

/// The log line of a conversation; see [`summary_of`].
pub fn conversation_summary(id: &str, messages: &Vec<Message>, max_len: usize) -> (r: Option<String>)
    ensures
        match r {
            Some(s) => summary_of(id@, messages@, max_len as nat) == Some(s@),
            None => summary_of(id@, messages@, max_len as nat) is None,
        },
{
    proof {
        assert(messages@.take(messages@.len() as int) == messages@);
    }
    let m = match find_last_user(messages) {
        Some(i) => &messages[i],
        None => {
            if messages.len() == 0 {
                return None;
            }
            &messages[0]
        },
    };
    let c = match &m.content {
        Some(c) => c,
        None => return None,
    };
    if c.as_str().is_empty() {
        return None;
    }
    let pieces = split_pieces(c.as_str());
    proof {
        lemma_split_nonempty(c@);
        assert(pieces@[0]@ == views(pieces@)[0]);
    }
    let line = chars_of(pieces[0].as_str());
    let n = if line.len() <= max_len { line.len() } else { max_len };
    let mut out = id.to_owned();
    out.append(" :: ");
    let ghost head = out@;
    let mut k: usize = 0;
    while k < n
        invariant
            n <= line.len(),
            k <= n,
            out@ == head + line@.take(k as int),
        decreases n - k,
    {
        push_char(&mut out, line[k]);
        proof {
            assert(line@.take(k + 1) == line@.take(k as int).push(line@[k as int]));
        }
        k = k + 1;
    }
    out.append("...\n");
    proof {
        if line.len() <= max_len {
            assert(line@.take(n as int) == line@);
        }
    }
    Some(out)
}

} // verus!
