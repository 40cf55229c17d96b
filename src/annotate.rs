//! Rendering annotations as comments and merging them into a document.

use vstd::prelude::*;
use crate::err::{Error, Oops};
use crate::decode::{annotation_items, decode_response, decodes_to, well_shaped};
use crate::json::json_text;
use crate::openai::{Message, Role};
use crate::text::{
    doc_lines, join_lines, join_with_breaks, push_char, split_newlines, split_pieces, views,
    lemma_join_lines_append, lemma_join_lines_breaks, lemma_split_nonempty,
};

verus! {

/// The comment syntax that wraps every rendered annotation line.
pub struct FileTypeInfo {
    pub comment_suffix: String,
    pub comment_prefix: String,
}

impl FileTypeInfo {
    /// A style from an optional prefix and suffix: the prefix defaults to
    /// `"// "`, the suffix to the empty string.
    pub fn new(prefix: Option<&str>, suffix: Option<&str>) -> (r: Self)
        ensures
            r.comment_prefix@ == (match prefix {
                Some(p) => p@,
                None => "// "@,
            }),
            r.comment_suffix@ == (match suffix {
                Some(s) => s@,
                None => Seq::<char>::empty(),
            }),
    {
        let comment_prefix = match prefix {
            Some(p) => p.to_owned(),
            None => "// ".to_owned(),
        };
        let comment_suffix = match suffix {
            Some(s) => s.to_owned(),
            None => String::new(),
        };
        FileTypeInfo { comment_suffix, comment_prefix }
    }
}

/// One piece of feedback addressed to a line (1 = the first line).
pub struct Annotation {
    pub line_number: usize,
    pub content: String,
}

impl Annotation {
    /// A copy of this record.
    pub fn copy(&self) -> (r: Self)
        ensures
            r == *self,
    {
        Annotation { line_number: self.line_number, content: self.content.clone() }
    }
}

/// The marker that opens every rendered annotation line.
pub open spec fn marker() -> Seq<char> {
    seq!['y', 'a', 'p', ' ', ':', ':', ' ']
}

/// One physical annotation line wrapped in the comment syntax.
pub open spec fn rendered_line(info: FileTypeInfo, piece: Seq<char>) -> Seq<char> {
    info.comment_prefix@ + marker() + piece + info.comment_suffix@
}

/// The comment lines for an annotation body: one for each piece between
/// line breaks, in order.
pub open spec fn rendered_block(info: FileTypeInfo, content: Seq<char>) -> Seq<Seq<char>> {
    split_newlines(content).map_values(|p: Seq<char>| rendered_line(info, p))
}

/// `s` with `a` placed after every record whose line is not greater than
/// its own, and before the rest.
pub open spec fn insert_by_line(s: Seq<Annotation>, a: Annotation) -> Seq<Annotation>
    decreases s.len(),
{
    if s.len() == 0 {
        seq![a]
    } else if s.last().line_number <= a.line_number {
        s.push(a)
    } else {
        insert_by_line(s.drop_last(), a).push(s.last())
    }
}

/// The records in ascending line order; records on one line keep their
/// order of arrival.
pub open spec fn sort_by_line(s: Seq<Annotation>) -> Seq<Annotation>
    decreases s.len(),
{
    if s.len() == 0 {
        s
    } else {
        insert_by_line(sort_by_line(s.drop_last()), s.last())
    }
}

/// The output lines after the first `n` lines of `doc`, and how many of the
/// (sorted) records have been consumed: a record is consumed by the line it
/// addresses when it is the next one, and its block goes before that line.
pub open spec fn merge_upto(
    doc: Seq<Seq<char>>,
    recs: Seq<Annotation>,
    info: FileTypeInfo,
    n: nat,
) -> (Seq<Seq<char>>, nat)
    decreases n,
{
    if n == 0 {
        (Seq::empty(), 0)
    } else {
        let prev = merge_upto(doc, recs, info, (n - 1) as nat);
        let line = doc[n - 1];
        if prev.1 < recs.len() && recs[prev.1 as int].line_number == n {
            (
                prev.0 + rendered_block(info, recs[prev.1 as int].content@).push(line),
                prev.1 + 1,
            )
        } else {
            (prev.0.push(line), prev.1)
        }
    }
}

/// The output lines of the merge of `anns` into the lines `doc`.
pub open spec fn merged_lines(doc: Seq<Seq<char>>, anns: Seq<Annotation>, info: FileTypeInfo) -> Seq<
    Seq<char>,
> {
    merge_upto(doc, sort_by_line(anns), info, doc.len()).0
}

/// The annotated text of `doc`.
pub open spec fn annotated(doc: Seq<char>, anns: Seq<Annotation>, info: FileTypeInfo) -> Seq<char> {
    join_lines(merged_lines(doc_lines(doc), anns, info))
}

/// Proof that inserting by line puts the record at the position a backward
/// scan stops at.
proof fn lemma_insert_at(s: Seq<Annotation>, a: Annotation, j: int)
    requires
        0 <= j <= s.len(),
        forall|k: int| j <= k < s.len() ==> #[trigger] s[k].line_number > a.line_number,
        j == 0 || s[j - 1].line_number <= a.line_number,
    ensures
        insert_by_line(s, a) == s.insert(j, a),
    decreases s.len(),
{
    if s.len() == 0 {
        assert(s.insert(j, a) =~= seq![a]);
    } else if s.last().line_number <= a.line_number {
        assert(s.insert(j, a) =~= s.push(a));
    } else {
        lemma_insert_at(s.drop_last(), a, j);
        assert(s.drop_last().insert(j, a).push(s.last()) =~= s.insert(j, a));
    }
}

/// Sorts the records by line, keeping records on one line in their order of
/// arrival.
pub fn sort_annotations(annotations: &Vec<Annotation>) -> (r: Vec<Annotation>)
    ensures
        r@ == sort_by_line(annotations@),
{
    let mut out: Vec<Annotation> = Vec::new();
    let mut i: usize = 0;
    while i < annotations.len()
        invariant
            i <= annotations.len(),
            out@ == sort_by_line(annotations@.take(i as int)),
        decreases annotations.len() - i,
    {
        let a = annotations[i].copy();
        let mut j: usize = out.len();
        while j > 0 && out[j - 1].line_number > a.line_number
            invariant
                j <= out.len(),
                forall|k: int| j <= k < out.len() ==> #[trigger] out[k].line_number > a.line_number,
            decreases j,
        {
            j = j - 1;
        }
        proof {
            lemma_insert_at(out@, a, j as int);
            assert(annotations@.take(i + 1).drop_last() == annotations@.take(i as int));
        }
        out.insert(j, a);
        i = i + 1;
    }
    proof {
        assert(annotations@.take(annotations.len() as int) == annotations@);
    }
    out
}

/// Renders a (possibly multi-line) annotation body as comment lines, one for
/// each piece between line breaks, joined by line breaks with none at the end.
pub fn yapify_annotation_content(content: &str, file_type_info: &FileTypeInfo) -> (r: String)
    ensures
        r@ == join_with_breaks(rendered_block(*file_type_info, content@)),
{
    let pieces = split_pieces(content);
    let ghost block = rendered_block(*file_type_info, content@);
    proof {
        lemma_split_nonempty(content@);
    }
    let mut output = String::new();
    let mut i: usize = 0;
    while i < pieces.len()
        invariant
            views(pieces@) == split_newlines(content@),
            block == rendered_block(*file_type_info, content@),
            block.len() == pieces.len(),
            pieces.len() >= 1,
            i <= pieces.len(),
            output@ == join_with_breaks(block.take(i as int)),
        decreases pieces.len() - i,
    {
        let ghost before = output@;
        if i > 0 {
            push_char(&mut output, '\n');
        }
        let ghost mid = output@;
        output.append(file_type_info.comment_prefix.as_str());
        proof {
            reveal_strlit("yap :: ");
            assert("yap :: "@ =~= marker());
        }
        output.append("yap :: ");
        output.append(pieces[i].as_str());
        output.append(file_type_info.comment_suffix.as_str());
        proof {
            assert(pieces@[i as int]@ == views(pieces@)[i as int]);
            assert(block.take(i + 1).drop_last() == block.take(i as int));
            assert(block.take(i + 1).last() == block[i as int]);
            assert(block[i as int] == rendered_line(*file_type_info, pieces@[i as int]@));
            assert(output@ =~= mid + block[i as int]);
            if i == 0 {
                assert(block.take(i + 1).len() == 1);
                assert(output@ =~= join_with_breaks(block.take(i + 1)));
            } else {
                assert(output@ =~= join_with_breaks(block.take(i + 1)));
            }
        }
        i = i + 1;
    }
    proof {
        assert(block.take(block.len() as int) == block);
    }
    output
}

/// The lines of a document, as [`doc_lines`] describes them.
pub fn document_lines(input: &str) -> (r: Vec<String>)
    ensures
        views(r@) == doc_lines(input@),
{
    let mut lines = split_pieces(input);
    proof {
        lemma_split_nonempty(input@);
    }
    let last_empty = lines[lines.len() - 1].as_str().is_empty();
    if last_empty {
        let ghost before = lines@;
        lines.pop();
        proof {
            assert(views(lines@) == views(before).drop_last());
        }
    }
    lines
}

/// Merges the annotations into the document in one forward pass: the
/// records are sorted by line; for each line, when the next record addresses
/// it, the record's rendered block goes before the line and the next record
/// comes up. Records left over once the lines run out are dropped, and so is
/// a second record for a line already passed. Every output line ends with a
/// line break.
pub fn apply_annotations(input: &str, annotations: Vec<Annotation>, file_type_info: FileTypeInfo) -> (r: String)
    ensures
        r@ == annotated(input@, annotations@, file_type_info),
{
    let sorted = sort_annotations(&annotations);
    let lines = document_lines(input);
    let ghost doc = doc_lines(input@);
    let mut output = String::new();
    let mut cursor: usize = 0;
    let mut i: usize = 0;
    while i < lines.len()
        invariant
            views(lines@) == doc,
            sorted@ == sort_by_line(annotations@),
            i <= lines.len(),
            cursor <= sorted.len(),
            cursor == merge_upto(doc, sorted@, file_type_info, i as nat).1,
            output@ == join_lines(merge_upto(doc, sorted@, file_type_info, i as nat).0),
        decreases lines.len() - i,
    {
        let ghost prev = merge_upto(doc, sorted@, file_type_info, i as nat).0;
        let line = lines[i].as_str();
        assert(line@ == doc[i as int]);
        if cursor < sorted.len() && sorted[cursor].line_number == i + 1 {
            let block = yapify_annotation_content(sorted[cursor].content.as_str(), &file_type_info);
            output.append(block.as_str());
            push_char(&mut output, '\n');
            output.append(line);
            push_char(&mut output, '\n');
            proof {
                let b = rendered_block(file_type_info, sorted@[cursor as int].content@);
                lemma_split_nonempty(sorted@[cursor as int].content@);
                lemma_join_lines_breaks(b);
                lemma_join_lines_append(prev, b.push(line@));
                assert(b.push(line@).drop_last() == b);
                assert(output@ =~= join_lines(prev) + join_lines(b.push(line@)));
            }
            cursor = cursor + 1;
        } else {
            output.append(line);
            push_char(&mut output, '\n');
            proof {
                assert(prev.push(line@).drop_last() == prev);
                assert(output@ =~= join_lines(prev.push(line@)));
            }
        }
        i = i + 1;
    }
    output
}

/// The instruction sent when the user gave no prompt of their own.
pub const NO_PROMPT: &'static str = "The end-user did not provide a specific prompt. Provide generally useful annotations on the file above";

/// The conversation for an annotation request: the system prompt, the
/// numbered window, then the user's prompt, or an instruction to give
/// general feedback when there is none.
pub fn annotate_messages(system_prompt: &str, numbered_window: String, user_prompt: Option<&str>) -> (r: Vec<Message>)
    ensures
        r@.len() == 3,
        r@[0].role == Role::System && r@[0].refusal is None,
        r@[0].content matches Some(c) && c@ == system_prompt@,
        r@[1].role == Role::User && r@[1].content == Some(numbered_window) && r@[1].refusal is None,
        user_prompt matches Some(p) ==> (r@[2].role == Role::User && (r@[2].content matches Some(c) && c@ == p@)),
        user_prompt is None ==> (r@[2].role == Role::System && (r@[2].content matches Some(c) && c@ == NO_PROMPT@)),
        r@[2].refusal is None,
{
    let mut messages: Vec<Message> = Vec::new();
    messages.push(Message::new(Role::System, system_prompt.to_owned()));
    messages.push(Message::new(Role::User, numbered_window));
    match user_prompt {
        Some(prompt) => messages.push(Message::new(Role::User, prompt.to_owned())),
        None => messages.push(Message::new(Role::System, NO_PROMPT.to_owned())),
    }
    messages
}

/// Decodes the engine's answer and merges its records into the document:
/// the annotated text, or the decoding error.
pub fn finish_annotation(
    input: &str,
    message: &Message,
    window_start: usize,
    file_type_info: FileTypeInfo,
) -> (r: Result<String, Error>)
    requires
        window_start >= 1,
    ensures
        (message.content, message.refusal) matches (None, Some(f)) ==> (r matches Err(e) && e@
            == seq![(Oops::EngineRefusal, Some(f@))]),
        (message.content is Some == message.refusal is Some) ==> r is Err,
        (message.content, message.refusal) matches (Some(c), None) ==> (json_text(c@) is None ==> r is Err),
        (message.content, message.refusal) matches (Some(c), None) ==> (json_text(c@) matches Some(j)
            ==> (r is Ok <==> well_shaped(j))),
        (message.content, message.refusal) matches (Some(c), None) ==> (json_text(c@) matches Some(j)
            ==> (r matches Ok(text) ==> exists|anns: Seq<Annotation>|
            decodes_to(annotation_items(j)->0, window_start as nat, anns) && text@ == #[trigger] annotated(
                input@,
                anns,
                file_type_info,
            ))),
{
    let annotations = decode_response(message, window_start)?;
    let ghost anns = annotations@;
    let out = apply_annotations(input, annotations, file_type_info);
    assert(out@ == annotated(input@, anns, file_type_info));
    Ok(out)
}

} // verus!
