//! Decoding the engine's answer into annotation records, rebased from
//! window-relative lines to absolute ones.

use vstd::prelude::*;
use crate::annotate::Annotation;
use crate::err::{Error, Oops};
use crate::json::{
    JsonView, as_array, as_object, as_str, as_u64, json_text, json_view, object_get, object_len,
    parse_json,
};
use crate::openai::{Content, Message};

verus! {

/// The line and text of one annotation record: an object with exactly the
/// members `line_number` (a non-negative integer) and `content` (a string).
pub open spec fn record_of(j: JsonView) -> Option<(u64, Seq<char>)> {
    match j {
        JsonView::Object(m) => if m.dom().len() == 2 && m.dom().contains("line_number"@)
            && m.dom().contains("content"@) {
            match (m["line_number"@], m["content"@]) {
                (JsonView::Number(Some(n)), JsonView::Str(c)) => Some((n, c)),
                _ => None,
            }
        } else {
            None
        },
        _ => None,
    }
}

/// The records of a response body: an object with exactly the member
/// `annotations`, an array.
pub open spec fn annotation_items(j: JsonView) -> Option<Seq<JsonView>> {
    match j {
        JsonView::Object(m) => if m.dom().len() == 1 && m.dom().contains("annotations"@) {
            match m["annotations"@] {
                JsonView::Array(items) => Some(items),
                _ => None,
            }
        } else {
            None
        },
        _ => None,
    }
}

/// Whether a response body has the annotation schema's shape.
pub open spec fn well_shaped(j: JsonView) -> bool {
    &&& annotation_items(j) is Some
    &&& forall|i: int|
        0 <= i < annotation_items(j)->0.len() ==> #[trigger] record_of(annotation_items(j)->0[i]) is Some
}

/// The absolute line for a window-relative one: `relative + (start - 1)`,
/// held at the largest `usize` where it would pass it.
pub open spec fn rebased_line(relative: u64, start: nat) -> nat {
    if relative + start - 1 > usize::MAX {
        usize::MAX as nat
    } else {
        (relative + start - 1) as nat
    }
}

/// Whether `out` holds the records of `items`, in order, rebased to `start`.
pub open spec fn decodes_to(items: Seq<JsonView>, start: nat, out: Seq<Annotation>) -> bool {
    &&& out.len() == items.len()
    &&& forall|i: int|
        0 <= i < items.len() ==> (#[trigger] record_of(items[i]) matches Some(rec) && out[i].line_number
            == rebased_line(rec.0, start) && out[i].content@ == rec.1)
}

/// An error for a body that does not have the schema's shape.
fn shape_error(detail: &str) -> (e: Error)
    ensures
        e@ == seq![(Oops::DecodeError, Some(detail@)), (Oops::EngineProtocolError, None::<Seq<char>>)],
{
    let e = Error::new().wrap(Oops::DecodeError).because(detail.to_owned()).wrap(Oops::EngineProtocolError);
    proof {
        assert(e@ =~= seq![(Oops::DecodeError, Some(detail@)), (Oops::EngineProtocolError, None::<Seq<char>>)]);
    }
    e
}

/// Reads one annotation record out of a JSON value and rebases its line.
fn record_from_json(v: &serde_json::Value, window_start: usize) -> (r: Option<Annotation>)
    requires
        window_start >= 1,
    ensures
        r is Some <==> record_of(json_view(*v)) is Some,
        r matches Some(a) ==> (record_of(json_view(*v)) matches Some(rec) && a.line_number
            == rebased_line(rec.0, window_start as nat) && a.content@ == rec.1),
{
    let m = match as_object(v) {
        Some(m) => m,
        None => return None,
    };
    if object_len(m) != 2 {
        return None;
    }
    let line = match object_get(m, "line_number") {
        Some(x) => x,
        None => return None,
    };
    let content = match object_get(m, "content") {
        Some(x) => x,
        None => return None,
    };
    let n = match as_u64(line) {
        Some(n) => n,
        None => return None,
    };
    let text = match as_str(content) {
        Some(t) => t,
        None => return None,
    };
    let line_number = if n > usize::MAX as u64 {
        usize::MAX
    } else {
        (n as usize).saturating_add(window_start - 1)
    };
    Some(Annotation { line_number, content: text.to_owned() })
}

/// Reads the annotation records out of a parsed response body, rebasing each
/// window-relative line to an absolute one.
pub fn annotations_from_json(v: &serde_json::Value, window_start: usize) -> (r: Result<Vec<Annotation>, Error>)
    requires
        window_start >= 1,
    ensures
        r is Ok <==> well_shaped(json_view(*v)),
        r matches Ok(out) ==> decodes_to(annotation_items(json_view(*v))->0, window_start as nat, out@),
        r matches Err(e) ==> (e@.len() == 2 && e@[0].0 == Oops::DecodeError && e@[0].1 is Some
            && e@[1] == (Oops::EngineProtocolError, None::<Seq<char>>)),
{
    let m = match as_object(v) {
        Some(m) => m,
        None => return Err(shape_error("the response body is not an object")),
    };
    if object_len(m) != 1 {
        return Err(shape_error("the response body must have exactly the member `annotations`"));
    }
    let list = match object_get(m, "annotations") {
        Some(x) => x,
        None => return Err(shape_error("the response body has no member `annotations`")),
    };
    let items = match as_array(list) {
        Some(a) => a,
        None => return Err(shape_error("`annotations` is not an array")),
    };
    let ghost views = items@.map_values(|x: serde_json::Value| json_view(x));
    assert(annotation_items(json_view(*v)) == Some(views));
    let mut out: Vec<Annotation> = Vec::new();
    let mut i: usize = 0;
    while i < items.len()
        invariant
            views == items@.map_values(|x: serde_json::Value| json_view(x)),
            annotation_items(json_view(*v)) == Some(views),
            window_start >= 1,
            i <= items.len(),
            decodes_to(views.take(i as int), window_start as nat, out@),
            forall|k: int| 0 <= k < i ==> #[trigger] record_of(views[k]) is Some,
        decreases items.len() - i,
    {
        assert(views[i as int] == json_view(items@[i as int]));
        match record_from_json(&items[i], window_start) {
            Some(a) => {
                out.push(a);
                proof {
                    assert forall|k: int| 0 <= k < i + 1 implies (#[trigger] record_of(views.take(i + 1)[k]) matches Some(rec)
                        && out@[k].line_number == rebased_line(rec.0, window_start as nat) && out@[k].content@ == rec.1) by {
                        if k < i {
                            assert(views.take(i + 1)[k] == views.take(i as int)[k]);
                        }
                    }
                }
            },
            None => {
                return Err(shape_error("an annotation is not an object of `line_number` and `content`"));
            },
        }
        i = i + 1;
    }
    assert(views.take(items.len() as int) == views);
    Ok(out)
}

/// Parses the content of a response as JSON and reads the annotation records
/// out of it; text that is not JSON breaks the protocol.
pub fn decode_annotations(content: &str, window_start: usize) -> (r: Result<Vec<Annotation>, Error>)
    requires
        window_start >= 1,
    ensures
        json_text(content@) is None ==> (r matches Err(e) && e@.len() == 1 && e@[0].0
            == Oops::EngineProtocolError && e@[0].1 is Some),
        json_text(content@) matches Some(j) ==> (r is Ok <==> well_shaped(j)),
        json_text(content@) matches Some(j) ==> (r matches Ok(out) ==> decodes_to(
            annotation_items(j)->0,
            window_start as nat,
            out@,
        )),
        json_text(content@) matches Some(j) ==> (r matches Err(e) ==> (e@.len() == 2 && e@[0].0
            == Oops::DecodeError && e@[1] == (Oops::EngineProtocolError, None::<Seq<char>>))),
{
    match parse_json(content) {
        Ok(v) => annotations_from_json(&v, window_start),
        Err(msg) => {
            let mut ctx = "Failed to deserialize annotation string into annotations: ".to_owned();
            ctx.append(msg.as_str());
            Err(Error::new().wrap(Oops::EngineProtocolError).because(ctx))
        },
    }
}

/// Decodes the engine's answer: a refusal ends the command with the refusal's
/// text; a message with both content and a refusal, or neither, breaks the
/// protocol; content is decoded as [`decode_annotations`] says.
pub fn decode_response(message: &Message, window_start: usize) -> (r: Result<Vec<Annotation>, Error>)
    requires
        window_start >= 1,
    ensures
        (message.content, message.refusal) matches (None, Some(f)) ==> (r matches Err(e) && e@
            == seq![(Oops::EngineRefusal, Some(f@))]),
        (message.content is Some == message.refusal is Some) ==> (r matches Err(e) && e@.len() == 2
            && e@[1] == (Oops::EngineProtocolError, None::<Seq<char>>)),
        (message.content, message.refusal) matches (Some(c), None) ==> (json_text(c@) matches Some(j)
            ==> (r is Ok <==> well_shaped(j))),
        (message.content, message.refusal) matches (Some(c), None) ==> (json_text(c@) matches Some(j)
            ==> (r matches Ok(out) ==> decodes_to(annotation_items(j)->0, window_start as nat, out@))),
        (message.content, message.refusal) matches (Some(c), None) ==> (json_text(c@) is None ==> r is Err),
{
    match message.parse() {
        Err(e) => Err(e.wrap(Oops::EngineProtocolError)),
        Ok(Content::Refusal(text)) => {
            let e = Error::new().wrap(Oops::EngineRefusal).because(text.to_owned());
            proof {
                assert(e@ =~= seq![(Oops::EngineRefusal, Some(text@))]);
            }
            Err(e)
        },
        Ok(Content::Normal(text)) => decode_annotations(text, window_start),
    }
}

/// The JSON schema that the engine's answer to an annotation request must
/// follow.
pub const ANNOTATION_SCHEMA: &'static str = "{\"name\":\"source_file_annotations\",\"schema\":{\"type\":\"object\",\"properties\":{\"annotations\":{\"type\":\"array\",\"description\":\"A list of annotations related to the source file.\",\"items\":{\"type\":\"object\",\"properties\":{\"line_number\":{\"type\":\"number\",\"description\":\"The line number in the source file where the annotation applies.\"},\"content\":{\"type\":\"string\",\"description\":\"The content of the annotation.\"}},\"required\":[\"line_number\",\"content\"],\"additionalProperties\":false}}},\"required\":[\"annotations\"],\"additionalProperties\":false},\"strict\":true}";

/// The annotation schema as a JSON value.
pub fn get_json_schema() -> (r: Option<serde_json::Value>)
    ensures
        r is Some <==> json_text(ANNOTATION_SCHEMA@) is Some,
        r matches Some(v) ==> json_text(ANNOTATION_SCHEMA@) == Some(json_view(v)),
{
    match parse_json(ANNOTATION_SCHEMA) {
        Ok(v) => Some(v),
        Err(_) => None,
    }
}

} // verus!
