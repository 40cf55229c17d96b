//! Naming of persisted chats: a chat's file is `<uuid>.json`.

use vstd::prelude::*;
use crate::err::{Error, Oops};
use crate::text::{split_at, split_on, views};

verus! {

/// The UUID, as a 128-bit value, that the uuid crate reads out of a text, if
/// the text is one in a format it accepts.
pub uninterp spec fn parsed_uuid(s: Seq<char>) -> Option<u128>;

/// Relies on `uuid::Uuid::parse_str`: reads a UUID (simple, hyphenated, urn
/// or braced form) out of a text, or fails with a message; the UUID is handed
/// on as its 128-bit value (`Uuid::as_u128`).
#[verifier::external_body]
fn uuid_from_str(s: &str) -> (r: Result<u128, String>)
    ensures
        r is Ok <==> parsed_uuid(s@) is Some,
        r matches Ok(u) ==> parsed_uuid(s@) == Some(u),
{
    uuid::Uuid::parse_str(s).map(|u| u.as_u128()).map_err(|e| e.to_string())
}

/// Whether two texts are equal.
pub fn same_text(a: &str, b: &str) -> (r: bool)
    ensures
        r == (a@ == b@),
{
    a.to_owned() == b.to_owned()
}

/// The chat that a file name stands for: the file is named `<uuid>.json`.
pub open spec fn chat_file_uuid(name: Seq<char>) -> Option<u128> {
    let parts = split_on(name, '.');
    if parts.len() == 2 && parts[1] == "json"@ {
        parsed_uuid(parts[0])
    } else {
        None
    }
}

/// Reads the chat's UUID out of the name of its file, `<uuid>.json`.
pub fn parse_uuid(file_name: &str) -> (r: Result<u128, Error>)
    ensures
        r is Ok <==> chat_file_uuid(file_name@) is Some,
        r matches Ok(u) ==> chat_file_uuid(file_name@) == Some(u),
        r matches Err(e) ==> (e@.len() == 1 && e@[0].0 == Oops::DbError && e@[0].1 is Some),
{
    let parts = split_at(file_name, '.');
    assert(views(parts@).len() == parts@.len());
    if parts.len() < 2 {
        return Err(Error::new().wrap(Oops::DbError).because("cannot find the extension of a chat file name".to_owned()));
    }
    assert(parts@[1]@ == views(parts@)[1]);
    assert(parts@[0]@ == views(parts@)[0]);
    if !same_text(parts[1].as_str(), "json") {
        return Err(Error::new().wrap(Oops::DbError).because("the file extension of a chat file is not json".to_owned()));
    }
    if parts.len() > 2 {
        return Err(Error::new().wrap(Oops::DbError).because("chat file name has more parts than expected".to_owned()));
    }
    match uuid_from_str(parts[0].as_str()) {
        Ok(u) => Ok(u),
        Err(msg) => {
            let mut ctx = "cannot parse UUID from chat file name: ".to_owned();
            ctx.append(msg.as_str());
            Err(Error::new().wrap(Oops::DbError).because(ctx))
        },
    }
}

/// Reads the UUID of the active chat out of the text it was saved as.
pub fn parse_active_chat(contents: &str) -> (r: Result<u128, Error>)
    ensures
        r is Ok <==> parsed_uuid(contents@) is Some,
        r matches Ok(u) ==> parsed_uuid(contents@) == Some(u),
        r matches Err(e) ==> (e@.len() == 1 && e@[0].0 == Oops::DbError && e@[0].1 is Some),
{
    match uuid_from_str(contents) {
        Ok(u) => Ok(u),
        Err(msg) => {
            let mut ctx = "active chat is not a uuid: ".to_owned();
            ctx.append(msg.as_str());
            Err(Error::new().wrap(Oops::DbError).because(ctx))
        },
    }
}

} // verus!
