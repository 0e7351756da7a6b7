//! The envelope that wraps every reply of the service: a JSON object whose
//! `status` says whether the request succeeded, beside the payload or the
//! service's complaint.

use crate::error::{Error, ErrorView};
use crate::json::{json_of, json_parse, member, member_of, parse, text_at, text_member, Json};
use crate::text::same_text;
use serde_json::Value;
use vstd::prelude::*;

verus! {

/// What a status and a message mean together: `None` for success, else the
/// error to report. A reply without a status is malformed; the status `OK`
/// is success; any other status is the service's refusal, reported with
/// its message, or with the status itself where there is no message.
pub open spec fn verdict(status: Option<Seq<char>>, message: Option<Seq<char>>) -> Option<
    ErrorView,
> {
    match status {
        None => Some(ErrorView::MalformedResponse),
        Some(s) => if s == "OK"@ {
            None
        } else {
            match message {
                Some(m) => Some(ErrorView::Api(m)),
                None => Some(ErrorView::Api(s)),
            }
        },
    }
}

/// The status of an envelope: the text under `status`.
pub open spec fn envelope_status(j: Json) -> Option<Seq<char>> {
    text_member(j, "status"@)
}

/// The complaint of an envelope: the text under `message` of the object
/// under `alert`.
pub open spec fn envelope_message(j: Json) -> Option<Seq<char>> {
    match member_of(j, "alert"@) {
        Some(alert) => text_member(alert, "message"@),
        None => None,
    }
}

/// What an envelope means: `None` for success, else the error to report.
pub open spec fn envelope_verdict(j: Json) -> Option<ErrorView> {
    verdict(envelope_status(j), envelope_message(j))
}

/// What a reply means, from the transport's outcome on: the content of the
/// envelope where the transport delivered a body that is a JSON document
/// and an envelope reporting success, else the error to report.
pub open spec fn reply_outcome(reply: Result<Seq<char>, Seq<char>>) -> Result<Json, ErrorView> {
    match reply {
        Err(report) => Err(ErrorView::Http(report)),
        Ok(body) => match json_parse(body) {
            None => Err(ErrorView::MalformedResponse),
            Some(j) => match envelope_verdict(j) {
                None => Ok(j),
                Some(e) => Err(e),
            },
        },
    }
}

/// A transport's outcome with its texts as character sequences.
pub open spec fn reply_view(reply: Result<String, String>) -> Result<Seq<char>, Seq<char>> {
    match reply {
        Ok(body) => Ok(body@),
        Err(report) => Err(report@),
    }
}

/// An optional text as a character sequence.
pub open spec fn text_view(text: Option<&str>) -> Option<Seq<char>> {
    match text {
        Some(t) => Some(t@),
        None => None,
    }
}

/// An optional error with its texts as character sequences.
pub open spec fn verdict_view(judged: Option<Error>) -> Option<ErrorView> {
    match judged {
        Some(e) => Some(e@),
        None => None,
    }
}

/// Judges an envelope by its status and its message: `None` for success,
/// else the error to report.
pub fn classify(status: Option<&str>, message: Option<&str>) -> (r: Option<Error>)
    ensures
        verdict_view(r) == verdict(text_view(status), text_view(message)),
{
    match status {
        None => Some(Error::MalformedResponse),
        Some(s) => {
            if same_text(s, "OK") {
                None
            } else {
                match message {
                    Some(m) => Some(Error::Api(m.to_owned())),
                    None => Some(Error::Api(s.to_owned())),
                }
            }
        },
    }
}

/// Reads the complaint of an envelope.
fn message_of<'a>(raw: &'a Value) -> (r: Option<&'a str>)
    ensures
        match r {
            Some(m) => envelope_message(json_of(*raw)) == Some(m@),
            None => envelope_message(json_of(*raw)) is None,
        },
{
    match member(raw, "alert") {
        Some(alert) => text_at(alert, "message"),
        None => None,
    }
}

/// Decodes an envelope. One that reports success comes back as it is, for
/// the caller to read the payload from; one that reports a failure becomes
/// `Error::Api`; a document that is no envelope becomes
/// `Error::MalformedResponse`.
pub fn decode(raw: Value) -> (r: Result<Value, Error>)
    ensures
        match envelope_verdict(json_of(raw)) {
            None => r == Ok::<Value, Error>(raw),
            Some(e) => r matches Err(err) && err@ == e,
        },
{
    let judged = classify(text_at(&raw, "status"), message_of(&raw));
    match judged {
        None => Ok(raw),
        Some(e) => Err(e),
    }
}

/// Turns the transport's outcome into the decoded envelope. A transport
/// failure becomes `Error::Http` with the transport's report, and no body
/// is looked at; a body that is no JSON document becomes
/// `Error::MalformedResponse`; any other body is decoded as an envelope.
pub fn handle_legiscan_response(reply: Result<String, String>) -> (r: Result<Value, Error>)
    ensures
        match reply_outcome(reply_view(reply)) {
            Ok(j) => r matches Ok(v) && json_of(v) == j,
            Err(e) => r matches Err(err) && err@ == e,
        },
{
    match reply {
        Err(report) => Err(Error::Http(report)),
        Ok(body) => match parse(body.as_str()) {
            None => Err(Error::MalformedResponse),
            Some(raw) => decode(raw),
        },
    }
}

} // verus!
