//! The trigger event a webhook request becomes, and how a request body turns
//! into its payload.

use vstd::prelude::*;
use vstd::utf8::{valid_utf8, decode_utf8};

verus! {

#[verifier::external_type_specification]
#[verifier::external_body]
pub struct ExJsonValue(serde_json::Value);

/// The JSON document that `serde_json` reads from `bytes`, or `None` where
/// the bytes are not one JSON document.
pub uninterp spec fn json_document(bytes: Seq<u8>) -> Option<serde_json::Value>;

/// The text that `String::from_utf8_lossy` makes of `bytes`.
pub uninterp spec fn utf8_lossy(bytes: Seq<u8>) -> Seq<char>;

/// `serde_json::from_slice::<Value>`: claims that the result, taken as an
/// option, is `json_document` of the bytes, a function of the bytes alone.
#[verifier::external_body]
fn json_from_slice(bytes: &[u8]) -> (doc: Option<serde_json::Value>)
    ensures
        doc == json_document(bytes@),
{
    serde_json::from_slice::<serde_json::Value>(bytes).ok()
}

/// `String::from_utf8_lossy`: claims that the text is `utf8_lossy` of the
/// bytes, and that on valid UTF-8 it is exactly the decoded text (as its
/// documentation states). How invalid sequences are replaced is left unsaid.
#[verifier::external_body]
fn lossy_text(bytes: &[u8]) -> (text: String)
    ensures
        text@ == utf8_lossy(bytes@),
        valid_utf8(bytes@) ==> text@ == decode_utf8(bytes@),
{
    String::from_utf8_lossy(bytes).into_owned()
}

/// A lower-case hexadecimal digit.
pub open spec fn is_lower_hex(c: char) -> bool {
    ('0' <= c && c <= '9') || ('a' <= c && c <= 'f')
}

/// The hyphenated lower-case text of a random (version 4, RFC 4122 variant)
/// UUID, such as `67e55044-10b1-426f-9247-bb680e5fe0c8`.
pub open spec fn is_uuid_v4_text(s: Seq<char>) -> bool {
    &&& s.len() == 36
    &&& forall|i: int| 0 <= i < 36 ==> (if i == 8 || i == 13 || i == 18 || i == 23 {
        s[i] == '-'
    } else {
        is_lower_hex(s[i])
    })
    &&& s[14] == '4'
    &&& (s[19] == '8' || s[19] == '9' || s[19] == 'a' || s[19] == 'b')
}

/// `uuid::Uuid::new_v4().to_string()`: a fresh random identifier. Claims only
/// the shape that the uuid crate's formatting and version bits give it; the
/// random bits are left unsaid.
#[verifier::external_body]
fn new_event_id() -> (id: String)
    ensures
        is_uuid_v4_text(id@),
{
    uuid::Uuid::new_v4().to_string()
}

/// A UTC instant: seconds since the Unix epoch and the nanoseconds past that
/// second (above 999,999,999 only within a leap second).
#[derive(Clone, Copy, Debug, PartialEq, Eq)]
pub struct Timestamp {
    pub secs: i64,
    pub nanos: u32,
}

/// `chrono::Utc::now()`, read as its `timestamp()` and
/// `timestamp_subsec_nanos()`. `now` builds its value from the system time's
/// whole seconds and sub-second nanoseconds since the Unix epoch (it panics
/// on a clock before the epoch), so the instant is not before the epoch and
/// falls on no leap second. Which instant comes back is left unsaid.
#[verifier::external_body]
fn current_time() -> (t: Timestamp)
    ensures
        t.secs >= 0,
        t.nanos < 1_000_000_000,
{
    let now = chrono::Utc::now();
    Timestamp { secs: now.timestamp(), nanos: now.timestamp_subsec_nanos() }
}

/// Key under which a body that is not JSON is kept, as text, in the payload
/// object.
pub const RAW_PAYLOAD_KEY: &'static str = "raw";

/// The payload of a trigger event.
#[derive(Debug)]
pub enum Payload {
    /// The empty JSON object `{}` (the body was empty).
    EmptyObject,
    /// The JSON document the body held.
    Json(serde_json::Value),
    /// The object `{"raw": <text>}` holding the body as text (the body was
    /// not JSON).
    Raw(String),
}

/// What a payload is, with its text as characters.
pub enum PayloadView {
    EmptyObject,
    Json(serde_json::Value),
    Raw(Seq<char>),
}

impl View for Payload {
    type V = PayloadView;

    open spec fn view(&self) -> PayloadView {
        match self {
            Payload::EmptyObject => PayloadView::EmptyObject,
            Payload::Json(v) => PayloadView::Json(*v),
            Payload::Raw(s) => PayloadView::Raw(s@),
        }
    }
}

/// The payload a request body becomes: `{}` for an empty body, the JSON
/// document when the body is one, else the body's text under `"raw"`.
pub open spec fn payload_of(body: Seq<u8>) -> PayloadView {
    if body.len() == 0 {
        PayloadView::EmptyObject
    } else {
        match json_document(body) {
            Some(v) => PayloadView::Json(v),
            None => PayloadView::Raw(utf8_lossy(body)),
        }
    }
}

/// An empty body becomes `{}`; a non-empty body that is a JSON document (as
/// serde_json reads it, trailing whitespace and all) becomes exactly that
/// document; only a non-empty body that is no JSON document becomes its text.
pub proof fn payload_law(body: Seq<u8>, doc: Option<serde_json::Value>)
    ensures
        payload_of(Seq::<u8>::empty()) == PayloadView::EmptyObject,
        body.len() > 0 && json_document(body) is Some
            ==> payload_of(body) == PayloadView::Json(json_document(body)->0),
        body.len() > 0 && json_document(body) is None
            ==> payload_of(body) == PayloadView::Raw(utf8_lossy(body)),
        payload_given(body, json_document(body)) == payload_of(body),
        body.len() > 0 && doc is Some ==> payload_given(body, doc) == PayloadView::Json(doc->0),
        body.len() > 0 && doc is None ==> payload_given(body, doc) == PayloadView::Raw(utf8_lossy(body)),
{
}

/// The payload a body becomes, given what the JSON parser made of it
/// (`doc`: the document, or `None` when the bytes are not one).
pub open spec fn payload_given(body: Seq<u8>, doc: Option<serde_json::Value>) -> PayloadView {
    if body.len() == 0 {
        PayloadView::EmptyObject
    } else {
        match doc {
            Some(v) => PayloadView::Json(v),
            None => PayloadView::Raw(utf8_lossy(body)),
        }
    }
}

/// Builds the payload of a body from the parser's result `doc` for that
/// body: `{}` for an empty body, the document when there is one, else the
/// body's text.
pub fn payload_from(bytes: &[u8], doc: Option<serde_json::Value>) -> (p: Payload)
    ensures
        p@ == payload_given(bytes@, doc),
        bytes@.len() == 0 ==> p@ == PayloadView::EmptyObject,
        bytes@.len() > 0 && doc is Some ==> p@ == PayloadView::Json(doc->0),
        bytes@.len() > 0 && doc is None ==> p@ == PayloadView::Raw(utf8_lossy(bytes@)),
        valid_utf8(bytes@) ==> (p matches Payload::Raw(s) ==> s@ == decode_utf8(bytes@)),
{
    if bytes.len() == 0 {
        return Payload::EmptyObject;
    }
    match doc {
        Some(v) => Payload::Json(v),
        None => Payload::Raw(lossy_text(bytes)),
    }
}

/// Turns a request body into the payload of its event.
pub fn parse_payload(bytes: &[u8]) -> (p: Payload)
    ensures
        p@ == payload_of(bytes@),
        bytes@.len() == 0 ==> p@ == PayloadView::EmptyObject,
        bytes@.len() > 0 && json_document(bytes@) is Some
            ==> p@ == PayloadView::Json(json_document(bytes@)->0),
        bytes@.len() > 0 && json_document(bytes@) is None
            ==> p@ == PayloadView::Raw(utf8_lossy(bytes@)),
        valid_utf8(bytes@) ==> (p matches Payload::Raw(s) ==> s@ == decode_utf8(bytes@)),
{
    if bytes.len() == 0 {
        return Payload::EmptyObject;
    }
    let doc = json_from_slice(bytes);
    payload_from(bytes, doc)
}

/// One trigger event, made from one accepted request.
#[derive(Debug)]
pub struct WebhookEvent {
    /// A fresh random identifier.
    pub id: String,
    /// When the event was made.
    pub occurred_at: Timestamp,
    /// `webhook`, or `webhook.<segment>` for a typed route.
    pub kind: String,
    /// The request body as JSON.
    pub payload: Payload,
    /// From the `X-Animus-Subject-Id` header.
    pub subject_id: Option<String>,
    /// From the `X-Animus-Action-Hint` header.
    pub action_hint: Option<String>,
}

/// Makes a new event with a fresh identifier and the current time.
pub fn new_event(
    kind: String,
    payload: Payload,
    subject_id: Option<String>,
    action_hint: Option<String>,
) -> (e: WebhookEvent)
    ensures
        e.kind == kind,
        e.payload == payload,
        e.subject_id == subject_id,
        e.action_hint == action_hint,
        is_uuid_v4_text(e.id@),
        e.occurred_at.secs >= 0,
        e.occurred_at.nanos < 1_000_000_000,
{
    let id = new_event_id();
    let occurred_at = current_time();
    WebhookEvent { id, occurred_at, kind, payload, subject_id, action_hint }
}

} // verus!
