//! Per-request decisions of the webhook HTTP server.

use vstd::prelude::*;
use crate::text::push_char;
use crate::backend::KIND_DEFAULT;
use crate::config::{opt_view, auth_token_of};
use crate::event::{WebhookEvent, payload_of, is_uuid_v4_text, parse_payload, new_event};

verus! {

/// A character that may stay in a route segment: an ASCII letter or digit,
/// a dot, a dash or an underscore.
pub open spec fn is_segment_char(c: char) -> bool {
    ||| ('a' <= c && c <= 'z')
    ||| ('A' <= c && c <= 'Z')
    ||| ('0' <= c && c <= '9')
    ||| c == '.'
    ||| c == '-'
    ||| c == '_'
}

/// What remains of a route segment once every unsafe character is dropped.
pub open spec fn sanitized(raw: Seq<char>) -> Seq<char> {
    raw.filter(|c: char| is_segment_char(c))
}

/// Drops every character of `raw` that is not an ASCII letter, digit, dot,
/// dash or underscore, keeping the others in order.
pub fn sanitize_segment(raw: &str) -> (out: String)
    ensures
        out@ == sanitized(raw@),
        (forall|i: int| 0 <= i < raw@.len() ==> {
            let c = #[trigger] raw@[i];
            ('a' <= c && c <= 'z') || ('A' <= c && c <= 'Z') || ('0' <= c && c <= '9')
                || c == '.' || c == '-' || c == '_'
        }) ==> out@ == raw@,
        forall|i: int| 0 <= i < out@.len() ==> {
            let c = #[trigger] out@[i];
            ('a' <= c && c <= 'z') || ('A' <= c && c <= 'Z') || ('0' <= c && c <= '9')
                || c == '.' || c == '-' || c == '_'
        },
{
    let mut out = String::new();
    for c in it: raw.chars()
        invariant
            it.seq() == raw@,
            out@ == sanitized(it.seq().take(it.index() as int)),
    {
        let ghost i = it.index() as int;
        let ghost before = it.seq().take(i);
        let ghost after = it.seq().take(i + 1);
        proof {
            reveal_with_fuel(Seq::filter, 1);
            assert(after.drop_last() =~= before);
            assert(after.last() == c);
            assert(sanitized(after) == (if is_segment_char(c) { sanitized(before).push(c) } else { sanitized(before) }));
        }
        let keep = (c >= 'a' && c <= 'z') || (c >= 'A' && c <= 'Z') || (c >= '0' && c <= '9')
            || c == '.' || c == '-' || c == '_';
        if keep {
            push_char(&mut out, c);
        }
        assert(keep == is_segment_char(c));
    }
    proof {
        assert(raw@.take(raw@.len() as int) =~= raw@);
        sanitize_laws(raw@);
    }
    out
}

/// Sanitizing, one character at a time: an ASCII letter (either case), digit,
/// `.`, `-` or `_` appended to a segment is appended to its sanitized form;
/// any other character is dropped. The empty segment stays empty. Together
/// these fix the sanitized form of every segment.
pub proof fn sanitize_step_law(raw: Seq<char>, c: char)
    ensures
        sanitized(Seq::<char>::empty()) == Seq::<char>::empty(),
        (('a' <= c && c <= 'z') || ('A' <= c && c <= 'Z') || ('0' <= c && c <= '9')
            || c == '.' || c == '-' || c == '_') ==> sanitized(raw.push(c)) == sanitized(raw).push(c),
        !(('a' <= c && c <= 'z') || ('A' <= c && c <= 'Z') || ('0' <= c && c <= '9')
            || c == '.' || c == '-' || c == '_') ==> sanitized(raw.push(c)) == sanitized(raw),
{
    reveal_with_fuel(Seq::filter, 1);
    assert(raw.push(c).drop_last() =~= raw);
    assert(raw.push(c).last() == c);
}

/// A segment made only of ASCII letters of either case, digits, `.`, `-` and
/// `_` comes out of sanitizing unchanged, and sanitizing never leaves any
/// other character.
pub proof fn sanitize_keeps_safe_segments(raw: Seq<char>)
    ensures
        (forall|i: int| 0 <= i < raw.len() ==> {
            let c = #[trigger] raw[i];
            ('a' <= c && c <= 'z') || ('A' <= c && c <= 'Z') || ('0' <= c && c <= '9')
                || c == '.' || c == '-' || c == '_'
        }) ==> sanitized(raw) == raw,
        forall|i: int| 0 <= i < sanitized(raw).len() ==> {
            let c = #[trigger] sanitized(raw)[i];
            ('a' <= c && c <= 'z') || ('A' <= c && c <= 'Z') || ('0' <= c && c <= '9')
                || c == '.' || c == '-' || c == '_'
        },
{
    sanitize_laws(raw);
}

/// The kind of a typed route whose segment is non-empty and made only of
/// ASCII letters, digits, `.`, `-` and `_` is `webhook.<segment>`; the root
/// route's kind is `webhook`.
pub proof fn route_kind_of_safe_segment(raw: Seq<char>)
    ensures
        kind_for_route(None) == KIND_DEFAULT@,
        raw.len() > 0 && (forall|i: int| 0 <= i < raw.len() ==> {
            let c = #[trigger] raw[i];
            ('a' <= c && c <= 'z') || ('A' <= c && c <= 'Z') || ('0' <= c && c <= '9')
                || c == '.' || c == '-' || c == '_'
        }) ==> kind_for_route(Some(raw)) == KIND_DEFAULT@ + seq!['.'] + raw,
{
    sanitize_laws(raw);
}

/// Sanitizing is idempotent, keeps only safe characters, and leaves a
/// segment made of safe characters alone.
pub proof fn sanitize_laws(raw: Seq<char>)
    ensures
        sanitized(sanitized(raw)) == sanitized(raw),
        forall|i: int| 0 <= i < sanitized(raw).len() ==> is_segment_char(#[trigger] sanitized(raw)[i]),
        (forall|i: int| 0 <= i < raw.len() ==> is_segment_char(#[trigger] raw[i])) ==> sanitized(raw) == raw,
        sanitized(raw).len() <= raw.len(),
    decreases raw.len(),
{
    reveal_with_fuel(Seq::filter, 1);
    if raw.len() > 0 {
        sanitize_laws(raw.drop_last());
        let rest = raw.drop_last();
        if is_segment_char(raw.last()) {
            assert(sanitized(raw) == sanitized(rest).push(raw.last()));
            let s = sanitized(raw);
            assert(s.drop_last() =~= sanitized(rest));
            assert(sanitized(s) == sanitized(s.drop_last()).push(s.last()));
            if forall|i: int| 0 <= i < raw.len() ==> is_segment_char(#[trigger] raw[i]) {
                assert forall|i: int| 0 <= i < rest.len() implies is_segment_char(#[trigger] rest[i]) by {
                    assert(rest[i] == raw[i]);
                }
                assert(sanitized(raw) =~= raw);
            }
        } else {
            assert(sanitized(raw) == sanitized(rest));
            assert(!is_segment_char(raw[raw.len() - 1]));
        }
    } else {
        assert(sanitized(raw) =~= raw);
    }
}

/// A typed route's kind depends only on what survives sanitizing: two raw
/// segments with the same sanitized text name the same kind, and a segment
/// equals its sanitized form as far as the kind goes.
pub proof fn route_kind_depends_on_sanitized_segment(raw: Seq<char>)
    ensures
        kind_for_route(Some(raw)) == kind_for_route(Some(sanitized(raw))),
{
    sanitize_laws(raw);
}

/// Header that fills an event's subject id.
pub const HEADER_SUBJECT_ID: &'static str = "X-Animus-Subject-Id";

/// Header that fills an event's action hint.
pub const HEADER_ACTION_HINT: &'static str = "X-Animus-Action-Hint";

/// Largest request body accepted; a larger one is answered `413`.
pub const MAX_BODY_BYTES: usize = 1024 * 1024;

/// The kind of the event a route emits: `webhook` for the root route; for
/// `/webhooks/<segment>`, `webhook.<sanitized segment>`, or `webhook` when
/// nothing of the segment survives sanitizing.
pub open spec fn kind_for_route(segment: Option<Seq<char>>) -> Seq<char> {
    match segment {
        None => KIND_DEFAULT@,
        Some(raw) => {
            let s = sanitized(raw);
            if s.len() == 0 {
                KIND_DEFAULT@
            } else {
                KIND_DEFAULT@ + seq!['.'] + s
            }
        },
    }
}

/// The event kind for the root route (`None`) or a typed route's raw path
/// segment.
pub fn route_kind(segment: Option<&str>) -> (kind: String)
    ensures
        kind@ == kind_for_route(match segment {
            Some(s) => Some(s@),
            None => None,
        }),
{
    match segment {
        None => String::from_str(KIND_DEFAULT),
        Some(raw) => {
            let s = sanitize_segment(raw);
            if s.as_str().is_empty() {
                String::from_str(KIND_DEFAULT)
            } else {
                let mut kind = String::from_str(KIND_DEFAULT);
                push_char(&mut kind, '.');
                kind.append(s.as_str());
                kind
            }
        },
    }
}

/// A byte that a header value may hold to be read as text: visible ASCII or
/// a tab.
pub open spec fn is_visible_ascii(b: u8) -> bool {
    (32 <= b && b < 127) || b == 9
}

/// A header value that reads as text.
pub open spec fn is_header_text(bytes: Seq<u8>) -> bool {
    forall|i: int| 0 <= i < bytes.len() ==> is_visible_ascii(bytes[i])
}

/// ASCII bytes read as characters.
pub open spec fn ascii_chars(bytes: Seq<u8>) -> Seq<char> {
    bytes.map_values(|b: u8| b as char)
}

/// The view of optional bytes.
pub open spec fn opt_bytes(v: Option<Vec<u8>>) -> Option<Seq<u8>> {
    match v {
        Some(b) => Some(b@),
        None => None,
    }
}

/// The value an event field takes from a header: its text, unless the header
/// is absent, does not read as text, or is empty.
pub open spec fn header_field_of(raw: Option<Seq<u8>>) -> Option<Seq<char>> {
    match raw {
        Some(b) => if is_header_text(b) && b.len() > 0 {
            Some(ascii_chars(b))
        } else {
            None
        },
        None => None,
    }
}

/// The characters of `bytes[from..]`, read as ASCII.
fn ascii_string(bytes: &[u8], from: usize) -> (s: String)
    requires
        from <= bytes@.len(),
    ensures
        s@ == ascii_chars(bytes@.skip(from as int)),
{
    let mut s = String::new();
    let mut i = from;
    while i < bytes.len()
        invariant
            from <= i <= bytes@.len(),
            s@ == ascii_chars(bytes@.subrange(from as int, i as int)),
        decreases bytes@.len() - i,
    {
        let b = bytes[i];
        push_char(&mut s, b as char);
        proof {
            assert(ascii_chars(bytes@.subrange(from as int, i + 1)) =~= ascii_chars(
                bytes@.subrange(from as int, i as int),
            ).push(b as char));
        }
        i = i + 1;
    }
    proof {
        assert(bytes@.subrange(from as int, bytes@.len() as int) =~= bytes@.skip(from as int));
    }
    s
}

/// Whether every byte reads as header text.
fn all_visible_ascii(bytes: &[u8]) -> (ok: bool)
    ensures
        ok == is_header_text(bytes@),
{
    let mut i: usize = 0;
    while i < bytes.len()
        invariant
            i <= bytes@.len(),
            forall|j: int| 0 <= j < i ==> is_visible_ascii(bytes@[j]),
        decreases bytes@.len() - i,
    {
        let b = bytes[i];
        if !((32 <= b && b < 127) || b == 9) {
            return false;
        }
        i = i + 1;
    }
    true
}

/// Reads a header value as text, as `HeaderValue::to_str` does: `None` when
/// a byte is neither visible ASCII nor a tab.
pub fn header_text(bytes: &[u8]) -> (text: Option<String>)
    ensures
        match text {
            Some(t) => is_header_text(bytes@) && t@ == ascii_chars(bytes@),
            None => !is_header_text(bytes@),
        },
{
    if all_visible_ascii(bytes) {
        let t = ascii_string(bytes, 0);
        proof {
            assert(bytes@.skip(0) =~= bytes@);
        }
        Some(t)
    } else {
        None
    }
}

/// The event field a header fills: its text, unless the header is absent,
/// not text, or empty.
pub fn header_field(raw: &Option<Vec<u8>>) -> (field: Option<String>)
    ensures
        opt_view(field) == header_field_of(opt_bytes(*raw)),
        raw is None ==> field is None,
        raw matches Some(b) ==> (b@.len() == 0 ==> field is None),
        raw matches Some(b) ==> ((exists|i: int| 0 <= i < b@.len()
            && !((32 <= #[trigger] b@[i] && b@[i] <= 126) || b@[i] == 9)) ==> field is None),
        raw matches Some(b) ==> ((b@.len() > 0 && forall|i: int| 0 <= i < b@.len()
            ==> ((32 <= #[trigger] b@[i] && b@[i] <= 126) || b@[i] == 9)) ==> (field is Some
            && field->0@.len() == b@.len()
            && forall|i: int| 0 <= i < b@.len() ==> field->0@[i] == #[trigger] b@[i] as char)),
{
    match raw {
        Some(bytes) => {
            if bytes.len() == 0 {
                None
            } else {
                header_text(bytes.as_slice())
            }
        },
        None => None,
    }
}

/// A present, non-empty header value made only of visible ASCII (32 to 126)
/// or tabs fills the field with exactly its text, at any length; an absent or
/// empty header, or one holding any other byte, fills nothing.
pub proof fn header_field_law(b: Seq<u8>)
    ensures
        header_field_of(None) is None,
        header_field_of(Some(Seq::<u8>::empty())) is None,
        (exists|i: int| 0 <= i < b.len() && !((32 <= #[trigger] b[i] && b[i] <= 126) || b[i] == 9))
            ==> header_field_of(Some(b)) is None,
        b.len() > 0 && (forall|i: int| 0 <= i < b.len() ==> ((32 <= #[trigger] b[i] && b[i] <= 126) || b[i] == 9))
            ==> (header_field_of(Some(b)) is Some
                && header_field_of(Some(b))->0.len() == b.len()
                && forall|i: int| 0 <= i < b.len() ==> header_field_of(Some(b))->0[i] == #[trigger] b[i] as char),
{
    if exists|i: int| 0 <= i < b.len() && !((32 <= #[trigger] b[i] && b[i] <= 126) || b[i] == 9) {
        let i = choose|i: int| 0 <= i < b.len() && !((32 <= #[trigger] b[i] && b[i] <= 126) || b[i] == 9);
        assert(!is_visible_ascii(b[i]));
    }
}

/// HTTP statuses the webhook endpoint answers with.
#[derive(Clone, Copy, Debug, PartialEq, Eq)]
pub enum Status {
    /// `202`: the event was queued.
    Accepted,
    /// `401`: bearer authentication failed.
    Unauthorized,
    /// `413`: the body could not be read within `MAX_BODY_BYTES`.
    PayloadTooLarge,
    /// `503`: the event channel was full or closed; the event was dropped.
    ServiceUnavailable,
}

impl Status {
    /// The numeric HTTP status code.
    pub fn code(&self) -> (c: u16)
        ensures
            c == match self {
                Status::Accepted => 202u16,
                Status::Unauthorized => 401u16,
                Status::PayloadTooLarge => 413u16,
                Status::ServiceUnavailable => 503u16,
            },
    {
        match self {
            Status::Accepted => 202,
            Status::Unauthorized => 401,
            Status::PayloadTooLarge => 413,
            Status::ServiceUnavailable => 503,
        }
    }
}

/// The scheme prefix of a bearer `Authorization` header.
pub open spec fn bearer_prefix() -> Seq<char> {
    seq!['B', 'e', 'a', 'r', 'e', 'r', ' ']
}

/// Whether a request with this `Authorization` header value passes when the
/// server expects `expected`: with no token every request passes; with a
/// token, the header must read exactly `Bearer <token>`.
pub open spec fn authorized(expected: Option<Seq<char>>, authorization: Option<Seq<u8>>) -> bool {
    match expected {
        None => true,
        Some(token) => match authorization {
            None => false,
            Some(b) => is_header_text(b) && ascii_chars(b) == bearer_prefix() + token,
        },
    }
}

/// Whether the first bytes of `bytes` spell `Bearer `.
fn starts_with_bearer(bytes: &[u8]) -> (yes: bool)
    ensures
        yes == (bytes@.len() >= 7 && ascii_chars(bytes@).take(7) == bearer_prefix()),
{
    if bytes.len() < 7 {
        return false;
    }
    let yes = bytes[0] == 66u8 && bytes[1] == 101u8 && bytes[2] == 97u8 && bytes[3] == 114u8
        && bytes[4] == 101u8 && bytes[5] == 114u8 && bytes[6] == 32u8;
    proof {
        let t = ascii_chars(bytes@).take(7);
        if yes {
            assert(t =~= bearer_prefix());
        } else if t == bearer_prefix() {
            assert(t[0] == 'B' && t[1] == 'e' && t[2] == 'a' && t[3] == 'r');
            assert(t[4] == 'e' && t[5] == 'r' && t[6] == ' ');
        }
    }
    yes
}

/// Checks bearer authentication: passes when no token is expected, or when
/// the `Authorization` header reads `Bearer <expected token>`; answers `401`
/// otherwise.
pub fn check_auth(expected: &Option<String>, authorization: &Option<Vec<u8>>) -> (res: Result<(), Status>)
    ensures
        res is Ok <==> authorized(opt_view(*expected), opt_bytes(*authorization)),
        res is Err ==> res == Err::<(), Status>(Status::Unauthorized),
{
    match expected {
        None => Ok(()),
        Some(token) => match authorization {
            None => Err(Status::Unauthorized),
            Some(raw) => {
                let bytes = raw.as_slice();
                if !all_visible_ascii(bytes) {
                    return Err(Status::Unauthorized);
                }
                if !starts_with_bearer(bytes) {
                    proof {
                        if ascii_chars(bytes@) == bearer_prefix() + token@ {
                            assert(ascii_chars(bytes@).take(7) =~= bearer_prefix());
                        }
                    }
                    return Err(Status::Unauthorized);
                }
                let presented = ascii_string(bytes, 7);
                proof {
                    let t = ascii_chars(bytes@);
                    assert(t.skip(7) =~= ascii_chars(bytes@.skip(7)));
                    assert(t =~= t.take(7) + t.skip(7));
                    if t == bearer_prefix() + token@ {
                        assert(t.skip(7) =~= token@);
                    }
                }
                if presented == *token {
                    Ok(())
                } else {
                    Err(Status::Unauthorized)
                }
            },
        },
    }
}

/// With no token configured every request passes; with a token, a request
/// without `Authorization` fails, `Bearer <token>` passes, `Bearer <other>`
/// fails, and a header not in the `Bearer` scheme fails (even when the token
/// is empty).
pub proof fn bearer_auth_laws(token: Seq<char>, other: Seq<char>, header: Seq<u8>, authorization: Option<Seq<u8>>)
    ensures
        authorized(None, authorization),
        !authorized(Some(token), None),
        is_header_text(header) && ascii_chars(header) == bearer_prefix() + token
            ==> authorized(Some(token), Some(header)),
        is_header_text(header) && ascii_chars(header) == bearer_prefix() + other && other != token
            ==> !authorized(Some(token), Some(header)),
        !(ascii_chars(header).len() >= 7 && ascii_chars(header).take(7) == bearer_prefix())
            ==> !authorized(Some(token), Some(header)),
{
    let t = ascii_chars(header);
    if t == bearer_prefix() + token {
        assert(t.take(7) =~= bearer_prefix());
    }
    if t == bearer_prefix() + other && other != token {
        if t == bearer_prefix() + token {
            assert(t.skip(7) =~= token);
            assert(t.skip(7) =~= other);
        }
    }
}

/// With a token, a header passes exactly when its bytes are `Bearer `
/// (66 101 97 114 101 114 32) followed by the token's characters, each a
/// visible ASCII byte or a tab.
pub proof fn bearer_bytes_law(token: Seq<char>, b: Seq<u8>)
    ensures
        authorized(Some(token), Some(b)) <==> (
            b.len() == token.len() + 7
            && b[0] == 66u8 && b[1] == 101u8 && b[2] == 97u8 && b[3] == 114u8
            && b[4] == 101u8 && b[5] == 114u8 && b[6] == 32u8
            && (forall|i: int| 0 <= i < b.len() ==> ((32 <= #[trigger] b[i] && b[i] <= 126) || b[i] == 9))
            && (forall|i: int| 0 <= i < token.len() ==> #[trigger] token[i] == b[i + 7] as char)
        ),
{
    let t = ascii_chars(b);
    let want = bearer_prefix() + token;
    let cond = b.len() == token.len() + 7
        && b[0] == 66u8 && b[1] == 101u8 && b[2] == 97u8 && b[3] == 114u8
        && b[4] == 101u8 && b[5] == 114u8 && b[6] == 32u8
        && (forall|i: int| 0 <= i < b.len() ==> ((32 <= #[trigger] b[i] && b[i] <= 126) || b[i] == 9))
        && (forall|i: int| 0 <= i < token.len() ==> #[trigger] token[i] == b[i + 7] as char);
    if authorized(Some(token), Some(b)) {
        assert(t == want);
        assert(b.len() == t.len());
        assert(t[0] == 'B' && t[1] == 'e' && t[2] == 'a' && t[3] == 'r');
        assert(t[4] == 'e' && t[5] == 'r' && t[6] == ' ');
        assert(b[0] as char == 'B');
        assert(b[0] == 66u8);
        assert(b[1] == 101u8);
        assert(b[2] == 97u8);
        assert(b[3] == 114u8);
        assert(b[4] == 101u8);
        assert(b[5] == 114u8);
        assert(b[6] == 32u8);
        assert forall|i: int| 0 <= i < token.len() implies #[trigger] token[i] == b[i + 7] as char by {
            assert(want[i + 7] == token[i]);
        }
        assert forall|i: int| 0 <= i < b.len() implies ((32 <= #[trigger] b[i] && b[i] <= 126) || b[i] == 9) by {
            assert(is_visible_ascii(b[i]));
        }
    }
    if cond {
        assert(t =~= want);
    }
}

/// An unset or empty bearer-token setting lets every request through.
pub proof fn unset_token_accepts_every_request(raw_token: Option<Seq<char>>, authorization: Option<Seq<u8>>)
    requires
        raw_token matches Some(t) ==> t.len() == 0,
    ensures
        authorized(auth_token_of(raw_token), authorization),
{
}

/// An inbound POST, as the server read it: the raw values of the headers it
/// consults (first value of each, `None` when absent) and the body, `None`
/// when it could not be read within `MAX_BODY_BYTES`.
pub struct InboundRequest {
    pub authorization: Option<Vec<u8>>,
    pub subject_id: Option<Vec<u8>>,
    pub action_hint: Option<Vec<u8>>,
    pub body: Option<Vec<u8>>,
}

/// A body that was read and fits the limit.
pub open spec fn body_fits(body: Option<Seq<u8>>) -> bool {
    match body {
        Some(b) => b.len() <= MAX_BODY_BYTES,
        None => false,
    }
}

/// A body of at most 1 MiB (`MAX_BODY_BYTES`, 1,048,576 bytes) fits; a
/// longer one, or one that could not be read, does not.
pub proof fn body_limit_law(b: Seq<u8>)
    ensures
        MAX_BODY_BYTES == 1048576,
        b.len() <= 1048576 ==> body_fits(Some(b)),
        b.len() > 1048576 ==> !body_fits(Some(b)),
        !body_fits(None),
{
}

/// What an accepted request's event holds.
pub open spec fn event_for(e: WebhookEvent, kind: Seq<char>, request: InboundRequest) -> bool {
    &&& e.kind@ == kind
    &&& e.payload@ == payload_of(request.body->0@)
    &&& opt_view(e.subject_id) == header_field_of(opt_bytes(request.subject_id))
    &&& opt_view(e.action_hint) == header_field_of(opt_bytes(request.action_hint))
    &&& is_uuid_v4_text(e.id@)
    &&& e.occurred_at.secs >= 0
    &&& e.occurred_at.nanos < 1_000_000_000
}

/// Decides one request to a route whose event kind is `kind`: `401` when
/// bearer authentication fails, `413` when the body was not read within the
/// limit, else the event to queue.
pub fn handle_request(auth_token: &Option<String>, kind: String, request: InboundRequest) -> (res: Result<WebhookEvent, Status>)
    ensures
        !authorized(opt_view(*auth_token), opt_bytes(request.authorization))
            ==> res matches Err(Status::Unauthorized),
        authorized(opt_view(*auth_token), opt_bytes(request.authorization))
            && !body_fits(opt_bytes(request.body)) ==> res matches Err(Status::PayloadTooLarge),
        authorized(opt_view(*auth_token), opt_bytes(request.authorization))
            && body_fits(opt_bytes(request.body)) ==> (res matches Ok(e) && event_for(e, kind@, request)),
        authorized(opt_view(*auth_token), opt_bytes(request.authorization))
            && (request.body matches Some(b) && b@.len() <= MAX_BODY_BYTES) ==> res is Ok,
        authorized(opt_view(*auth_token), opt_bytes(request.authorization))
            && (request.body matches Some(b) && b@.len() > MAX_BODY_BYTES) ==> res matches Err(Status::PayloadTooLarge),
{
    let InboundRequest { authorization, subject_id, action_hint, body } = request;
    if let Err(status) = check_auth(auth_token, &authorization) {
        return Err(status);
    }
    let bytes = match body {
        Some(b) => b,
        None => return Err(Status::PayloadTooLarge),
    };
    if bytes.len() > MAX_BODY_BYTES {
        return Err(Status::PayloadTooLarge);
    }
    let payload = parse_payload(bytes.as_slice());
    let subject = header_field(&subject_id);
    let hint = header_field(&action_hint);
    let event = new_event(kind, payload, subject, hint);
    Ok(event)
}

/// The answer to an accepted request once its event was offered to the event
/// channel: `202` when it was queued, `503` when the channel refused it.
pub fn delivery_status(queued: bool) -> (status: Status)
    ensures
        status == delivery_status_of(queued),
        queued ==> status == Status::Accepted,
        !queued ==> status == Status::ServiceUnavailable,
{
    if queued {
        Status::Accepted
    } else {
        Status::ServiceUnavailable
    }
}

/// Answers one request to a route whose event kind is `kind`: `401` when
/// bearer authentication fails, `413` when the body was not read within the
/// limit; otherwise the request's event is offered to `enqueue` (which
/// reports whether the event channel took it), and the answer is `202` when
/// it did, `503` when it did not. `enqueue` may be called only with the event
/// of an accepted request, so a refused request hands it nothing.
pub fn respond<F: FnOnce(WebhookEvent) -> bool>(
    auth_token: &Option<String>,
    kind: String,
    request: InboundRequest,
    enqueue: F,
) -> (status: Status)
    requires
        forall|e: WebhookEvent|
            authorized(opt_view(*auth_token), opt_bytes(request.authorization))
                && body_fits(opt_bytes(request.body)) && #[trigger] event_for(e, kind@, request)
                ==> enqueue.requires((e,)),
    ensures
        !authorized(opt_view(*auth_token), opt_bytes(request.authorization))
            ==> status == Status::Unauthorized,
        authorized(opt_view(*auth_token), opt_bytes(request.authorization))
            && !body_fits(opt_bytes(request.body)) ==> status == Status::PayloadTooLarge,
        authorized(opt_view(*auth_token), opt_bytes(request.authorization))
            && body_fits(opt_bytes(request.body)) ==> exists|e: WebhookEvent, queued: bool|
                #[trigger] enqueue.ensures((e,), queued) && event_for(e, kind@, request)
                && status == delivery_status_of(queued),
{
    match handle_request(auth_token, kind, request) {
        Err(status) => status,
        Ok(event) => {
            let ghost e = event;
            let queued = enqueue(event);
            assert(enqueue.ensures((e,), queued));
            delivery_status(queued)
        },
    }
}

/// An accepted request is answered `202` when its event was queued and `503`
/// when the channel refused it; the headers the event reads are
/// `X-Animus-Subject-Id` and `X-Animus-Action-Hint`.
pub proof fn delivery_law()
    ensures
        delivery_status_of(true) == Status::Accepted,
        delivery_status_of(false) == Status::ServiceUnavailable,
        HEADER_SUBJECT_ID@ == "X-Animus-Subject-Id"@,
        HEADER_ACTION_HINT@ == "X-Animus-Action-Hint"@,
{
}

/// The answer once an accepted request's event was offered to the channel.
pub open spec fn delivery_status_of(queued: bool) -> Status {
    if queued { Status::Accepted } else { Status::ServiceUnavailable }
}

} // verus!
