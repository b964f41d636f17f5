//! The uniform replies of the service: an empty success reply, and an error
//! reply whose body is the JSON object `{"message": <diagnostic>}`. The
//! escaping of the diagnostic text and the status code of every outcome are
//! pinned down exactly.

use crate::ext::push_char;
use vstd::prelude::*;

verus! {

/// How one request ends: a status code and a reply body.
#[derive(Debug)]
pub struct Response {
    pub status: u16,
    pub body: String,
}

/// Why a request body was rejected before any storage work.
#[derive(PartialEq, Eq, Structural, Clone, Copy, Debug)]
pub enum DecodeError {
    /// The body is longer than the accepted limit.
    PayloadTooLarge,
    /// The body is not well-formed JSON of the endpoint's shape.
    MalformedBody,
}

/// How one character of a diagnostic is written inside a JSON string: the
/// characters with a short escape are escaped, any other control character
/// becomes a space, and everything else stands as it is.
pub open spec fn escape_char_seq(c: char) -> Seq<char> {
    if c == '"' {
        seq!['\\', '"']
    } else if c == '\\' {
        seq!['\\', '\\']
    } else if c == '\n' {
        seq!['\\', 'n']
    } else if c == '\r' {
        seq!['\\', 'r']
    } else if c == '\t' {
        seq!['\\', 't']
    } else if (c as u32) < 0x20 {
        seq![' ']
    } else {
        seq![c]
    }
}

/// The suffix of `s` from `i` on, escaped character by character.
pub open spec fn escaped_from(s: Seq<char>, i: int) -> Seq<char>
    decreases s.len() - i,
{
    if 0 <= i < s.len() {
        escape_char_seq(s[i]) + escaped_from(s, i + 1)
    } else {
        Seq::empty()
    }
}

/// A whole diagnostic, escaped for use inside a JSON string.
pub open spec fn json_escaped(s: Seq<char>) -> Seq<char> {
    escaped_from(s, 0)
}

/// The body of every error reply: `{"message":"<escaped diagnostic>"}`.
pub open spec fn error_body(m: Seq<char>) -> Seq<char> {
    "{\"message\":\""@ + json_escaped(m) + "\"}"@
}

/// The diagnostic of a rejected oversized body.
pub open spec fn too_large_msg() -> Seq<char> {
    "request body exceeds the 16384 byte limit"@
}

/// The diagnostic of a body that does not decode.
pub open spec fn malformed_msg() -> Seq<char> {
    "request body is not a valid payload for this endpoint"@
}

fn escape_char_exec(c: char) -> (r: String)
    ensures
        r@ == escape_char_seq(c),
{
    let mut out = String::new();
    if c == '"' {
        push_char(&mut out, '\\');
        push_char(&mut out, '"');
        proof {
            assert(out@ =~= seq!['\\', '"']);
        }
    } else if c == '\\' {
        push_char(&mut out, '\\');
        push_char(&mut out, '\\');
        proof {
            assert(out@ =~= seq!['\\', '\\']);
        }
    } else if c == '\n' {
        push_char(&mut out, '\\');
        push_char(&mut out, 'n');
        proof {
            assert(out@ =~= seq!['\\', 'n']);
        }
    } else if c == '\r' {
        push_char(&mut out, '\\');
        push_char(&mut out, 'r');
        proof {
            assert(out@ =~= seq!['\\', 'r']);
        }
    } else if c == '\t' {
        push_char(&mut out, '\\');
        push_char(&mut out, 't');
        proof {
            assert(out@ =~= seq!['\\', 't']);
        }
    } else if (c as u32) < 0x20 {
        push_char(&mut out, ' ');
        proof {
            assert(out@ =~= seq![' ']);
        }
    } else {
        push_char(&mut out, c);
        proof {
            assert(out@ =~= seq![c]);
        }
    }
    out
}

fn escape_from_exec(s: &str, i: usize) -> (r: String)
    ensures
        r@ == escaped_from(s@, i as int),
    decreases s@.len() - i,
{
    let len = s.unicode_len();
    if i < len {
        let mut out = escape_char_exec(s.get_char(i));
        let rest = escape_from_exec(s, i + 1);
        out.append(rest.as_str());
        out
    } else {
        String::new()
    }
}

/// Builds the uniform error body around an escaped diagnostic.
pub fn build_error_body(m: &str) -> (r: String)
    ensures
        r@ == error_body(m@),
{
    let mut out = String::from_str("{\"message\":\"");
    let escaped = escape_from_exec(m, 0);
    out.append(escaped.as_str());
    out.append("\"}");
    out
}

/// The success reply: status 200 with an empty body.
pub fn ok_response() -> (r: Response)
    ensures
        r.status == 200,
        r.body@ == Seq::<char>::empty(),
{
    Response { status: 200, body: String::new() }
}

/// An error reply carrying a diagnostic in the uniform body shape.
pub fn error_response(status: u16, m: &str) -> (r: Response)
    ensures
        r.status == status,
        r.body@ == error_body(m@),
{
    Response { status, body: build_error_body(m) }
}

/// The reply owed to each decode failure: an oversized body is refused with
/// status 413, a malformed one with status 400, each with its diagnostic.
pub fn reply_for_decode(e: DecodeError) -> (r: Response)
    ensures
        e == DecodeError::PayloadTooLarge ==> r.status == 413 && r.body@ == error_body(
            too_large_msg(),
        ),
        e == DecodeError::MalformedBody ==> r.status == 400 && r.body@ == error_body(
            malformed_msg(),
        ),
{
    match e {
        DecodeError::PayloadTooLarge => error_response(
            413,
            "request body exceeds the 16384 byte limit",
        ),
        DecodeError::MalformedBody => error_response(
            400,
            "request body is not a valid payload for this endpoint",
        ),
    }
}

/// The reply owed to each outcome of an insert whose failure diagnostic has
/// already been read out of the engine's error: success is an empty 200
/// reply, failure a 500 reply carrying the diagnostic.
pub fn reply_for_insert(res: Result<usize, String>) -> (r: Response)
    ensures
        match res {
            Ok(_) => r.status == 200 && r.body@ == Seq::<char>::empty(),
            Err(m) => r.status == 500 && r.body@ == error_body(m@),
        },
{
    match res {
        Ok(_) => ok_response(),
        Err(m) => error_response(500, m.as_str()),
    }
}

/// The diagnostic constants are real text: an error reply for a rejected
/// body always carries a non-empty message.
pub proof fn lemma_reject_msgs_nonempty()
    ensures
        too_large_msg().len() > 0,
        malformed_msg().len() > 0,
{
    reveal_strlit("request body exceeds the 16384 byte limit");
    reveal_strlit("request body is not a valid payload for this endpoint");
}

} // verus!
