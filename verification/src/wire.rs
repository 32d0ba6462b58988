use vstd::prelude::*;
use vstd::string::StringExecFns;
use vstd::string::StrSliceExecFns;
use crate::protocol::ClipboardBroadcast;
use crate::protocol::AuthResponse;

verus! {

/// The hexadecimal digit for a value below sixteen.
pub open spec fn hex_digit(n: int) -> char {
    if n == 0 { '0' } else if n == 1 { '1' } else if n == 2 { '2' } else if n == 3 { '3' }
    else if n == 4 { '4' } else if n == 5 { '5' } else if n == 6 { '6' } else if n == 7 { '7' }
    else if n == 8 { '8' } else if n == 9 { '9' } else if n == 10 { 'a' } else if n == 11 { 'b' }
    else if n == 12 { 'c' } else if n == 13 { 'd' } else if n == 14 { 'e' } else { 'f' }
}

/// How one character appears inside a JSON string literal: quote and
/// backslash are escaped, control characters take the universal escape, and
/// every other character stands as itself.
pub open spec fn escape_char(c: char) -> Seq<char> {
    if c == '"' {
        seq!['\\', '"']
    } else if c == '\\' {
        seq!['\\', '\\']
    } else if (c as int) < 32 {
        seq!['\\', 'u', '0', '0', hex_digit(c as int / 16), hex_digit(c as int % 16)]
    } else {
        seq![c]
    }
}

/// A whole text escaped character by character.
pub open spec fn escape_seq(s: Seq<char>) -> Seq<char>
    decreases s.len(),
{
    if s.len() == 0 {
        Seq::empty()
    } else {
        escape_seq(s.drop_last()) + escape_char(s.last())
    }
}

/// A JSON string literal: the escaped text between double quotes.
pub open spec fn json_string(s: Seq<char>) -> Seq<char> {
    seq!['"'] + escape_seq(s) + seq!['"']
}

/// The broadcast frame sent to peers: content type and data, no origin.
pub open spec fn spec_broadcast_json(content_type: Seq<char>, data: Seq<char>) -> Seq<char> {
    "{\"content_type\":"@ + json_string(content_type) + ",\"data\":"@ + json_string(data) + "}"@
}

/// The handshake response frame: success flag, message, and token or null.
pub open spec fn spec_auth_response_json(
    success: bool,
    message: Seq<char>,
    token: Option<Seq<char>>,
) -> Seq<char> {
    "{\"success\":"@ + (if success { "true"@ } else { "false"@ }) + ",\"message\":"@
        + json_string(message) + ",\"token\":"@ + (match token {
        Some(t) => json_string(t),
        None => "null"@,
    }) + "}"@
}

/// Relies on String::push: appends exactly the one character.
#[verifier::external_body]
fn push_char(out: &mut String, c: char)
    ensures
        final(out)@ == old(out)@ + seq![c],
{
    out.push(c);
}

/// The character of a hexadecimal digit.
fn hex_digit_char(n: u32) -> (c: char)
    requires
        n < 16,
    ensures
        c == hex_digit(n as int),
{
    if n == 0 { '0' } else if n == 1 { '1' } else if n == 2 { '2' } else if n == 3 { '3' }
    else if n == 4 { '4' } else if n == 5 { '5' } else if n == 6 { '6' } else if n == 7 { '7' }
    else if n == 8 { '8' } else if n == 9 { '9' } else if n == 10 { 'a' } else if n == 11 { 'b' }
    else if n == 12 { 'c' } else if n == 13 { 'd' } else if n == 14 { 'e' } else { 'f' }
}

/// Appends `s` as a JSON string literal, escaping as `json_string` states.
fn append_json_string(out: &mut String, s: &str)
    ensures
        final(out)@ == old(out)@ + json_string(s@),
{
    push_char(out, '"');
    let n = s.unicode_len();
    let mut i: usize = 0;
    while i < n
        invariant
            n == s@.len(),
            i <= n,
            out@ == old(out)@ + seq!['"'] + escape_seq(s@.take(i as int)),
        decreases n - i,
    {
        let c = s.get_char(i);
        if c == '"' {
            push_char(out, '\\');
            push_char(out, '"');
        } else if c == '\\' {
            push_char(out, '\\');
            push_char(out, '\\');
        } else if (c as u32) < 32 {
            push_char(out, '\\');
            push_char(out, 'u');
            push_char(out, '0');
            push_char(out, '0');
            push_char(out, hex_digit_char((c as u32) / 16));
            push_char(out, hex_digit_char((c as u32) % 16));
        } else {
            push_char(out, c);
        }
        proof {
            let t = s@.take(i + 1 as int);
            assert(t.drop_last() =~= s@.take(i as int));
            assert(t.last() == s@[i as int]);
            assert(out@ =~= old(out)@ + seq!['"'] + escape_seq(s@.take(i + 1 as int)));
        }
        i = i + 1;
    }
    push_char(out, '"');
    proof {
        assert(s@.take(n as int) =~= s@);
        assert(out@ =~= old(out)@ + json_string(s@));
    }
}

/// Encodes a broadcast message as its wire frame.
pub fn encode_broadcast(b: &ClipboardBroadcast) -> (r: String)
    ensures
        r@ == spec_broadcast_json(b.content_type@, b.data@),
{
    let mut out = String::new();
    out.append("{\"content_type\":");
    append_json_string(&mut out, b.content_type.as_str());
    out.append(",\"data\":");
    append_json_string(&mut out, b.data.as_str());
    out.append("}");
    proof {
        assert(out@ =~= spec_broadcast_json(b.content_type@, b.data@));
    }
    out
}

/// Encodes a handshake response as its wire frame.
pub fn encode_auth_response(resp: &AuthResponse) -> (r: String)
    ensures
        r@ == spec_auth_response_json(
            resp.success,
            resp.message@,
            match resp.token {
                Some(t) => Some(t@),
                None => None,
            },
        ),
{
    let mut out = String::new();
    out.append("{\"success\":");
    if resp.success {
        out.append("true");
    } else {
        out.append("false");
    }
    out.append(",\"message\":");
    append_json_string(&mut out, resp.message.as_str());
    out.append(",\"token\":");
    match &resp.token {
        Some(t) => append_json_string(&mut out, t.as_str()),
        None => out.append("null"),
    }
    out.append("}");
    proof {
        assert(out@ =~= spec_auth_response_json(
            resp.success,
            resp.message@,
            match resp.token {
                Some(t) => Some(t@),
                None => None,
            },
        ));
    }
    out
}

} // verus!
