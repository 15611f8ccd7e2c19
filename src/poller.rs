//! The guest exec poller's protocol: a `guest-exec` request starts a process in
//! the guest and returns a token; `guest-exec-status` requests keyed by that token
//! report whether it has exited and, once it has, its base64-encoded output.

use vstd::prelude::*;
use vstd::utf8::{decode_utf8, valid_utf8};
use crate::json::{field, json_quoted, quote_json, str_field, views, Json};
use crate::rpc::{decode_reply, reply_outcome};
use crate::text::{chars_of, dec, push_dec, u64_text, parse_u64_range};

verus! {

/// The process handle a `guest-exec` reply gives: agents send it as a number or
/// as a string.
#[derive(Debug)]
pub enum Token {
    Numeric(u64),
    Text(String),
}

/// The token in a `guest-exec` reply's `return` member: a `pid` that is a
/// non-negative integer, or a string.
pub open spec fn token_of(ret: Json) -> Option<Token> {
    match field(ret, "pid"@) {
        Some(Json::Number(n)) => match u64_text(n@) {
            Some(v) => Some(Token::Numeric(v)),
            None => None,
        },
        Some(Json::Str(s)) => Some(Token::Text(s)),
        _ => None,
    }
}

/// Reads the token from a `guest-exec` reply's `return` member.
pub fn token_from_return(ret: Json) -> (r: Option<Token>)
    ensures
        r == token_of(ret),
{
    match ret.get("pid") {
        Some(Json::Number(n)) => {
            let cs = chars_of(n.as_str());
            assert(cs@.subrange(0, cs@.len() as int) =~= n@);
            match parse_u64_range(&cs, 0, cs.len()) {
                Some(v) => Some(Token::Numeric(v)),
                None => None,
            }
        },
        Some(Json::Str(s)) => Some(Token::Text(s)),
        _ => None,
    }
}

/// The text of the `pid` in a status request: the token as a JSON number when
/// `numeric`, else as a JSON string. A string token has a numeric form only when
/// it spells a `u64`.
pub open spec fn pid_text(t: Token, numeric: bool) -> Option<Seq<char>> {
    match t {
        Token::Numeric(n) => if numeric {
            Some(dec(n as nat))
        } else {
            Some(json_quoted(dec(n as nat)))
        },
        Token::Text(s) => if numeric {
            match u64_text(s@) {
                Some(v) => Some(dec(v as nat)),
                None => None,
            }
        } else {
            Some(json_quoted(s@))
        },
    }
}

/// The encoding the token came in: numeric for a number, string for a string.
pub open spec fn primary_numeric(t: Token) -> bool {
    t is Numeric
}

/// Wire text of a status request for the process whose pid is written `pid`.
pub open spec fn status_request_text(pid: Seq<char>) -> Seq<char> {
    "{\"execute\":\"guest-exec-status\",\"arguments\":{\"pid\":"@ + pid + "}}"@
}

/// The status request for `token`, with the pid written as a number when
/// `numeric`, else as a string; `None` where the token has no such form.
pub fn status_request(token: &Token, numeric: bool) -> (r: Option<String>)
    ensures
        r is Some == pid_text(*token, numeric) is Some,
        r is Some ==> r->0@ == status_request_text(pid_text(*token, numeric)->0),
{
    proof {
        reveal_strlit("{\"execute\":\"guest-exec-status\",\"arguments\":{\"pid\":");
        reveal_strlit("}}");
    }
    let mut out = String::from_str("{\"execute\":\"guest-exec-status\",\"arguments\":{\"pid\":");
    match token {
        Token::Numeric(n) => {
            if numeric {
                push_dec(&mut out, *n);
            } else {
                let mut d = String::new();
                push_dec(&mut d, *n);
                let q = quote_json(d.as_str());
                assert(d@ =~= dec(*n as nat));
                out.append(q.as_str());
            }
        },
        Token::Text(s) => {
            if numeric {
                let cs = chars_of(s.as_str());
                assert(cs@.subrange(0, cs@.len() as int) =~= s@);
                match parse_u64_range(&cs, 0, cs.len()) {
                    Some(v) => push_dec(&mut out, v),
                    None => return None,
                }
            } else {
                let q = quote_json(s.as_str());
                out.append(q.as_str());
            }
        },
    }
    out.append("}}");
    Some(out)
}

/// Wire text of a `guest-exec` request that runs `path` with `args` and captures
/// its output.
pub open spec fn exec_request_text(path: Seq<char>, args: Seq<Seq<char>>) -> Seq<char> {
    "{\"execute\":\"guest-exec\",\"arguments\":{\"path\":"@ + json_quoted(path) + ",\"arg\":["@
        + quoted_list(args) + "],\"capture-output\":true}}"@
}

/// The JSON string literals of `items`, separated by commas.
pub open spec fn quoted_list(items: Seq<Seq<char>>) -> Seq<char>
    decreases items.len(),
{
    if items.len() == 0 {
        Seq::empty()
    } else if items.len() == 1 {
        json_quoted(items[0])
    } else {
        quoted_list(items.drop_last()) + ","@ + json_quoted(items.last())
    }
}

/// The `guest-exec` request that runs `path` with `args`, capturing output.
pub fn exec_request(path: &str, args: &Vec<String>) -> (r: String)
    ensures
        r@ == exec_request_text(path@, views(args@)),
{
    proof {
        reveal_strlit("{\"execute\":\"guest-exec\",\"arguments\":{\"path\":");
        reveal_strlit(",\"arg\":[");
        reveal_strlit("],\"capture-output\":true}}");
        reveal_strlit(",");
    }
    let mut out = String::from_str("{\"execute\":\"guest-exec\",\"arguments\":{\"path\":");
    let q = quote_json(path);
    out.append(q.as_str());
    out.append(",\"arg\":[");
    let ghost head = out@;
    let mut i: usize = 0;
    while i < args.len()
        invariant
            i <= args@.len(),
            out@ == head + quoted_list(views(args@.subrange(0, i as int))),
        decreases args@.len() - i,
    {
        if i > 0 {
            out.append(",");
        }
        let q = quote_json(args[i].as_str());
        out.append(q.as_str());
        proof {
            let pre = views(args@.subrange(0, i as int));
            let next = views(args@.subrange(0, i + 1));
            assert(next.drop_last() =~= pre);
            assert(next.last() == args@[i as int]@);
            if i == 0 {
                assert(next.len() == 1);
            }
        }
        i += 1;
    }
    assert(args@.subrange(0, args@.len() as int) =~= args@);
    out.append("],\"capture-output\":true}}");
    out
}

/// The bytes that base64's standard engine decodes `s` into, or `None` where it
/// rejects `s`.
pub uninterp spec fn base64_decoded(s: Seq<char>) -> Option<Seq<u8>>;

/// Relies on base64's `Engine::decode` with `general_purpose::STANDARD` (standard
/// alphabet, padding required): its result depends on the text alone.
#[verifier::external_body]
fn decode_base64(s: &str) -> (r: Option<Vec<u8>>)
    ensures
        r is Some == base64_decoded(s@) is Some,
        r is Some ==> r->0@ == base64_decoded(s@)->0,
{
    base64::Engine::decode(&base64::engine::general_purpose::STANDARD, s).ok()
}

/// Relies on `String::from_utf8`: it accepts exactly the well-formed UTF-8 byte
/// sequences, and decodes them.
#[verifier::external_body]
fn utf8_string(b: Vec<u8>) -> (r: Option<String>)
    ensures
        r is Some == valid_utf8(b@),
        r is Some ==> r->0@ == decode_utf8(b@),
{
    String::from_utf8(b).ok()
}

/// The captured output of an exited process: its `out-data` decoded from base64
/// and then from UTF-8, where both succeed.
pub open spec fn captured_output(ret: Json) -> Option<Seq<char>> {
    match str_field(ret, "out-data"@) {
        Some(d) => match base64_decoded(d) {
            Some(b) => if valid_utf8(b) {
                Some(decode_utf8(b))
            } else {
                None
            },
            None => None,
        },
        None => None,
    }
}

/// The process has exited, by the `exited` member of a status reply's `return`.
pub open spec fn has_exited(ret: Json) -> bool {
    field(ret, "exited"@) == Some(Json::Bool(true))
}

/// What one status reply says.
#[derive(Debug)]
pub enum ExecStatus {
    /// The control plane refused the request.
    Rejected,
    /// The process has not exited yet, or the reply said nothing usable.
    Running,
    /// The process has exited; its decoded output, if there was any.
    Exited(Option<String>),
}

/// Reads a status reply.
pub fn read_status(exit_ok: bool, stdout: &str) -> (r: ExecStatus)
    ensures
        r is Rejected == !exit_ok,
        r is Exited == (reply_outcome(exit_ok, stdout@) is Ok
            && has_exited(reply_outcome(exit_ok, stdout@)->Ok_0)),
        r is Exited ==> (r->Exited_0 is Some == captured_output(reply_outcome(exit_ok, stdout@)->Ok_0) is Some),
        r is Exited && r->Exited_0 is Some ==> r->Exited_0->0@ == captured_output(reply_outcome(exit_ok, stdout@)->Ok_0)->0,
{
    if !exit_ok {
        return ExecStatus::Rejected;
    }
    match decode_reply(exit_ok, stdout) {
        Err(_) => ExecStatus::Running,
        Ok(reply) => {
            let ret = reply.value;
            let exited = match ret.get("exited") {
                Some(Json::Bool(b)) => b,
                _ => false,
            };
            if !exited {
                return ExecStatus::Running;
            }
            let text = match ret.get_str("out-data") {
                Some(d) => match decode_base64(d.as_str()) {
                    Some(bytes) => utf8_string(bytes),
                    None => None,
                },
                None => None,
            };
            ExecStatus::Exited(text)
        },
    }
}

} // verus!
