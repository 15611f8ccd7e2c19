//! The guest-agent RPC client: requests are JSON objects with an `execute`
//! member and optional `arguments`, sent through the control plane's
//! `qemu-agent-command` with a timeout; replies carry a `return` member.

use vstd::prelude::*;
use crate::json::{json_quoted, member_text, parse_json, parsed_json, quote_json, Json};
use crate::text::{dec, decimal};

verus! {

/// Why an RPC call produced no result.
#[derive(Debug, Clone, Copy, PartialEq, Eq)]
pub enum RpcError {
    /// The control-plane command reported failure: the agent could not be reached.
    ExecutionFailed,
    /// The reply was not JSON, or had no `return` member.
    MalformedResponse,
}

/// Wire text of a request: `{"execute":<method>}`, with `,"arguments":<args>`
/// before the closing brace when there are arguments, `args` being their JSON text.
pub open spec fn request_text(method: Seq<char>, arguments: Option<Seq<char>>) -> Seq<char> {
    match arguments {
        None => "{\"execute\":"@ + json_quoted(method) + "}"@,
        Some(a) => "{\"execute\":"@ + json_quoted(method) + ",\"arguments\":"@ + a + "}"@,
    }
}

/// Encodes a request for `method`, with the JSON text `arguments` if any.
pub fn encode_request(method: &str, arguments: Option<&str>) -> (r: String)
    ensures
        r@ == request_text(
            method@,
            (match arguments {
                Some(a) => Some(a@),
                None => None,
            }),
        ),
{
    proof {
        reveal_strlit("{\"execute\":");
        reveal_strlit(",\"arguments\":");
        reveal_strlit("}");
    }
    let mut out = String::from_str("{\"execute\":");
    let q = quote_json(method);
    out.append(q.as_str());
    match arguments {
        Some(a) => {
            out.append(",\"arguments\":");
            out.append(a);
        },
        None => {},
    }
    out.append("}");
    out
}

/// Arguments of the control-plane command that delivers `payload` to the guest
/// agent of `vm`, waiting at most `timeout_secs` seconds.
pub fn agent_command_args(vm: &str, payload: &str, timeout_secs: u64) -> (r: Vec<String>)
    ensures
        r@.len() == 5,
        r@[0]@ == "qemu-agent-command"@,
        r@[1]@ == "--timeout"@,
        r@[2]@ == dec(timeout_secs as nat),
        r@[3]@ == vm@,
        r@[4]@ == payload@,
{
    let mut r: Vec<String> = Vec::new();
    r.push(String::from_str("qemu-agent-command"));
    r.push(String::from_str("--timeout"));
    r.push(decimal(timeout_secs));
    r.push(String::from_str(vm));
    r.push(String::from_str(payload));
    r
}

/// The text of a reply's `return` member, as serde_json printed it, or why there
/// is none.
pub open spec fn return_text(exit_ok: bool, stdout: Seq<char>) -> Result<Seq<char>, RpcError> {
    if !exit_ok {
        Err(RpcError::ExecutionFailed)
    } else {
        match parsed_json(stdout) {
            None => Err(RpcError::MalformedResponse),
            Some(j) => match member_text(j, "return"@) {
                Some(t) => Ok(t),
                None => Err(RpcError::MalformedResponse),
            },
        }
    }
}

/// What a reply says: its `return` member, parsed, or why there is none.
pub open spec fn reply_outcome(exit_ok: bool, stdout: Seq<char>) -> Result<Json, RpcError> {
    match return_text(exit_ok, stdout) {
        Ok(t) => match parsed_json(t) {
            Some(r) => Ok(r),
            None => Err(RpcError::MalformedResponse),
        },
        Err(e) => Err(e),
    }
}

/// The `return` member of a reply: its value, and its text as serde_json
/// printed it.
#[derive(Debug)]
pub struct Reply {
    pub value: Json,
    pub text: String,
}

/// Decodes the outcome of one control-plane call: the reply's `return` member,
/// `ExecutionFailed` when the command failed, `MalformedResponse` when its output
/// is not JSON or has no `return` (an agent `error` reply among them).
pub fn decode_reply(exit_ok: bool, stdout: &str) -> (r: Result<Reply, RpcError>)
    ensures
        r is Ok == reply_outcome(exit_ok, stdout@) is Ok,
        r is Ok ==> r->Ok_0.value == reply_outcome(exit_ok, stdout@)->Ok_0
            && r->Ok_0.text@ == return_text(exit_ok, stdout@)->Ok_0,
        r is Err ==> r->Err_0 == reply_outcome(exit_ok, stdout@)->Err_0,
{
    if !exit_ok {
        return Err(RpcError::ExecutionFailed);
    }
    match parse_json(stdout) {
        None => Err(RpcError::MalformedResponse),
        Some(j) => match j.member_text("return") {
            Some(t) => match parse_json(t.as_str()) {
                Some(value) => Ok(Reply { value, text: t.clone() }),
                None => Err(RpcError::MalformedResponse),
            },
            None => Err(RpcError::MalformedResponse),
        },
    }
}

} // verus!
