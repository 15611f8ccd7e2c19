use guest_probe::discovery::os_name_from_info;
use guest_probe::json::{parse_json, quote_json, Json};
use guest_probe::rpc::{agent_command_args, decode_reply, encode_request, RpcError};

#[test]
fn encode_request_without_arguments() {
    assert_eq!(encode_request("guest-get-osinfo", None), "{\"execute\":\"guest-get-osinfo\"}");
}

#[test]
fn encode_request_with_arguments() {
    let args = "{\"path\":\"/bin/cat\",\"capture-output\":true}";
    assert_eq!(
        encode_request("guest-exec", Some(args)),
        "{\"execute\":\"guest-exec\",\"arguments\":{\"path\":\"/bin/cat\",\"capture-output\":true}}"
    );
}

#[test]
fn encode_request_escapes_strings() {
    assert_eq!(encode_request("a\"b", None), "{\"execute\":\"a\\\"b\"}");
}

#[test]
fn agent_command_args_carry_timeout() {
    let a = agent_command_args("vm1", "{}", 5);
    assert_eq!(a, vec!["qemu-agent-command", "--timeout", "5", "vm1", "{}"]);
}

#[test]
fn decode_reply_returns_return_member() {
    let r = decode_reply(true, "{\"return\":{\"pretty-name\":\"Ubuntu 22.04\"}}").unwrap();
    assert_eq!(os_name_from_info(&r), "Ubuntu 22.04");
}

#[test]
fn decode_reply_execution_failed() {
    assert_eq!(decode_reply(false, "{\"return\":{}}").unwrap_err(), RpcError::ExecutionFailed);
}

#[test]
fn decode_reply_malformed() {
    assert_eq!(decode_reply(true, "not json").unwrap_err(), RpcError::MalformedResponse);
    assert_eq!(
        decode_reply(true, "{\"error\":{\"class\":\"CommandNotFound\"}}").unwrap_err(),
        RpcError::MalformedResponse
    );
    assert_eq!(decode_reply(true, "[1,2]").unwrap_err(), RpcError::MalformedResponse);
}

#[test]
fn os_name_priority() {
    let r = decode_reply(true, "{\"return\":{\"pretty\":\"P\",\"pretty-name\":\"PN\",\"name\":\"N\"}}").unwrap();
    assert_eq!(os_name_from_info(&r), "PN");
    let r = decode_reply(true, "{\"return\":{\"pretty\":\"P\",\"name\":\"N\"}}").unwrap();
    assert_eq!(os_name_from_info(&r), "P");
    let r = decode_reply(true, "{\"return\":{\"name\":\"Microsoft Windows\",\"version\":\"10\"}}").unwrap();
    assert_eq!(os_name_from_info(&r), "Microsoft Windows 10");
    let r = decode_reply(true, "{\"return\":{\"name\":\"Linux\",\"version\":\"\"}}").unwrap();
    assert_eq!(os_name_from_info(&r), "Linux");
}

#[test]
fn os_name_falls_back_to_return_text() {
    let r = decode_reply(true, "{\"return\": {\"kernel-release\": \"5.15\", \"id\": 7, \"a\": [true, null]}}").unwrap();
    assert_eq!(os_name_from_info(&r), "{\"a\":[true,null],\"id\":7,\"kernel-release\":\"5.15\"}");
}

#[test]
fn parsed_members_keep_serde_text() {
    let j = parse_json("{\"b\":[1, 2.5, \"x\\ny\"],\"a\":{ }}").unwrap();
    match &j {
        Json::Object(members) => {
            assert_eq!(members.len(), 2);
            assert_eq!(members[0].0, "a");
            assert_eq!(members[0].1, "{}");
            assert_eq!(members[1].1, "[1,2.5,\"x\\ny\"]");
        }
        other => panic!("unexpected {:?}", other),
    }
    match j.get("b") {
        Some(Json::Array(items)) => assert_eq!(items, vec!["1", "2.5", "\"x\\ny\""]),
        other => panic!("unexpected {:?}", other),
    }
    assert_eq!(j.member_text("a").map(|t| t.as_str()), Some("{}"));
    assert!(parse_json("{").is_none());
}

#[test]
fn quote_json_escapes() {
    assert_eq!(quote_json("a\u{1}\"\\\n\t/\u{e9}\u{8}\u{c}\r\u{1f}"), "\"a\\u0001\\\"\\\\\\n\\t/\u{e9}\\b\\f\\r\\u001f\"");
    assert_eq!(quote_json(""), "\"\"");
}

#[test]
fn json_get_members() {
    let j = parse_json("{\"pid\":12,\"s\":\"t\"}").unwrap();
    assert_eq!(j.get_str("s"), Some(String::from("t")));
    assert!(j.get_str("pid").is_none());
    assert!(j.get("missing").is_none());
    match j.get("pid") {
        Some(Json::Number(n)) => assert_eq!(n, "12"),
        _ => panic!("pid missing"),
    }
}
