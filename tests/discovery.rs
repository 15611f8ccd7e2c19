use guest_probe::discovery::{probe_command, probe_guest_os, Action, Discovery, Stage, POLL_INTERVAL_MS};
use guest_probe::poller::{exec_request, read_status, status_request, token_from_return, ExecStatus, Token};
use guest_probe::rpc::decode_reply;

fn payload(a: &Action) -> (String, u64) {
    match a {
        Action::Call { payload, timeout_secs } => (payload.clone(), *timeout_secs),
        other => panic!("expected a call, got {:?}", other),
    }
}

fn to_submit() -> (Discovery, Action) {
    let (d, _) = probe_guest_os();
    let (d, _) = d.on_reply(false, "", 0);
    d.on_reply(true, "{\"error\":{\"class\":\"CommandNotFound\"}}", 0)
}

#[test]
fn first_action_is_osinfo() {
    let (d, a) = probe_guest_os();
    assert!(matches!(d.stage, Stage::OsInfo));
    assert_eq!(payload(&a), (String::from("{\"execute\":\"guest-get-osinfo\"}"), 5));
}

#[test]
fn structured_reply_ends_chain_without_exec() {
    let (d, _) = probe_guest_os();
    let (d, a) = d.on_reply(true, "{\"return\":{\"pretty-name\":\"Ubuntu 22.04\"}}", 10);
    assert!(matches!(d.stage, Stage::Done));
    match a {
        Action::Finished(Some(os)) => assert_eq!(os, "Ubuntu 22.04"),
        other => panic!("unexpected {:?}", other),
    }
}

#[test]
fn legacy_rpc_tried_after_osinfo_fails() {
    let (d, _) = probe_guest_os();
    let (d, a) = d.on_reply(false, "", 0);
    assert!(matches!(d.stage, Stage::LegacyOs));
    assert_eq!(payload(&a), (String::from("{\"execute\":\"guest-get-os\"}"), 5));
    let (_, a) = d.on_reply(true, "{\"return\":{\"name\":\"Windows\",\"version\":\"11\"}}", 0);
    assert!(matches!(a, Action::Finished(Some(ref s)) if s == "Windows 11"));
}

#[test]
fn exec_probes_follow_structured_failures() {
    let (d, a) = to_submit();
    assert!(matches!(d.stage, Stage::Submit { probe: 0 }));
    assert_eq!(
        payload(&a),
        (
            String::from("{\"execute\":\"guest-exec\",\"arguments\":{\"path\":\"/bin/cat\",\"arg\":[\"/etc/os-release\"],\"capture-output\":true}}"),
            10
        )
    );
}

#[test]
fn string_token_and_exited_status_yield_hello() {
    let (d, _) = to_submit();
    let (d, a) = d.on_reply(true, "{\"return\":{\"pid\":\"1234\"}}", 1000);
    match &d.stage {
        Stage::Status { probe, token: Token::Text(t), deadline_ms, alternate } => {
            assert_eq!((*probe, t.as_str(), *deadline_ms, *alternate), (0, "1234", 13_000, false));
        }
        other => panic!("unexpected {:?}", other),
    }
    assert_eq!(
        payload(&a),
        (String::from("{\"execute\":\"guest-exec-status\",\"arguments\":{\"pid\":\"1234\"}}"), 8)
    );
    let (d, a) = d.on_reply(true, "{\"return\":{\"exited\":true,\"out-data\":\"aGVsbG8=\"}}", 1300);
    assert!(matches!(d.stage, Stage::Done));
    assert!(matches!(a, Action::Finished(Some(ref s)) if s == "hello"));
}

#[test]
fn status_reply_decodes_hello() {
    match read_status(true, "{\"return\":{\"exited\":true,\"out-data\":\"aGVsbG8=\"}}") {
        ExecStatus::Exited(Some(t)) => assert_eq!(t, "hello"),
        other => panic!("unexpected {:?}", other),
    }
}

#[test]
fn status_reply_variants() {
    assert!(matches!(read_status(false, ""), ExecStatus::Rejected));
    assert!(matches!(read_status(true, "{\"return\":{\"exited\":false}}"), ExecStatus::Running));
    assert!(matches!(read_status(true, "garbage"), ExecStatus::Running));
    assert!(matches!(read_status(true, "{\"return\":{\"exited\":true}}"), ExecStatus::Exited(None)));
    assert!(matches!(
        read_status(true, "{\"return\":{\"exited\":true,\"out-data\":\"!!\"}}"),
        ExecStatus::Exited(None)
    ));
    // "/w==" decodes to the single byte 0xff, which is not UTF-8.
    assert!(matches!(
        read_status(true, "{\"return\":{\"exited\":true,\"out-data\":\"/w==\"}}"),
        ExecStatus::Exited(None)
    ));
}

#[test]
fn numeric_token_rejected_retries_string_form() {
    let (d, _) = to_submit();
    let (d, a) = d.on_reply(true, "{\"return\":{\"pid\":1234}}", 0);
    assert_eq!(payload(&a).0, "{\"execute\":\"guest-exec-status\",\"arguments\":{\"pid\":1234}}");
    let (d, a) = d.on_reply(false, "", 100);
    assert!(matches!(d.stage, Stage::Status { alternate: true, .. }));
    assert_eq!(payload(&a).0, "{\"execute\":\"guest-exec-status\",\"arguments\":{\"pid\":\"1234\"}}");
    let (d, a) = d.on_reply(false, "", 200);
    assert!(matches!(d.stage, Stage::Pause { .. }));
    assert!(matches!(a, Action::Sleep { ms: POLL_INTERVAL_MS }));
    let (d, a) = d.on_wake(500);
    assert!(matches!(d.stage, Stage::Status { alternate: false, .. }));
    assert_eq!(payload(&a).0, "{\"execute\":\"guest-exec-status\",\"arguments\":{\"pid\":1234}}");
}

#[test]
fn string_token_without_numeric_form_pauses() {
    let (d, _) = to_submit();
    let (d, _) = d.on_reply(true, "{\"return\":{\"pid\":\"abc\"}}", 0);
    let (d, a) = d.on_reply(false, "", 100);
    assert!(matches!(d.stage, Stage::Pause { .. }));
    assert!(matches!(a, Action::Sleep { .. }));
}

#[test]
fn poll_gives_up_at_deadline() {
    let (d, _) = to_submit();
    let (mut d, _) = d.on_reply(true, "{\"return\":{\"pid\":7}}", 0);
    let mut now = 0u64;
    let mut polls = 0;
    loop {
        let (d2, a) = d.on_reply(true, "{\"return\":{\"exited\":false}}", now);
        assert!(matches!(a, Action::Sleep { ms: POLL_INTERVAL_MS }));
        polls += 1;
        now += POLL_INTERVAL_MS;
        let (d3, a) = d2.on_wake(now);
        if now >= 12_000 {
            assert!(matches!(d3.stage, Stage::Submit { probe: 1 }));
            assert!(payload(&a).0.contains("/usr/lib/os-release"));
            break;
        }
        assert!(now < 12_000);
        d = d3;
    }
    assert_eq!(polls, 40);
}

#[test]
fn last_probe_timeout_finishes_with_none() {
    let (d, _) = to_submit();
    let mut d = d;
    for probe in 0..6usize {
        assert!(matches!(d.stage, Stage::Submit { probe: p } if p == probe));
        let (d2, _) = d.on_reply(true, "{\"return\":{\"pid\":7}}", 0);
        let (d3, _) = d2.on_reply(true, "{\"return\":{\"exited\":false}}", 100);
        let (d4, a) = d3.on_wake(12_000);
        if probe == 5 {
            assert!(matches!(d4.stage, Stage::Done));
            assert!(matches!(a, Action::Finished(None)));
            return;
        }
        d = d4;
    }
}

#[test]
fn submit_without_token_moves_on() {
    let (d, _) = to_submit();
    let (d, _) = d.on_reply(true, "{\"return\":{}}", 0);
    assert!(matches!(d.stage, Stage::Submit { probe: 1 }));
    let (d, _) = d.on_reply(true, "{\"return\":{\"pid\":-3}}", 0);
    assert!(matches!(d.stage, Stage::Submit { probe: 2 }));
    let (d, _) = d.on_reply(false, "", 0);
    assert!(matches!(d.stage, Stage::Submit { probe: 3 }));
}

#[test]
fn exited_blank_output_moves_on() {
    let (d, _) = to_submit();
    let (d, _) = d.on_reply(true, "{\"return\":{\"pid\":7}}", 0);
    // "IA==" is a single space.
    let (d, _) = d.on_reply(true, "{\"return\":{\"exited\":true,\"out-data\":\"IA==\"}}", 0);
    assert!(matches!(d.stage, Stage::Submit { probe: 1 }));
}

#[test]
fn os_release_output_is_parsed() {
    let (d, _) = to_submit();
    let (d, _) = d.on_reply(true, "{\"return\":{\"pid\":7}}", 0);
    // base64 of: PRETTY_NAME="Debian GNU/Linux 12"\nNAME="Debian GNU/Linux"\n
    let out = "UFJFVFRZX05BTUU9IkRlYmlhbiBHTlUvTGludXggMTIiCk5BTUU9IkRlYmlhbiBHTlUvTGludXgiCg==";
    let reply = format!("{{\"return\":{{\"exited\":true,\"out-data\":\"{}\"}}}}", out);
    let (_, a) = d.on_reply(true, &reply, 0);
    assert!(matches!(a, Action::Finished(Some(ref s)) if s == "Debian GNU/Linux 12"));
}

#[test]
fn probe_commands_and_requests() {
    let (path, args) = probe_command(5);
    assert_eq!(path, "/bin/sh");
    assert_eq!(args, vec!["-c", "cat /etc/*-release 2>/dev/null || true"]);
    assert_eq!(
        exec_request(path, &args),
        "{\"execute\":\"guest-exec\",\"arguments\":{\"path\":\"/bin/sh\",\"arg\":[\"-c\",\"cat /etc/*-release 2>/dev/null || true\"],\"capture-output\":true}}"
    );
    assert_eq!(
        exec_request("/x", &Vec::new()),
        "{\"execute\":\"guest-exec\",\"arguments\":{\"path\":\"/x\",\"arg\":[],\"capture-output\":true}}"
    );
}

#[test]
fn tokens_from_submit_replies() {
    let t = token_from_return(decode_reply(true, "{\"return\":{\"pid\":42}}").unwrap().value);
    assert!(matches!(t, Some(Token::Numeric(42))));
    let t = token_from_return(decode_reply(true, "{\"return\":{\"pid\":\"42\"}}").unwrap().value);
    assert!(matches!(t, Some(Token::Text(ref s)) if s == "42"));
    let t = token_from_return(decode_reply(true, "{\"return\":{\"pid\":1.5}}").unwrap().value);
    assert!(t.is_none());
    assert_eq!(
        status_request(&Token::Text(String::from("42")), true).unwrap(),
        "{\"execute\":\"guest-exec-status\",\"arguments\":{\"pid\":42}}"
    );
    assert!(status_request(&Token::Text(String::from("x")), true).is_none());
}
