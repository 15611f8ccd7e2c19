//! The chain of strategies that names a guest's operating system, run as a state
//! machine: each step says which agent request to send, or how long to wait, and
//! takes back what came of it. The chain asks `guest-get-osinfo`, then the legacy
//! `guest-get-os`, then runs read commands in the guest one after another through
//! the exec poller; the first that yields a name ends it.

use vstd::prelude::*;
use crate::json::{str_field, views, Json};
use crate::poller::{
    captured_output, exec_request, has_exited, exec_request_text, pid_text, primary_numeric, read_status, status_request,
    status_request_text, token_from_return, token_of, ExecStatus, Token,
};
use crate::release::{os_from_output, os_from_probe_output};
use crate::rpc::{decode_reply, encode_request, reply_outcome, request_text, return_text, Reply};

verus! {

/// Seconds the control plane may wait for a structured OS request.
pub const INFO_TIMEOUT_SECS: u64 = 5;

/// Seconds the control plane may wait for a `guest-exec` request.
pub const SUBMIT_TIMEOUT_SECS: u64 = 10;

/// Seconds the control plane may wait for a status request.
pub const STATUS_TIMEOUT_SECS: u64 = 8;

/// Milliseconds between two status requests for one process.
pub const POLL_INTERVAL_MS: u64 = 300;

/// Milliseconds after a process starts at which polling gives it up.
pub const POLL_DEADLINE_MS: u64 = 12_000;

/// How many read commands the chain tries in the guest.
pub const PROBE_COUNT: usize = 6;

/// The OS name a structured reply's `return` gives: `pretty-name`, else `pretty`,
/// else `name` followed by a non-empty `version`, else the whole value as the
/// JSON `text` it came in.
pub open spec fn os_from_info(ret: Json, text: Seq<char>) -> Seq<char> {
    if let Some(p) = str_field(ret, "pretty-name"@) {
        p
    } else if let Some(p) = str_field(ret, "pretty"@) {
        p
    } else if let Some(n) = str_field(ret, "name"@) {
        match str_field(ret, "version"@) {
            Some(v) => if v.len() > 0 {
                n + " "@ + v
            } else {
                n
            },
            None => n,
        }
    } else {
        text
    }
}

/// Names the OS from a structured reply's `return` member.
pub fn os_name_from_info(reply: &Reply) -> (r: String)
    ensures
        r@ == os_from_info(reply.value, reply.text@),
{
    let ret = &reply.value;
    proof {
        reveal_strlit(" ");
    }
    if let Some(p) = ret.get_str("pretty-name") {
        return p;
    }
    if let Some(p) = ret.get_str("pretty") {
        return p;
    }
    if let Some(out) = ret.get_str("name") {
        return match ret.get_str("version") {
            Some(v) => if v.unicode_len() > 0 {
                out.concat(" ").concat(v.as_str())
            } else {
                out
            },
            None => out,
        };
    }
    reply.text.clone()
}

/// The executable of read command `i`.
pub open spec fn probe_path(i: nat) -> Seq<char> {
    if i == 2 {
        "/usr/bin/lsb_release"@
    } else if i == 5 {
        "/bin/sh"@
    } else {
        "/bin/cat"@
    }
}

/// The arguments of read command `i`.
pub open spec fn probe_args(i: nat) -> Seq<Seq<char>> {
    if i == 0 {
        seq!["/etc/os-release"@]
    } else if i == 1 {
        seq!["/usr/lib/os-release"@]
    } else if i == 2 {
        seq!["-ds"@]
    } else if i == 3 {
        seq!["/etc/lsb-release"@]
    } else if i == 4 {
        seq!["/etc/redhat-release"@]
    } else {
        seq!["-c"@, "cat /etc/*-release 2>/dev/null || true"@]
    }
}

/// Read command `i`: its executable and arguments.
pub fn probe_command(i: usize) -> (r: (&'static str, Vec<String>))
    requires
        i < PROBE_COUNT,
    ensures
        r.0@ == probe_path(i as nat),
        views(r.1@) == probe_args(i as nat),
{
    let mut args: Vec<String> = Vec::new();
    let path = if i == 0 {
        args.push(String::from_str("/etc/os-release"));
        "/bin/cat"
    } else if i == 1 {
        args.push(String::from_str("/usr/lib/os-release"));
        "/bin/cat"
    } else if i == 2 {
        args.push(String::from_str("-ds"));
        "/usr/bin/lsb_release"
    } else if i == 3 {
        args.push(String::from_str("/etc/lsb-release"));
        "/bin/cat"
    } else if i == 4 {
        args.push(String::from_str("/etc/redhat-release"));
        "/bin/cat"
    } else {
        args.push(String::from_str("-c"));
        args.push(String::from_str("cat /etc/*-release 2>/dev/null || true"));
        "/bin/sh"
    };
    assert(views(args@) =~= probe_args(i as nat));
    (path, args)
}

/// Where a discovery run stands.
#[derive(Debug)]
pub enum Stage {
    /// Awaiting the reply to `guest-get-osinfo`.
    OsInfo,
    /// Awaiting the reply to the legacy `guest-get-os`.
    LegacyOs,
    /// Awaiting the reply to the `guest-exec` request of read command `probe`.
    Submit { probe: usize },
    /// Awaiting a status reply for process `token` of read command `probe`. The pid
    /// was written in the encoding the token came in, or in the other one when
    /// `alternate`.
    Status { probe: usize, token: Token, deadline_ms: u64, alternate: bool },
    /// Waiting before the next status request.
    Pause { probe: usize, token: Token, deadline_ms: u64 },
    /// Finished.
    Done,
}

/// What the caller is to do next.
#[derive(Debug)]
pub enum Action {
    /// Send `payload` to the guest agent, letting the control plane wait at most
    /// `timeout_secs` seconds, and report the outcome with `on_reply`.
    Call { payload: String, timeout_secs: u64 },
    /// Sleep `ms` milliseconds, then report with `on_wake`.
    Sleep { ms: u64 },
    /// The run is over: the OS name, or `None` when no strategy produced one.
    Finished(Option<String>),
}

/// A run of the strategy chain for one VM.
pub struct Discovery {
    pub stage: Stage,
}

/// The deadline of a process started at `now`.
pub open spec fn deadline_after(now: u64) -> u64 {
    if now <= u64::MAX - POLL_DEADLINE_MS {
        (now + POLL_DEADLINE_MS) as u64
    } else {
        u64::MAX
    }
}

/// `a` is what `stage` asks the caller to do.
pub open spec fn asks(stage: Stage, a: Action) -> bool {
    match stage {
        Stage::OsInfo => a is Call && a->payload@ == request_text("guest-get-osinfo"@, None)
            && a->timeout_secs == INFO_TIMEOUT_SECS,
        Stage::LegacyOs => a is Call && a->payload@ == request_text("guest-get-os"@, None)
            && a->timeout_secs == INFO_TIMEOUT_SECS,
        Stage::Submit { probe } => a is Call && a->payload@ == exec_request_text(
            probe_path(probe as nat),
            probe_args(probe as nat),
        ) && a->timeout_secs == SUBMIT_TIMEOUT_SECS,
        Stage::Status { token, alternate, .. } => a is Call && a->payload@ == status_request_text(
            pid_text(token, primary_numeric(token) != alternate)->0,
        ) && a->timeout_secs == STATUS_TIMEOUT_SECS,
        Stage::Pause { .. } => a == Action::Sleep { ms: POLL_INTERVAL_MS },
        Stage::Done => a == Action::Finished(None),
    }
}

/// `next` has finished with `os`.
pub open spec fn finished_with(next: Discovery, a: Action, os: Seq<char>) -> bool {
    &&& next.stage is Done
    &&& a is Finished
    &&& a->Finished_0 is Some
    &&& a->Finished_0->0@ == os
}

/// `next` has moved on from read command `probe` to the following one, or has
/// finished without a name after the last.
pub open spec fn moved_on(probe: usize, next: Discovery, a: Action) -> bool {
    if probe + 1 < PROBE_COUNT {
        next.stage == Stage::Submit { probe: (probe + 1) as usize } && asks(next.stage, a)
    } else {
        next.stage is Done && a == Action::Finished(None)
    }
}

/// The OS name an exited process's reply gives, through its captured output.
pub open spec fn exited_os(ret: Json) -> Option<Seq<char>> {
    match captured_output(ret) {
        Some(t) => os_from_output(t),
        None => None,
    }
}

/// What a run does with the reply `(exit_ok, stdout)`, received at `now`, to the
/// call that `stage` asked for.
pub open spec fn after_reply(
    stage: Stage,
    exit_ok: bool,
    stdout: Seq<char>,
    now: u64,
    next: Discovery,
    a: Action,
) -> bool {
    let reply = reply_outcome(exit_ok, stdout);
    match stage {
        Stage::OsInfo => match reply {
            Ok(ret) => finished_with(next, a, os_from_info(ret, return_text(exit_ok, stdout)->Ok_0)),
            Err(_) => next.stage == Stage::LegacyOs && asks(next.stage, a),
        },
        Stage::LegacyOs => match reply {
            Ok(ret) => finished_with(next, a, os_from_info(ret, return_text(exit_ok, stdout)->Ok_0)),
            Err(_) => next.stage == Stage::Submit { probe: 0 } && asks(next.stage, a),
        },
        Stage::Submit { probe } => match reply {
            Ok(ret) => match token_of(ret) {
                Some(t) => next.stage == Stage::Status {
                    probe,
                    token: t,
                    deadline_ms: deadline_after(now),
                    alternate: false,
                } && asks(next.stage, a),
                None => moved_on(probe, next, a),
            },
            Err(_) => moved_on(probe, next, a),
        },
        Stage::Status { probe, token, deadline_ms, alternate } => if !exit_ok && !alternate
            && pid_text(token, !primary_numeric(token)) is Some {
            next.stage == Stage::Status { probe, token, deadline_ms, alternate: true } && asks(
                next.stage,
                a,
            )
        } else if reply is Ok && has_exited(reply->Ok_0) {
            match exited_os(reply->Ok_0) {
                Some(os) => finished_with(next, a, os),
                None => moved_on(probe, next, a),
            }
        } else {
            next.stage == Stage::Pause { probe, token, deadline_ms } && asks(next.stage, a)
        },
        _ => false,
    }
}

/// What a run does when a pause in `stage` ends at `now`: it polls again before
/// the deadline, and gives the process up at or after it.
pub open spec fn after_wake(stage: Stage, now: u64, next: Discovery, a: Action) -> bool {
    match stage {
        Stage::Pause { probe, token, deadline_ms } => if now < deadline_ms {
            next.stage == Stage::Status { probe, token, deadline_ms, alternate: false } && asks(
                next.stage,
                a,
            )
        } else {
            moved_on(probe, next, a)
        },
        _ => false,
    }
}

impl Token {
    pub fn is_numeric(&self) -> (r: bool)
        ensures
            r == (*self is Numeric),
    {
        match self {
            Token::Numeric(_) => true,
            Token::Text(_) => false,
        }
    }
}

/// The action `stage` asks for.
fn ask(stage: &Stage) -> (a: Action)
    requires
        (Discovery { stage: *stage }).wf(),
    ensures
        asks(*stage, a),
{
    match stage {
        Stage::OsInfo => Action::Call {
            payload: encode_request("guest-get-osinfo", None),
            timeout_secs: INFO_TIMEOUT_SECS,
        },
        Stage::LegacyOs => Action::Call {
            payload: encode_request("guest-get-os", None),
            timeout_secs: INFO_TIMEOUT_SECS,
        },
        Stage::Submit { probe } => {
            let (path, args) = probe_command(*probe);
            Action::Call { payload: exec_request(path, &args), timeout_secs: SUBMIT_TIMEOUT_SECS }
        },
        Stage::Status { token, alternate, .. } => {
            let numeric = token.is_numeric() != *alternate;
            match status_request(token, numeric) {
                Some(payload) => Action::Call { payload, timeout_secs: STATUS_TIMEOUT_SECS },
                None => Action::Finished(None),
            }
        },
        Stage::Pause { .. } => Action::Sleep { ms: POLL_INTERVAL_MS },
        Stage::Done => Action::Finished(None),
    }
}

/// Moves on from read command `probe`.
fn move_on(probe: usize) -> (r: (Discovery, Action))
    requires
        probe < PROBE_COUNT,
    ensures
        r.0.wf(),
        moved_on(probe, r.0, r.1),
{
    if probe + 1 < PROBE_COUNT {
        let stage = Stage::Submit { probe: probe + 1 };
        let a = ask(&stage);
        (Discovery { stage }, a)
    } else {
        (Discovery { stage: Stage::Done }, Action::Finished(None))
    }
}

fn finish(os: String) -> (r: (Discovery, Action))
    ensures
        finished_with(r.0, r.1, os@),
{
    (Discovery { stage: Stage::Done }, Action::Finished(Some(os)))
}

/// Starts probing a guest's OS: the run's first action is the `guest-get-osinfo`
/// request.
pub fn probe_guest_os() -> (r: (Discovery, Action))
    ensures
        r.0.wf(),
        r.0.stage == Stage::OsInfo,
        asks(r.0.stage, r.1),
{
    let stage = Stage::OsInfo;
    let a = ask(&stage);
    (Discovery { stage }, a)
}

impl Discovery {
    /// The stage's own bounds: a read command index in range, and a pid encoding
    /// that the token has.
    pub open spec fn wf(&self) -> bool {
        match self.stage {
            Stage::Submit { probe } => probe < PROBE_COUNT,
            Stage::Status { probe, token, alternate, .. } => probe < PROBE_COUNT && pid_text(
                token,
                primary_numeric(token) != alternate,
            ) is Some,
            Stage::Pause { probe, .. } => probe < PROBE_COUNT,
            _ => true,
        }
    }

    /// Takes the outcome of the call the run asked for: whether the control plane
    /// reported success, what it printed, and the time in milliseconds.
    pub fn on_reply(self, exit_ok: bool, stdout: &str, now_ms: u64) -> (r: (Discovery, Action))
        requires
            self.wf(),
            !(self.stage is Pause),
            !(self.stage is Done),
        ensures
            r.0.wf(),
            after_reply(self.stage, exit_ok, stdout@, now_ms, r.0, r.1),
    {
        match self.stage {
            Stage::OsInfo => match decode_reply(exit_ok, stdout) {
                Ok(ret) => finish(os_name_from_info(&ret)),
                Err(_) => {
                    let stage = Stage::LegacyOs;
                    let a = ask(&stage);
                    (Discovery { stage }, a)
                },
            },
            Stage::LegacyOs => match decode_reply(exit_ok, stdout) {
                Ok(ret) => finish(os_name_from_info(&ret)),
                Err(_) => {
                    let stage = Stage::Submit { probe: 0 };
                    let a = ask(&stage);
                    (Discovery { stage }, a)
                },
            },
            Stage::Submit { probe } => match decode_reply(exit_ok, stdout) {
                Ok(ret) => match token_from_return(ret.value) {
                    Some(token) => {
                        let deadline_ms = if now_ms <= u64::MAX - POLL_DEADLINE_MS {
                            now_ms + POLL_DEADLINE_MS
                        } else {
                            u64::MAX
                        };
                        let stage = Stage::Status { probe, token, deadline_ms, alternate: false };
                        let a = ask(&stage);
                        (Discovery { stage }, a)
                    },
                    None => move_on(probe),
                },
                Err(_) => move_on(probe),
            },
            Stage::Status { probe, token, deadline_ms, alternate } => {
                let status = read_status(exit_ok, stdout);
                let has_other = !alternate && status_request(&token, !token.is_numeric()).is_some();
                match status {
                    ExecStatus::Rejected if has_other => {
                        let stage = Stage::Status { probe, token, deadline_ms, alternate: true };
                        let a = ask(&stage);
                        (Discovery { stage }, a)
                    },
                    ExecStatus::Exited(text) => {
                        let os = match text {
                            Some(t) => os_from_probe_output(t.as_str()),
                            None => None,
                        };
                        match os {
                            Some(os) => finish(os),
                            None => move_on(probe),
                        }
                    },
                    _ => {
                        let stage = Stage::Pause { probe, token, deadline_ms };
                        (Discovery { stage }, Action::Sleep { ms: POLL_INTERVAL_MS })
                    },
                }
            },
            _ => (Discovery { stage: Stage::Done }, Action::Finished(None)),
        }
    }

    /// Takes the end of a pause, at `now_ms`: polls again before the deadline, and
    /// gives the process up at or after it.
    pub fn on_wake(self, now_ms: u64) -> (r: (Discovery, Action))
        requires
            self.wf(),
            self.stage is Pause,
        ensures
            r.0.wf(),
            after_wake(self.stage, now_ms, r.0, r.1),
    {
        match self.stage {
            Stage::Pause { probe, token, deadline_ms } => {
                if now_ms < deadline_ms {
                    let stage = Stage::Status { probe, token, deadline_ms, alternate: false };
                    let a = ask(&stage);
                    (Discovery { stage }, a)
                } else {
                    move_on(probe)
                }
            },
            _ => (Discovery { stage: Stage::Done }, Action::Finished(None)),
        }
    }
}

/// Polling a process stops at its deadline: a wake-up at or after the deadline
/// sends no further status request for it. The run moves on to the next read
/// command, or, after the last, finishes without a name.
pub proof fn lemma_no_poll_after_deadline(
    probe: usize,
    token: Token,
    deadline_ms: u64,
    now: u64,
    next: Discovery,
    a: Action,
)
    requires
        probe < PROBE_COUNT,
        now >= deadline_ms,
        after_wake((Stage::Pause { probe, token, deadline_ms }), now, next, a),
    ensures
        !(next.stage is Status),
        !(next.stage is Pause),
        a is Call ==> (next.stage == (Stage::Submit { probe: (probe + 1) as usize })),
        a is Finished ==> (a->Finished_0 is None),
        !(a is Sleep),
{
}

/// Between two status requests for one process the run waits one poll interval:
/// a status reply that leaves the process running asks for a sleep of
/// `POLL_INTERVAL_MS`, and a wake-up before the deadline asks for the next status
/// request at once.
pub proof fn lemma_wait_is_one_interval(
    stage: Stage,
    exit_ok: bool,
    stdout: Seq<char>,
    now: u64,
    next: Discovery,
    a: Action,
    wake: u64,
    after: Discovery,
    b: Action,
)
    requires
        (stage is Status),
        after_reply(stage, exit_ok, stdout, now, next, a),
        (next.stage is Pause),
        wake < next.stage->Pause_deadline_ms,
        after_wake(next.stage, wake, after, b),
    ensures
        a == (Action::Sleep { ms: POLL_INTERVAL_MS }),
        (after.stage is Status),
        (b is Call),
{
}

} // verus!
