//! Human-readable rendering of memory sizes and CPU time.

use vstd::prelude::*;
use crate::rpc::RpcError;
use crate::text::{
    chars_of, dec, dec2, digit, find_line, first_matching, first_word, first_word_bounds, lines,
    parse_u64_range, push_dec, push_dec2, second_field, second_field_bounds, sub_string, trim,
    trim_bounds, u64_text,
};

verus! {

/// `a / d` rounded to the nearest integer, ties to the even one: the rounding
/// that fixed-precision float formatting applies to an exact quotient.
pub open spec fn round_half_even(a: nat, d: nat) -> nat
    recommends
        d > 0,
{
    let q = a / d;
    let r = a % d;
    if 2 * r > d || (2 * r == d && q % 2 == 1) {
        q + 1
    } else {
        q
    }
}

/// Text for a CPU time of `ns` nanoseconds.
pub open spec fn cpu_text(ns: nat) -> Seq<char> {
    if ns < 1_000_000 {
        dec(ns) + " ns"@
    } else if ns < 1_000_000_000 {
        dec(round_half_even(ns, 1_000_000)) + " ms"@
    } else {
        let secs = ns / 1_000_000_000;
        let h = secs / 3600;
        let m = (secs % 3600) / 60;
        let s = secs % 60;
        if h > 0 {
            dec(h) + "h "@ + dec2(m) + "m "@ + dec2(s) + "s"@
        } else if m > 0 {
            dec(m) + "m "@ + dec2(s) + "s"@
        } else {
            dec(s) + "s"@
        }
    }
}

/// Index into `B, KiB, MiB, GiB, TiB` of the unit a size of `kib` KiB is shown in:
/// the largest whose value is at least one, capped at TiB.
pub open spec fn mem_unit(kib: nat) -> nat {
    if kib == 0 {
        0
    } else if kib < 1024 {
        1
    } else if kib < 1024 * 1024 {
        2
    } else if kib < 1024 * 1024 * 1024 {
        3
    } else {
        4
    }
}

pub open spec fn unit_name(i: nat) -> Seq<char> {
    if i == 0 {
        "B"@
    } else if i == 1 {
        "KiB"@
    } else if i == 2 {
        "MiB"@
    } else if i == 3 {
        "GiB"@
    } else {
        "TiB"@
    }
}

/// How many KiB one unit of index `i >= 1` holds.
pub open spec fn kib_per_unit(i: nat) -> nat {
    if i <= 1 {
        1
    } else if i == 2 {
        1024
    } else if i == 3 {
        1024 * 1024
    } else {
        1024 * 1024 * 1024
    }
}

/// Text for a memory size of `kib` KiB: `0 B` for nothing, else the value in its
/// unit rounded to one decimal place.
pub open spec fn mem_text(kib: nat) -> Seq<char> {
    let i = mem_unit(kib);
    if i == 0 {
        "0 B"@
    } else {
        let tenths = round_half_even(kib * 10, kib_per_unit(i));
        dec(tenths / 10) + seq!['.', digit(tenths % 10)] + " "@ + unit_name(i)
    }
}

fn round_half_even_exec(a: u128, d: u128) -> (r: u128)
    requires
        d > 0,
        a / d < u128::MAX,
    ensures
        r == round_half_even(a as nat, d as nat),
{
    let q = a / d;
    let r = a % d;
    assert(r < d);
    if r > d - r || (r == d - r && q % 2 == 1) {
        q + 1
    } else {
        q
    }
}

/// Renders a CPU time given in nanoseconds: `900 ns`, `500 ms`, `5s`, `1m 05s`,
/// `1h 02m 05s`.
pub fn human_cpu(cpu_ns: u64) -> (r: String)
    ensures
        r@ == cpu_text(cpu_ns as nat),
{
    proof {
        reveal_strlit(" ns");
        reveal_strlit(" ms");
        reveal_strlit("h ");
        reveal_strlit("m ");
        reveal_strlit("s");
    }
    let mut out = String::new();
    if cpu_ns < 1_000_000 {
        push_dec(&mut out, cpu_ns);
        out.append(" ns");
    } else if cpu_ns < 1_000_000_000 {
        let ms = round_half_even_exec(cpu_ns as u128, 1_000_000) as u64;
        push_dec(&mut out, ms);
        out.append(" ms");
    } else {
        let secs = cpu_ns / 1_000_000_000;
        let h = secs / 3600;
        let m = (secs % 3600) / 60;
        let s = secs % 60;
        if h > 0 {
            push_dec(&mut out, h);
            out.append("h ");
            push_dec2(&mut out, m);
            out.append("m ");
            push_dec2(&mut out, s);
            out.append("s");
        } else if m > 0 {
            push_dec(&mut out, m);
            out.append("m ");
            push_dec2(&mut out, s);
            out.append("s");
        } else {
            push_dec(&mut out, s);
            out.append("s");
        }
    }
    assert(out@ =~= cpu_text(cpu_ns as nat));
    out
}

/// Renders a memory size given in KiB: `0 B`, `512.0 KiB`, `2.0 MiB`, up to TiB.
pub fn human_mem(mem_kib: u64) -> (r: String)
    ensures
        r@ == mem_text(mem_kib as nat),
{
    proof {
        reveal_strlit("0 B");
        reveal_strlit(".");
        reveal_strlit(" ");
        reveal_strlit("B");
        reveal_strlit("KiB");
        reveal_strlit("MiB");
        reveal_strlit("GiB");
        reveal_strlit("TiB");
    }
    if mem_kib == 0 {
        return String::from_str("0 B");
    }
    let (per, unit): (u128, &str) = if mem_kib < 1024 {
        (1, "KiB")
    } else if mem_kib < 1024 * 1024 {
        (1024, "MiB")
    } else if mem_kib < 1024 * 1024 * 1024 {
        (1024 * 1024, "GiB")
    } else {
        (1024 * 1024 * 1024, "TiB")
    };
    let ghost i = mem_unit(mem_kib as nat);
    assert(per == kib_per_unit(i) && unit@ == unit_name(i));
    let a = mem_kib as u128 * 10;
    assert(a / per <= a) by (nonlinear_arith)
        requires
            per >= 1,
    ;
    let tenths = round_half_even_exec(a, per);
    let whole = (tenths / 10) as u64;
    let frac = (tenths % 10) as u64;
    let mut out = String::new();
    push_dec(&mut out, whole);
    out.append(".");
    out.append(crate::text::digit_str(frac));
    out.append(" ");
    out.append(unit);
    assert(out@ =~= mem_text(mem_kib as nat));
    out
}

/// A snapshot of a VM's state and resource use.
#[derive(Debug)]
pub struct DomInfo {
    pub state: String,
    pub max_memory_kib: u64,
    pub used_memory_kib: u64,
    pub cpu_time_ns: u64,
}

/// The number that `u64_text` reads from `w`, or 0.
pub open spec fn number_or_zero(w: Option<Seq<char>>) -> u64 {
    match w {
        Some(t) => match u64_text(t) {
            Some(v) => v,
            None => 0,
        },
        None => 0,
    }
}

/// The value of the first `key:` line of a `dominfo` listing, trimmed; `None`
/// when there is no such line.
pub open spec fn info_value(info: Seq<char>, key: Seq<char>) -> Option<Seq<char>> {
    match first_matching(lines(info), key, false) {
        Some(l) => match second_field(l, ':') {
            Some(f) => Some(trim(f)),
            None => None,
        },
        None => None,
    }
}

/// The state a `dominfo` listing gives, or `unknown`.
pub open spec fn info_state(info: Seq<char>) -> Seq<char> {
    match info_value(info, "State:"@) {
        Some(v) => v,
        None => "unknown"@,
    }
}

/// The leading number of a `dominfo` value such as `Used memory: 2048 KiB`, or 0.
pub open spec fn info_kib(info: Seq<char>, key: Seq<char>) -> u64 {
    match info_value(info, key) {
        Some(v) => number_or_zero(first_word(v)),
        None => 0,
    }
}

/// The `cpu.time` value of a `domstats` listing, in nanoseconds, or 0.
pub open spec fn stats_cpu_time(stats: Seq<char>) -> u64 {
    match first_matching(lines(stats), "cpu.time"@, true) {
        Some(l) => match second_field(l, '=') {
            Some(f) => number_or_zero(Some(trim(f))),
            None => 0,
        },
        None => 0,
    }
}

/// Bounds of `info_value(s, key)`.
fn info_value_bounds(s: &Vec<char>, key: &str, sep: char) -> (r: Option<(usize, usize)>)
    ensures
        r is Some == (match first_matching(lines(s@), key@, false) {
            Some(l) => second_field(l, sep) is Some,
            None => false,
        }),
        r is Some ==> (r->0).0 <= (r->0).1 <= s@.len() && s@.subrange((r->0).0 as int, (r->0).1 as int)
            == trim(second_field(first_matching(lines(s@), key@, false)->0, sep)->0),
{
    let k = chars_of(key);
    match find_line(s, &k, false) {
        None => None,
        Some((a, b)) => match second_field_bounds(s, a, b, sep) {
            None => None,
            Some((fa, fb)) => Some(trim_bounds(s, fa, fb)),
        },
    }
}

/// Reads the number that starts the text `s[a..b]`, or 0.
fn leading_number(s: &Vec<char>, a: usize, b: usize) -> (r: u64)
    requires
        a <= b <= s@.len(),
    ensures
        r == number_or_zero(first_word(s@.subrange(a as int, b as int))),
{
    match first_word_bounds(s, a, b) {
        Some((wa, wb)) => match parse_u64_range(s, wa, wb) {
            Some(v) => v,
            None => 0,
        },
        None => 0,
    }
}

/// Reads the `dominfo` and `domstats` listings of a VM.
pub fn parse_dominfo(info: &str, stats: &str) -> (r: DomInfo)
    ensures
        r.state@ == info_state(info@),
        r.max_memory_kib == info_kib(info@, "Max memory:"@),
        r.used_memory_kib == info_kib(info@, "Used memory:"@),
        r.cpu_time_ns == stats_cpu_time(stats@),
{
    proof {
        reveal_strlit("unknown");
    }
    let cs = chars_of(info);
    let state = match info_value_bounds(&cs, "State:", ':') {
        Some((a, b)) => sub_string(info, a, b),
        None => String::from_str("unknown"),
    };
    let max_memory_kib = match info_value_bounds(&cs, "Max memory:", ':') {
        Some((a, b)) => leading_number(&cs, a, b),
        None => 0,
    };
    let used_memory_kib = match info_value_bounds(&cs, "Used memory:", ':') {
        Some((a, b)) => leading_number(&cs, a, b),
        None => 0,
    };
    let ss = chars_of(stats);
    let cpu_time_ns = match find_line(&ss, &chars_of("cpu.time"), true) {
        None => 0,
        Some((a, b)) => match second_field_bounds(&ss, a, b, '=') {
            None => 0,
            Some((fa, fb)) => {
                let (ta, tb) = trim_bounds(&ss, fa, fb);
                match parse_u64_range(&ss, ta, tb) {
                    Some(v) => v,
                    None => 0,
                }
            },
        },
    };
    DomInfo { state, max_memory_kib, used_memory_kib, cpu_time_ns }
}

/// The metrics of a VM from the outcomes of its `dominfo` and `domstats`
/// commands: `ExecutionFailed` when either command failed, there being no other
/// way to learn them.
pub fn read_metrics(info_ok: bool, info: &str, stats_ok: bool, stats: &str) -> (r: Result<DomInfo, RpcError>)
    ensures
        r is Err == (!info_ok || !stats_ok),
        r is Err ==> r->Err_0 == RpcError::ExecutionFailed,
        r is Ok ==> r->Ok_0.state@ == info_state(info@) && r->Ok_0.max_memory_kib == info_kib(
            info@,
            "Max memory:"@,
        ) && r->Ok_0.used_memory_kib == info_kib(info@, "Used memory:"@) && r->Ok_0.cpu_time_ns
            == stats_cpu_time(stats@),
{
    if !info_ok || !stats_ok {
        return Err(RpcError::ExecutionFailed);
    }
    Ok(parse_dominfo(info, stats))
}

/// One row of the status listing, each column as text.
#[derive(Debug)]
pub struct StatusRow {
    pub state: String,
    pub memory: String,
    pub cpu_time: String,
    pub guest_os: String,
}

/// The row for a VM: its metrics rendered, or `(unknown)` in each metrics column
/// when they could not be had, and its OS name or `(unknown)`.
pub fn status_row(metrics: Option<&DomInfo>, os: Option<&String>) -> (r: StatusRow)
    ensures
        r.guest_os@ == (match os {
            Some(o) => o@,
            None => "(unknown)"@,
        }),
        metrics is Some ==> r.state@ == metrics->0.state@ && r.memory@ == mem_text(
            metrics->0.used_memory_kib as nat,
        ) && r.cpu_time@ == cpu_text(metrics->0.cpu_time_ns as nat),
        metrics is None ==> r.state@ == "(unknown)"@ && r.memory@ == "(unknown)"@ && r.cpu_time@
            == "(unknown)"@,
{
    let guest_os = match os {
        Some(o) => o.clone(),
        None => String::from_str("(unknown)"),
    };
    match metrics {
        Some(m) => StatusRow {
            state: m.state.clone(),
            memory: human_mem(m.used_memory_kib),
            cpu_time: human_cpu(m.cpu_time_ns),
            guest_os,
        },
        None => StatusRow {
            state: String::from_str("(unknown)"),
            memory: String::from_str("(unknown)"),
            cpu_time: String::from_str("(unknown)"),
            guest_os,
        },
    }
}

} // verus!
