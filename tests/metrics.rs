use guest_probe::metrics::{human_cpu, human_mem, parse_dominfo, read_metrics, status_row};
use guest_probe::rpc::RpcError;

#[test]
fn human_mem_two_mebibytes() {
    assert_eq!(human_mem(2048), "2.0 MiB");
}

#[test]
fn human_mem_zero_is_bytes() {
    assert_eq!(human_mem(0), "0 B");
}

#[test]
fn human_mem_small_sizes_in_kib() {
    assert_eq!(human_mem(1), "1.0 KiB");
    assert_eq!(human_mem(1023), "1023.0 KiB");
}

#[test]
fn human_mem_rounds_to_one_decimal() {
    assert_eq!(human_mem(1536), "1.5 MiB");
    assert_eq!(human_mem(1075), "1.0 MiB");
    assert_eq!(human_mem(4 * 1024 * 1024), "4.0 GiB");
}

#[test]
fn human_mem_ties_round_to_even() {
    // 1.25 MiB and 1.75 MiB are exact ties.
    assert_eq!(human_mem(1280), "1.2 MiB");
    assert_eq!(human_mem(1792), "1.8 MiB");
}

#[test]
fn human_mem_caps_at_tebibytes() {
    assert_eq!(human_mem(1024 * 1024 * 1024), "1.0 TiB");
    assert_eq!(human_mem(5 * 1024 * 1024 * 1024 * 1024), "5120.0 TiB");
    assert_eq!(human_mem(u64::MAX), "17179869184.0 TiB");
}

#[test]
fn human_cpu_nanoseconds() {
    assert_eq!(human_cpu(900), "900 ns");
    assert_eq!(human_cpu(0), "0 ns");
    assert_eq!(human_cpu(999_999), "999999 ns");
}

#[test]
fn human_cpu_milliseconds() {
    assert_eq!(human_cpu(500_000_000), "500 ms");
    assert_eq!(human_cpu(1_000_000), "1 ms");
    assert_eq!(human_cpu(1_500_000), "2 ms");
    assert_eq!(human_cpu(2_500_000), "2 ms");
    assert_eq!(human_cpu(999_999_999), "1000 ms");
}

#[test]
fn human_cpu_hours_minutes_seconds() {
    assert_eq!(human_cpu(3_725_000_000_000), "1h 02m 05s");
    assert_eq!(human_cpu(65_000_000_000), "1m 05s");
    assert_eq!(human_cpu(5_000_000_000), "5s");
    assert_eq!(human_cpu(1_000_000_000), "1s");
    assert_eq!(human_cpu(36_000_000_000_000), "10h 00m 00s");
}

const DOMINFO: &str = "Id:             3\nName:           web01\nUUID:           1b2c\nOS Type:        hvm\nState:          running\nCPU(s):         2\nCPU time:       41.2s\nMax memory:     4194304 KiB\nUsed memory:    2097152 KiB\nPersistent:     yes\n\n";

const DOMSTATS: &str = "Domain: 'web01'\n  cpu.time=41234567890\n  cpu.user=100\n  balloon.current=2097152\n";

#[test]
fn parse_dominfo_reads_state_memory_and_cpu() {
    let d = parse_dominfo(DOMINFO, DOMSTATS);
    assert_eq!(d.state, "running");
    assert_eq!(d.max_memory_kib, 4194304);
    assert_eq!(d.used_memory_kib, 2097152);
    assert_eq!(d.cpu_time_ns, 41234567890);
}

#[test]
fn parse_dominfo_defaults_when_missing() {
    let d = parse_dominfo("Name: x\n", "nothing here\n");
    assert_eq!(d.state, "unknown");
    assert_eq!(d.used_memory_kib, 0);
    assert_eq!(d.max_memory_kib, 0);
    assert_eq!(d.cpu_time_ns, 0);
}

#[test]
fn parse_dominfo_unreadable_numbers_are_zero() {
    let d = parse_dominfo("State: shut off\r\nUsed memory: lots KiB\r\n", "cpu.time=abc\n");
    assert_eq!(d.state, "shut off");
    assert_eq!(d.used_memory_kib, 0);
    assert_eq!(d.cpu_time_ns, 0);
}

#[test]
fn read_metrics_fails_when_a_command_failed() {
    assert_eq!(read_metrics(false, DOMINFO, true, DOMSTATS).unwrap_err(), RpcError::ExecutionFailed);
    assert_eq!(read_metrics(true, DOMINFO, false, DOMSTATS).unwrap_err(), RpcError::ExecutionFailed);
    assert_eq!(read_metrics(true, DOMINFO, true, DOMSTATS).unwrap().used_memory_kib, 2097152);
}

#[test]
fn status_row_renders_metrics_and_unknowns() {
    let d = parse_dominfo(DOMINFO, DOMSTATS);
    let os = String::from("Ubuntu 22.04");
    let row = status_row(Some(&d), Some(&os));
    assert_eq!(row.state, "running");
    assert_eq!(row.memory, "2.0 GiB");
    assert_eq!(row.cpu_time, "41s");
    assert_eq!(row.guest_os, "Ubuntu 22.04");
    let row = status_row(None, None);
    assert_eq!(row.state, "(unknown)");
    assert_eq!(row.memory, "(unknown)");
    assert_eq!(row.cpu_time, "(unknown)");
    assert_eq!(row.guest_os, "(unknown)");
}
