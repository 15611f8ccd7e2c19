use guest_probe::cache::ProbeCache;

#[test]
fn second_lookup_within_ttl_is_a_hit() {
    let mut c = ProbeCache::new(60_000);
    assert_eq!(c.lookup("vm1", 0), None);
    c.record("vm1", Some(String::from("Ubuntu 22.04")), 0);
    assert_eq!(c.lookup("vm1", 59_999), Some(Some(String::from("Ubuntu 22.04"))));
    assert_eq!(c.lookup("vm2", 10), None);
}

#[test]
fn lookup_after_ttl_asks_for_probe() {
    let mut c = ProbeCache::new(60_000);
    c.record("vm1", Some(String::from("Debian")), 1_000);
    assert_eq!(c.lookup("vm1", 61_000), None);
    c.record("vm1", Some(String::from("Debian 12")), 61_000);
    assert_eq!(c.lookup("vm1", 61_001), Some(Some(String::from("Debian 12"))));
}

#[test]
fn negative_result_is_cached() {
    let mut c = ProbeCache::new(30_000);
    c.record("stopped", None, 5_000);
    assert_eq!(c.lookup("stopped", 6_000), Some(None));
    assert_eq!(c.lookup("stopped", 35_000), None);
}

#[test]
fn clock_reading_earlier_counts_as_fresh() {
    let mut c = ProbeCache::new(10);
    c.record("vm", None, 100);
    assert_eq!(c.lookup("vm", 50), Some(None));
    assert_eq!(c.ttl_ms(), 10);
}

#[test]
fn zero_ttl_never_hits() {
    let mut c = ProbeCache::new(0);
    c.record("vm", Some(String::from("x")), 7);
    assert_eq!(c.lookup("vm", 7), None);
}

#[test]
fn entries_are_per_vm() {
    let mut c = ProbeCache::new(100);
    c.record("a", Some(String::from("A")), 0);
    c.record("b", Some(String::from("B")), 0);
    c.record("a", Some(String::from("A2")), 50);
    assert_eq!(c.lookup("a", 120), Some(Some(String::from("A2"))));
    assert_eq!(c.lookup("b", 120), None);
    assert_eq!(c.lookup("b", 99), Some(Some(String::from("B"))));
}

#[test]
fn finish_probe_records_and_returns() {
    let mut c = ProbeCache::new(1_000);
    assert_eq!(c.lookup("vm", 0), None);
    assert_eq!(c.finish_probe("vm", None, 0), None);
    assert_eq!(c.lookup("vm", 500), Some(None));
    assert_eq!(c.finish_probe("vm", Some(String::from("Alpine")), 2_000), Some(String::from("Alpine")));
    assert_eq!(c.lookup("vm", 2_500), Some(Some(String::from("Alpine"))));
}
