use nanobot_supervisor::cache::{
    get_cached_nanobot_status, invalidate_cache, invalidate_cache_if_expired, ProcessCheckCache,
};
use nanobot_supervisor::fingerprint::check_nanobot_running_impl;

#[test]
fn new_cache_holds_no_answer() {
    let c = ProcessCheckCache::new();
    assert_eq!(c.cached(0), None);
    assert_eq!(c.is_running, None);
    assert_eq!(c.last_update, None);
}

#[test]
fn recorded_answer_is_reused_within_two_seconds() {
    let mut c = ProcessCheckCache::new();
    c.record(true, 1_000);
    assert_eq!(c.cached(1_000), Some(true));
    assert_eq!(c.cached(2_999), Some(true));
    assert_eq!(c.cached(3_000), None);
}

#[test]
fn clock_reading_earlier_counts_as_no_time() {
    let mut c = ProcessCheckCache::new();
    c.record(false, 5_000);
    assert_eq!(c.cached(4_000), Some(false));
}

#[test]
fn invalidation_makes_next_read_scan() {
    let mut c = ProcessCheckCache::new();
    c.record(true, 100);
    c.invalidate();
    c.invalidate();
    assert_eq!(c.cached(101), None);
    assert_eq!(c.is_running, None);
    assert_eq!(c.last_update, None);
}

#[test]
fn fresh_answer_is_returned_without_scanning() {
    let mut slot = Some(ProcessCheckCache::new());
    slot.as_mut().unwrap().record(true, 0);
    // No worker runs here, so only the cached answer can say true.
    assert!(get_cached_nanobot_status(&mut slot, 500));
    assert_eq!(slot.as_ref().unwrap().last_update, Some(0));
}

#[test]
fn stale_answer_is_replaced_by_a_scan() {
    let mut slot = Some(ProcessCheckCache::new());
    slot.as_mut().unwrap().record(true, 0);
    let r = get_cached_nanobot_status(&mut slot, 10_000);
    assert!(!r);
    assert_eq!(slot.as_ref().unwrap().is_running, Some(false));
    assert_eq!(slot.as_ref().unwrap().last_update, Some(10_000));
}

#[test]
fn empty_slot_gets_a_cache() {
    let mut slot: Option<ProcessCheckCache> = None;
    let r = get_cached_nanobot_status(&mut slot, 42);
    assert!(slot.is_some());
    assert_eq!(slot.as_ref().unwrap().is_running, Some(r));
    assert_eq!(slot.as_ref().unwrap().last_update, Some(42));
}

#[test]
fn invalidating_empty_slot_keeps_it_empty() {
    let mut slot: Option<ProcessCheckCache> = None;
    invalidate_cache(&mut slot);
    assert!(slot.is_none());
}

#[test]
fn expiry_drops_answers_older_than_one_second() {
    let mut slot = Some(ProcessCheckCache::new());
    slot.as_mut().unwrap().record(true, 0);
    invalidate_cache_if_expired(&mut slot, 1_000);
    assert_eq!(slot.as_ref().unwrap().is_running, Some(true));
    invalidate_cache_if_expired(&mut slot, 1_001);
    assert_eq!(slot.as_ref().unwrap().is_running, None);
    assert_eq!(slot.as_ref().unwrap().last_update, None);
}

#[test]
fn scan_finds_no_worker_on_this_machine() {
    assert!(!check_nanobot_running_impl());
}
