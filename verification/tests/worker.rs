use std::hash::{DefaultHasher, Hash, Hasher};

use foobar::digest::item_text;
use foobar::worker::{decide, plan_cycle, run_cycle, CycleAction, Decision, Table};

fn expected_text(bits: u64) -> String {
    let mut hasher = DefaultHasher::new();
    bits.hash(&mut hasher);
    format!("{:x}", hasher.finish())
}

#[test]
fn small_table_always_inserts() {
    for n in 0..10u64 {
        assert_eq!(decide(n, true), Decision::Insert);
        assert_eq!(decide(n, false), Decision::Insert);
    }
}

#[test]
fn large_table_always_evicts() {
    for n in 20..40u64 {
        assert_eq!(decide(n, true), Decision::EvictMin);
        assert_eq!(decide(n, false), Decision::EvictMin);
    }
}

#[test]
fn middle_band_follows_the_coin() {
    for n in 10..20u64 {
        assert_eq!(decide(n, true), Decision::Insert);
        assert_eq!(decide(n, false), Decision::EvictMin);
    }
}

#[test]
fn insert_branch_grows_by_one() {
    let mut t = Table::new();
    let r = run_cycle(&mut t, false, 7, true);
    assert_eq!(r, Ok(Decision::Insert));
    assert_eq!(t.count(), 1);
    assert_eq!(t.rows[0].id, 0);
    assert_eq!(t.rows[0].text, expected_text(7));
}

#[test]
fn ten_successful_cycles_fill_an_empty_table() {
    let mut t = Table::new();
    for k in 0..10u64 {
        let below_half = k % 2 == 0;
        let r = run_cycle(&mut t, below_half, k, true);
        assert_eq!(r, Ok(Decision::Insert));
    }
    assert_eq!(t.count(), 10);
    // The policy now stands in the probabilistic band: the coin decides.
    assert_eq!(decide(10, true), Decision::Insert);
    assert_eq!(decide(10, false), Decision::EvictMin);
}

#[test]
fn eviction_removes_the_minimum_id() {
    let mut t = Table::new();
    // Insert-leaning coins fill the table to the upper threshold.
    while t.count() < 20 {
        let bits = t.count() as u64;
        let r = run_cycle(&mut t, true, bits, true);
        assert_eq!(r, Ok(Decision::Insert));
    }
    let min_before = t.rows.iter().map(|r| r.id).min().unwrap();
    assert_eq!(min_before, 0);
    let r = run_cycle(&mut t, true, 99, true);
    assert_eq!(r, Ok(Decision::EvictMin));
    assert_eq!(t.count(), 19);
    let min_after = t.rows.iter().map(|r| r.id).min().unwrap();
    assert!(min_after > min_before);
    assert!(t.rows.iter().all(|row| row.id != min_before));
}

#[test]
fn store_failures_do_not_stop_later_cycles() {
    let mut t = Table::new();
    run_cycle(&mut t, true, 1, true).unwrap();
    let count_before = t.count();
    for k in 0..5u64 {
        let r = run_cycle(&mut t, true, k, false);
        assert!(r.is_err());
        assert_eq!(t.count(), count_before);
    }
    // The cycle after the failures is attempted and behaves normally.
    let r = run_cycle(&mut t, true, 42, true);
    assert_eq!(r, Ok(Decision::Insert));
    assert_eq!(t.count(), count_before + 1);
}

#[test]
fn item_text_matches_the_standard_hasher() {
    for r in [0.0f64, 0.123f64, 0.499999f64, 0.75f64] {
        let bits = r.to_bits();
        assert_eq!(item_text(bits), expected_text(bits));
    }
}

#[test]
fn planned_insert_carries_the_digest() {
    let bits = 0.25f64.to_bits();
    match plan_cycle(3, false, bits) {
        CycleAction::Insert { text } => assert_eq!(text, expected_text(bits)),
        CycleAction::EvictMin => panic!("a small table must insert"),
    }
    assert!(matches!(plan_cycle(25, true, bits), CycleAction::EvictMin));
    assert!(matches!(plan_cycle(15, false, bits), CycleAction::EvictMin));
    assert!(matches!(plan_cycle(15, true, bits), CycleAction::Insert { .. }));
}
