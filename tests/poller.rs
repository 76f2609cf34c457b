use ratatoskr::envelope::{encode_update, Reading};
use ratatoskr::poller::{Comparator, Poller, Regime};
use ratatoskr::resource::ResourceKind;
use ratatoskr::snapshot::Snapshot;

fn ram_reading(mem: u64, swap: u64) -> Reading {
    Reading {
        data: format!("{{\"mem_percent\":{},\"swap_percent\":{}}}", mem, swap),
        warning: Some("0.0".to_string()),
        icon: None,
        levels: vec![mem, swap],
    }
}

#[test]
fn first_read_publishes_whatever_the_comparator() {
    let mut snap = Snapshot::new();
    let mut p = Poller::new(ResourceKind::Ram, 1000, Regime::FixedRate, Comparator::Threshold(1000));
    let r = ram_reading(10, 0);
    let expected = encode_update(ResourceKind::Ram, &r);
    let msg = p.complete(&mut snap, 5, Some(r));
    assert_eq!(msg, Some(expected));
    assert!(snap.get(ResourceKind::Ram).is_some());
    assert_eq!(p.last_success, Some(5));
}

#[test]
fn reads_the_comparator_rejects_publish_nothing() {
    let mut snap = Snapshot::new();
    let mut p = Poller::new(ResourceKind::Ram, 1000, Regime::FixedRate, Comparator::Threshold(5));
    assert!(p.complete(&mut snap, 0, Some(ram_reading(40, 10))).is_some());
    assert!(p.complete(&mut snap, 1, Some(ram_reading(43, 12))).is_none());
    // The stored value follows the reads even when nothing is published.
    assert_eq!(snap.get(ResourceKind::Ram).unwrap().levels, vec![43, 12]);
    assert!(p.complete(&mut snap, 2, Some(ram_reading(47, 12))).is_none());
    assert!(p.complete(&mut snap, 3, Some(ram_reading(48, 12))).is_none());
    assert!(p.complete(&mut snap, 4, Some(ram_reading(48, 17))).is_some());
}

#[test]
fn ram_threshold_scenario() {
    let mut snap = Snapshot::new();
    let mut p = Poller::new(ResourceKind::Ram, 1000, Regime::FixedRate, Comparator::Threshold(1));
    let readings = [42u64, 42, 43, 43, 50];
    let mut published = vec![];
    for (i, used) in readings.iter().enumerate() {
        let msg = p.complete(&mut snap, i as i64, Some(ram_reading(*used, 0)));
        published.push(msg.is_some());
    }
    assert_eq!(published, vec![true, false, true, false, true]);
}

#[test]
fn always_comparator_publishes_every_read() {
    let mut snap = Snapshot::new();
    let mut p = Poller::new(ResourceKind::Disk, 5000, Regime::FixedRate, Comparator::Always);
    for i in 0..3 {
        assert!(p.complete(&mut snap, i, Some(ram_reading(1, 1))).is_some());
    }
}

#[test]
fn failed_read_keeps_the_known_value_and_publishes_nothing() {
    let mut snap = Snapshot::new();
    let mut p = Poller::new(ResourceKind::Weather, 600_000, Regime::StandbyProof, Comparator::Always);
    assert!(p.complete(&mut snap, 100, Some(ram_reading(1, 2))).is_some());
    assert!(p.complete(&mut snap, 700_100, None).is_none());
    assert_eq!(snap.get(ResourceKind::Weather).unwrap().levels, vec![1, 2]);
    assert_eq!(p.last_success, Some(100));
}

#[test]
fn failed_first_read_leaves_the_resource_unknown() {
    let mut snap = Snapshot::new();
    let mut p = Poller::new(ResourceKind::Network, 1000, Regime::FixedRate, Comparator::Always);
    assert!(p.complete(&mut snap, 0, None).is_none());
    assert!(snap.get(ResourceKind::Network).is_none());
    assert_eq!(p.last_success, None);
}

#[test]
fn comparator_on_levels_of_different_shape_publishes() {
    let a = ram_reading(1, 1);
    let mut b = ram_reading(1, 1);
    b.levels = vec![1];
    assert!(Comparator::Threshold(50).judge(&a, &b));
    assert!(!Comparator::Threshold(1).judge(&a, &a));
    assert!(Comparator::Always.judge(&a, &a));
}

#[test]
fn standby_proof_catches_up_once_after_a_suspend() {
    let mut snap = Snapshot::new();
    let mut p = Poller::new(ResourceKind::Weather, 600_000, Regime::StandbyProof, Comparator::Always);
    assert!(p.is_due(0));
    assert!(p.complete(&mut snap, 0, Some(ram_reading(1, 0))).is_some());
    assert!(!p.is_due(1000));
    assert!(!p.is_due(599_999));
    // The host slept for an hour: the next wake polls, once.
    let now = 3_600_000;
    assert!(p.is_due(now));
    assert!(p.complete(&mut snap, now, Some(ram_reading(2, 0))).is_some());
    assert!(!p.is_due(now));
    assert!(!p.is_due(now + 1000));
    assert!(p.is_due(now + 600_000));
}

#[test]
fn wake_interval_follows_the_regime() {
    let fixed = Poller::new(ResourceKind::LoadAvg, 500, Regime::FixedRate, Comparator::Always);
    assert_eq!(fixed.wake_interval_ms(), 500);
    assert!(fixed.is_due(i64::MIN));
    let slow = Poller::new(ResourceKind::Weather, 600_000, Regime::StandbyProof, Comparator::Always);
    assert_eq!(slow.wake_interval_ms(), 1000);
    let quick = Poller::new(ResourceKind::Weather, 300, Regime::StandbyProof, Comparator::Always);
    assert_eq!(quick.wake_interval_ms(), 300);
}

#[test]
fn clock_going_back_does_not_poll_early() {
    let mut snap = Snapshot::new();
    let mut p = Poller::new(ResourceKind::Weather, 10_000, Regime::StandbyProof, Comparator::Always);
    p.complete(&mut snap, 50_000, Some(ram_reading(1, 0)));
    assert!(!p.is_due(40_000));
    assert!(p.is_due(60_000));
}
