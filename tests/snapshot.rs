use ratatoskr::envelope::{encode_update, Reading};
use ratatoskr::poller::{Comparator, Poller, Regime};
use ratatoskr::resource::ResourceKind;
use ratatoskr::snapshot::Snapshot;

fn reading(data: &str) -> Reading {
    Reading { data: data.to_string(), warning: None, icon: Some("i".to_string()), levels: vec![] }
}

#[test]
fn empty_snapshot_bursts_nothing() {
    let s = Snapshot::new();
    assert!(s.burst().is_empty());
    assert_eq!(s.written_at(), 0);
    assert!(!s.metronome());
}

#[test]
fn burst_holds_one_message_per_known_resource_in_order() {
    let mut s = Snapshot::new();
    s.store(ResourceKind::Network, reading("{\"n\":1}"));
    s.store(ResourceKind::Ram, reading("{\"r\":1}"));
    s.store(ResourceKind::Weather, reading("{\"w\":1}"));
    let b = s.burst();
    assert_eq!(b.len(), 3);
    assert_eq!(b[0], encode_update(ResourceKind::Ram, &reading("{\"r\":1}")));
    assert_eq!(b[1], encode_update(ResourceKind::Weather, &reading("{\"w\":1}")));
    assert_eq!(b[2], encode_update(ResourceKind::Network, &reading("{\"n\":1}")));
}

#[test]
fn burst_matches_the_published_update() {
    let mut s = Snapshot::new();
    let mut p = Poller::new(ResourceKind::Battery, 1000, Regime::FixedRate, Comparator::Always);
    let msg = p.complete(&mut s, 0, Some(reading("{\"percentage\":80}"))).unwrap();
    assert_eq!(s.burst(), vec![msg]);
}

#[test]
fn full_snapshot_bursts_all_nine() {
    let mut s = Snapshot::new();
    for i in 0..9 {
        s.store(ResourceKind::at(i), reading("{}"));
    }
    let b = s.burst();
    assert_eq!(b.len(), 9);
    assert!(b[8].starts_with("{\"resource\":\"display\""));
}

#[test]
fn heartbeat_flips_and_stamps() {
    let mut s = Snapshot::new();
    s.store(ResourceKind::Disk, reading("{}"));
    s.beat(1700000000);
    assert!(s.metronome());
    assert_eq!(s.written_at(), 1700000000);
    s.beat(1700000001);
    assert!(!s.metronome());
    assert_eq!(s.written_at(), 1700000001);
    assert_eq!(s.burst().len(), 1);
}

#[test]
fn store_replaces_the_previous_value() {
    let mut s = Snapshot::new();
    s.store(ResourceKind::Volume, reading("{\"v\":1}"));
    s.store(ResourceKind::Volume, reading("{\"v\":2}"));
    assert_eq!(s.get(ResourceKind::Volume).unwrap().data, "{\"v\":2}");
    assert_eq!(s.burst().len(), 1);
}
