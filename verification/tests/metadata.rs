use pollux_core::{CellId, ClockOrder, Endpoint, Metadata, Status};

fn home() -> Endpoint {
    Endpoint::V4 { addr4: 0x7f00_0001, port: 7000 }
}

fn cell() -> CellId {
    CellId::from_parts(100, 1)
}

fn peer_a() -> CellId {
    CellId::from_parts(200, 2)
}

fn peer_b() -> CellId {
    CellId::from_parts(300, 3)
}

/// A record of `cell()` with the given status whose clock has one change by `origin`.
fn seen_by(origin: CellId, state: Status) -> Metadata {
    let mut record = Metadata::new_at(cell(), home(), 1_000);
    record.update_at(state, origin, 1_000);
    record
}

const ALL: [Status; 4] = [Status::Active, Status::Inactive, Status::Pending, Status::Gone];

#[test]
fn new_at_makes_an_active_record_with_one_change_by_the_cell() {
    let record = Metadata::new_at(cell(), home(), 1_234);
    assert_eq!(record.id, cell());
    assert_eq!(record.state, Status::Active);
    assert_eq!(record.endpoint, home());
    assert_eq!(record.updated, 1_234);
    assert_eq!(record.version.entries(), vec![(cell(), 1)]);
}

#[test]
fn new_is_last_changed_now() {
    let before = chrono::Utc::now().timestamp_millis();
    let record = Metadata::new(cell(), Endpoint::V6 { addr6: 1, port: 9, flow: 0, scope: 0 });
    let after = chrono::Utc::now().timestamp_millis();
    assert_eq!(record.id, cell());
    assert_eq!(record.state, Status::Active);
    assert_eq!(record.endpoint, Endpoint::V6 { addr6: 1, port: 9, flow: 0, scope: 0 });
    assert_eq!(record.version.entries(), vec![(cell(), 1)]);
    assert!(before <= record.updated);
    assert!(record.updated <= after);
}

#[test]
fn active_means_active_or_pending() {
    let mut record = Metadata::new_at(cell(), home(), 0);
    assert!(record.active());
    record.state = Status::Pending;
    assert!(record.active());
    record.state = Status::Inactive;
    assert!(!record.active());
    record.state = Status::Gone;
    assert!(!record.active());
}

#[test]
fn update_at_sets_status_bumps_origin_and_refreshes_time() {
    let mut record = Metadata::new_at(cell(), home(), 1_000);
    record.update_at(Status::Inactive, peer_a(), 2_000);
    assert_eq!(record.id, cell());
    assert_eq!(record.endpoint, home());
    assert_eq!(record.state, Status::Inactive);
    assert_eq!(record.updated, 2_000);
    assert_eq!(record.version.entries(), vec![(cell(), 1), (peer_a(), 1)]);
    record.update_at(Status::Active, cell(), 3_000);
    assert_eq!(record.state, Status::Active);
    assert_eq!(record.updated, 3_000);
    assert_eq!(record.version.entries(), vec![(cell(), 2), (peer_a(), 1)]);
}

#[test]
fn update_at_never_moves_the_time_back() {
    let mut record = Metadata::new_at(cell(), home(), 5_000);
    record.update_at(Status::Inactive, cell(), 4_000);
    assert_eq!(record.updated, 5_000);
    assert_eq!(record.state, Status::Inactive);
    assert_eq!(record.version.get(cell()), 2);
    record.update_at(Status::Active, cell(), 5_000);
    assert_eq!(record.updated, 5_000);
    record.update_at(Status::Active, cell(), 5_001);
    assert_eq!(record.updated, 5_001);
}

#[test]
fn update_uses_the_current_time() {
    let mut record = Metadata::new_at(cell(), home(), 0);
    let before = chrono::Utc::now().timestamp_millis();
    record.update(Status::Pending, peer_b());
    let after = chrono::Utc::now().timestamp_millis();
    assert_eq!(record.state, Status::Pending);
    assert_eq!(record.version.entries(), vec![(cell(), 1), (peer_b(), 1)]);
    assert!(before <= record.updated);
    assert!(record.updated <= after);
}

#[test]
fn a_causally_later_candidate_always_wins() {
    for held_state in ALL {
        for offered in ALL {
            let mut held = Metadata::new_at(cell(), home(), 10);
            held.state = held_state;
            let mut candidate = held.clone();
            candidate.update_at(offered, peer_a(), 20);
            assert_eq!(held.version.compare(&candidate.version), ClockOrder::Less);
            assert!(held.can_update(&candidate));
            assert!(!candidate.can_update(&held));
        }
    }
}

#[test]
fn an_equal_clock_brings_nothing_new() {
    for held_state in ALL {
        for offered in ALL {
            let mut held = Metadata::new_at(cell(), home(), 10);
            held.state = held_state;
            let mut candidate = held.clone();
            candidate.state = offered;
            assert_eq!(held.version.compare(&candidate.version), ClockOrder::Equal);
            assert!(!held.can_update(&candidate));
            assert!(!candidate.can_update(&held));
        }
    }
}

#[test]
fn concurrent_clocks_fall_back_to_the_status_table() {
    for held_state in ALL {
        for offered in ALL {
            let held = seen_by(peer_a(), held_state);
            let candidate = seen_by(peer_b(), offered);
            assert_eq!(held.version.compare(&candidate.version), ClockOrder::Concurrent);
            let expected = matches!(
                (held_state, offered),
                (Status::Pending, Status::Inactive)
                    | (Status::Active, Status::Inactive)
                    | (Status::Active, Status::Pending)
            );
            assert_eq!(held.can_update(&candidate), expected);
        }
    }
}

#[test]
fn the_status_table_row_by_row() {
    let held = |state| seen_by(peer_a(), state);
    let offered = |state| seen_by(peer_b(), state);
    assert!(!held(Status::Inactive).can_update(&offered(Status::Active)));
    assert!(!held(Status::Inactive).can_update(&offered(Status::Pending)));
    assert!(!held(Status::Inactive).can_update(&offered(Status::Inactive)));
    assert!(!held(Status::Inactive).can_update(&offered(Status::Gone)));
    assert!(!held(Status::Gone).can_update(&offered(Status::Active)));
    assert!(!held(Status::Gone).can_update(&offered(Status::Pending)));
    assert!(!held(Status::Gone).can_update(&offered(Status::Inactive)));
    assert!(!held(Status::Gone).can_update(&offered(Status::Gone)));
    assert!(held(Status::Pending).can_update(&offered(Status::Inactive)));
    assert!(held(Status::Active).can_update(&offered(Status::Inactive)));
    assert!(held(Status::Active).can_update(&offered(Status::Pending)));
    assert!(!held(Status::Active).can_update(&offered(Status::Active)));
    assert!(!held(Status::Active).can_update(&offered(Status::Gone)));
    assert!(!held(Status::Pending).can_update(&offered(Status::Active)));
    assert!(!held(Status::Pending).can_update(&offered(Status::Pending)));
    assert!(!held(Status::Pending).can_update(&offered(Status::Gone)));
}

#[test]
fn the_tie_break_never_goes_both_ways() {
    for first in ALL {
        for second in ALL {
            let a = seen_by(peer_a(), first);
            let b = seen_by(peer_b(), second);
            assert!(!(a.can_update(&b) && b.can_update(&a)));
        }
    }
}

#[test]
fn absorb_takes_the_candidate_that_may_supersede() {
    let mut held = Metadata::new_at(cell(), home(), 1_000);
    let mut candidate = held.clone();
    candidate.endpoint = Endpoint::V4 { addr4: 0x0a00_0001, port: 7001 };
    candidate.update_at(Status::Inactive, peer_a(), 2_000);
    assert!(held.absorb(candidate));
    assert_eq!(held.id, cell());
    assert_eq!(held.state, Status::Inactive);
    assert_eq!(held.endpoint, Endpoint::V4 { addr4: 0x0a00_0001, port: 7001 });
    assert_eq!(held.version.entries(), vec![(cell(), 1), (peer_a(), 1)]);
    assert_eq!(held.updated, 2_000);
}

#[test]
fn absorb_keeps_the_later_time() {
    let mut held = Metadata::new_at(cell(), home(), 9_000);
    let mut candidate = Metadata::new_at(cell(), home(), 1_000);
    candidate.update_at(Status::Pending, cell(), 1_500);
    assert!(held.absorb(candidate));
    assert_eq!(held.state, Status::Pending);
    assert_eq!(held.version.get(cell()), 2);
    assert_eq!(held.updated, 9_000);
}

#[test]
fn absorb_rejects_what_brings_nothing_new() {
    let mut held = Metadata::new_at(cell(), home(), 1_000);
    held.update_at(Status::Active, cell(), 1_000);
    let stale = Metadata::new_at(cell(), Endpoint::V4 { addr4: 1, port: 1 }, 5_000);
    assert!(!held.absorb(stale));
    assert_eq!(held.state, Status::Active);
    assert_eq!(held.endpoint, home());
    assert_eq!(held.updated, 1_000);
    assert_eq!(held.version.entries(), vec![(cell(), 2)]);
    let same = held.clone();
    assert!(!held.absorb(same));
}

#[test]
fn absorb_never_replaces_a_gone_record() {
    let mut held = Metadata::new_at(cell(), home(), 1_000);
    held.update_at(Status::Gone, cell(), 1_000);
    for offered in ALL {
        let mut candidate = held.clone();
        candidate.update_at(offered, peer_a(), 2_000);
        assert!(held.can_update(&candidate));
        assert!(!held.absorb(candidate));
        assert_eq!(held.state, Status::Gone);
        assert_eq!(held.updated, 1_000);
        assert_eq!(held.version.entries(), vec![(cell(), 2)]);
    }
}

#[test]
fn a_clone_is_independent() {
    let first = Metadata::new_at(cell(), home(), 1_000);
    let mut copy = first.clone();
    copy.update_at(Status::Gone, cell(), 2_000);
    assert_eq!(first.state, Status::Active);
    assert_eq!(first.updated, 1_000);
    assert_eq!(first.version.get(cell()), 1);
    assert_eq!(copy.version.get(cell()), 2);
}

#[test]
fn transition_at_moves_a_live_record() {
    for state in [Status::Active, Status::Inactive, Status::Pending] {
        for target in ALL {
            let mut record = Metadata::new_at(cell(), home(), 1_000);
            record.state = state;
            assert!(record.transition_at(target, peer_a(), 2_000));
            assert_eq!(record.id, cell());
            assert_eq!(record.endpoint, home());
            assert_eq!(record.state, target);
            assert_eq!(record.updated, 2_000);
            assert_eq!(record.version.entries(), vec![(cell(), 1), (peer_a(), 1)]);
        }
    }
}

#[test]
fn transition_at_leaves_a_gone_record_alone() {
    for target in ALL {
        let mut record = Metadata::new_at(cell(), home(), 1_000);
        record.state = Status::Gone;
        assert!(!record.transition_at(target, cell(), 2_000));
        assert_eq!(record.state, Status::Gone);
        assert_eq!(record.updated, 1_000);
        assert_eq!(record.version.entries(), vec![(cell(), 1)]);
    }
}

#[test]
fn transition_at_stops_at_an_exhausted_clock() {
    let mut record = Metadata::new_at(cell(), home(), 1_000);
    record.version.witness(peer_a(), u64::MAX);
    assert!(!record.transition_at(Status::Inactive, peer_a(), 2_000));
    assert_eq!(record.state, Status::Active);
    assert_eq!(record.updated, 1_000);
    assert_eq!(record.version.entries(), vec![(cell(), 1), (peer_a(), u64::MAX)]);
    assert!(record.transition_at(Status::Inactive, cell(), 2_000));
    assert_eq!(record.state, Status::Inactive);
    assert_eq!(record.version.entries(), vec![(cell(), 2), (peer_a(), u64::MAX)]);
}

#[test]
fn transition_uses_the_current_time() {
    let mut record = Metadata::new_at(cell(), home(), 0);
    let before = chrono::Utc::now().timestamp_millis();
    assert!(record.transition(Status::Gone, cell()));
    let after = chrono::Utc::now().timestamp_millis();
    assert_eq!(record.state, Status::Gone);
    assert_eq!(record.version.entries(), vec![(cell(), 2)]);
    assert!(before <= record.updated);
    assert!(record.updated <= after);
    assert!(!record.transition(Status::Active, cell()));
    assert_eq!(record.state, Status::Gone);
    assert_eq!(record.version.entries(), vec![(cell(), 2)]);
}
