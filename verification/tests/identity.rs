use pollux_core::{CellId, Status};
use std::cmp::Ordering;

#[test]
fn at_keeps_the_timestamp() {
    assert_eq!(CellId::at(0).timestamp(), 0);
    assert_eq!(CellId::at(1_700_000_000_123).timestamp(), 1_700_000_000_123);
    assert_eq!(CellId::at(u64::MAX).timestamp(), u64::MAX);
}

#[test]
fn at_draws_a_random_version_four_tag() {
    let a = CellId::at(7);
    let b = CellId::at(7);
    let mask: u128 = 0xF000_C000_0000_0000_0000;
    let marks: u128 = 0x4000_8000_0000_0000_0000;
    assert_eq!(a.id() & mask, marks);
    assert_eq!(b.id() & mask, marks);
    assert_eq!(uuid::Uuid::from_u128(a.id()).get_version_num(), 4);
    assert_ne!(a.id(), b.id());
    assert_ne!(a, b);
}

#[test]
fn new_is_stamped_with_the_current_time() {
    let before = chrono::Utc::now().timestamp_millis() as u64;
    let id = CellId::new();
    let after = chrono::Utc::now().timestamp_millis() as u64;
    assert!(before <= id.timestamp());
    assert!(id.timestamp() <= after);
    assert_eq!(uuid::Uuid::from_u128(id.id()).get_version_num(), 4);
}

#[test]
fn from_parts_keeps_both_parts() {
    let id = CellId::from_parts(5, 9);
    assert_eq!(id.timestamp(), 5);
    assert_eq!(id.id(), 9);
    let big = CellId::from_parts(u64::MAX, u128::MAX);
    assert_eq!(big.timestamp(), u64::MAX);
    assert_eq!(big.id(), u128::MAX);
}

#[test]
fn default_has_timestamp_zero_and_a_fresh_tag() {
    let a = CellId::default();
    let b = CellId::default();
    assert_eq!(a.timestamp(), 0);
    assert_eq!(b.timestamp(), 0);
    assert_ne!(a.id(), b.id());
}

#[test]
fn equality_needs_both_fields() {
    assert_eq!(CellId::from_parts(1, 2), CellId::from_parts(1, 2));
    assert_ne!(CellId::from_parts(1, 2), CellId::from_parts(1, 3));
    assert_ne!(CellId::from_parts(1, 2), CellId::from_parts(2, 2));
    let copy = CellId::from_parts(4, 4);
    let same = copy;
    assert_eq!(copy, same);
}

#[test]
fn order_goes_by_timestamp_first() {
    let early = CellId::from_parts(1, u128::MAX);
    let late = CellId::from_parts(2, 0);
    assert_eq!(early.partial_cmp(&late), Some(Ordering::Less));
    assert_eq!(late.partial_cmp(&early), Some(Ordering::Greater));
    assert_eq!(early.cmp(&late), Ordering::Less);
    assert_eq!(late.cmp(&early), Ordering::Greater);
    assert!(early < late);
    assert!(late > early);
}

#[test]
fn order_breaks_ties_by_tag() {
    let low = CellId::from_parts(9, 10);
    let high = CellId::from_parts(9, 11);
    assert_eq!(low.partial_cmp(&high), Some(Ordering::Less));
    assert_eq!(high.partial_cmp(&low), Some(Ordering::Greater));
    assert_eq!(low.partial_cmp(&low), Some(Ordering::Equal));
    assert_eq!(low.cmp(&high), Ordering::Less);
    assert_eq!(high.cmp(&low), Ordering::Greater);
    assert_eq!(low.cmp(&low), Ordering::Equal);
    assert!(low <= low);
    assert!(low < high);
}

#[test]
fn tags_order_as_their_uuids_do() {
    let tags: [u128; 5] = [
        0,
        1,
        0x0100_0000_0000_0000_0000_0000_0000_0000,
        0x00ff_ffff_ffff_ffff_ffff_ffff_ffff_ffff,
        u128::MAX,
    ];
    for a in tags {
        for b in tags {
            let by_uuid = uuid::Uuid::from_u128(a).cmp(&uuid::Uuid::from_u128(b));
            let by_id = CellId::from_parts(3, a).cmp(&CellId::from_parts(3, b));
            assert_eq!(by_id, by_uuid);
            assert_eq!(CellId::from_parts(3, a).partial_cmp(&CellId::from_parts(3, b)), Some(by_uuid));
        }
    }
}

#[test]
fn identities_sort_as_keys() {
    let mut ids = vec![
        CellId::from_parts(3, 1),
        CellId::from_parts(1, 7),
        CellId::from_parts(3, 0),
        CellId::from_parts(2, 9),
    ];
    ids.sort();
    assert_eq!(
        ids,
        vec![
            CellId::from_parts(1, 7),
            CellId::from_parts(2, 9),
            CellId::from_parts(3, 0),
            CellId::from_parts(3, 1),
        ]
    );
}

#[test]
fn label_writes_time_plus_tag() {
    let id = CellId::from_parts(42, 0xa1a2a3a4_b1b2_c1c2_d1d2_d3d4d5d6d7d8);
    assert_eq!(id.label(), "42+a1a2a3a4-b1b2-c1c2-d1d2-d3d4d5d6d7d8");
    let zero = CellId::from_parts(0, 0);
    assert_eq!(zero.label(), "0+00000000-0000-0000-0000-000000000000");
    let top = CellId::from_parts(u64::MAX, u128::MAX);
    assert_eq!(top.label(), "18446744073709551615+ffffffff-ffff-ffff-ffff-ffffffffffff");
    let mixed = CellId::from_parts(1_700_000_000_123, 0x0123_4567_89ab_cdef_0fed_cba9_8765_4321);
    assert_eq!(mixed.label(), "1700000000123+01234567-89ab-cdef-0fed-cba987654321");
}

#[test]
fn label_agrees_with_the_uuid_crate() {
    let id = CellId::at(1234);
    let expected = format!("{}+{}", 1234, uuid::Uuid::from_u128(id.id()));
    assert_eq!(id.label(), expected);
}

#[test]
fn status_labels_are_lower_case_names() {
    assert_eq!(Status::Active.label(), "active");
    assert_eq!(Status::Inactive.label(), "inactive");
    assert_eq!(Status::Pending.label(), "pending");
    assert_eq!(Status::Gone.label(), "gone");
}

#[test]
fn statuses_compare_by_variant() {
    assert_eq!(Status::Active, Status::Active);
    assert_ne!(Status::Active, Status::Pending);
    assert_ne!(Status::Inactive, Status::Gone);
    let copy = Status::Gone;
    assert_eq!(copy, Status::Gone);
}
