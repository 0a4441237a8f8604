use toaster::{Heights, ToastId};

fn three_measured() -> (Heights, ToastId, ToastId, ToastId) {
    // Front-to-back heights [40, 60, 50]: register prepends, so the back
    // toast goes in first.
    let a = ToastId::from_usize(1);
    let b = ToastId::from_usize(2);
    let c = ToastId::from_usize(3);
    let mut heights = Heights::new();
    heights.register(c.clone(), 50);
    heights.register(b.clone(), 60);
    heights.register(a.clone(), 40);
    (heights, a, b, c)
}

#[test]
fn offsets_accumulate_gaps_and_heights() {
    let (heights, a, b, c) = three_measured();
    assert_eq!(heights.offset_for(&a, 14), 0);
    assert_eq!(heights.offset_for(&b, 14), 14 + 40);
    assert_eq!(heights.offset_for(&c, 14), 14 * 2 + (40 + 60));
}

#[test]
fn offset_of_third_of_three_is_128() {
    let (heights, _, _, c) = three_measured();
    assert_eq!(heights.offset_for(&c, 14), 128);
}

#[test]
fn front_height_tracks_the_front_record() {
    let (heights, _, _, _) = three_measured();
    assert_eq!(heights.front_height(), 40);
    assert_eq!(Heights::new().front_height(), 0);
}

#[test]
fn unregister_reflows_the_toasts_behind() {
    let (mut heights, a, b, c) = three_measured();
    heights.unregister(&b);
    assert_eq!(heights.offset_for(&c, 14), 14 + 40);
    assert_eq!(heights.offset_for(&a, 14), 0);
}

#[test]
fn unregister_absent_id_changes_nothing() {
    let (mut heights, _, _, c) = three_measured();
    heights.unregister(&ToastId::from_usize(9));
    assert_eq!(heights.records.len(), 3);
    assert_eq!(heights.offset_for(&c, 14), 128);
}

#[test]
fn height_index_defaults_to_front_for_unknown_ids() {
    let (heights, _, b, _) = three_measured();
    assert_eq!(heights.height_index(&b), 1);
    assert_eq!(heights.height_index(&ToastId::from_usize(9)), 0);
}

#[test]
fn zero_gap_sums_heights_only() {
    let (heights, _, _, c) = three_measured();
    assert_eq!(heights.offset_for(&c, 0), 100);
}
