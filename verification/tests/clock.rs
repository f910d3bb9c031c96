use a3s_event::clock::{epoch_millis, now_millis};

#[test]
fn epoch_millis_keeps_the_low_64_bits() {
    assert_eq!(epoch_millis(None), 0);
    assert_eq!(epoch_millis(Some(1_700_000_000_123)), 1_700_000_000_123);
    assert_eq!(epoch_millis(Some((1u128 << 64) + 5)), 5);
}

#[test]
fn now_is_after_the_epoch() {
    let a = now_millis();
    assert!(a > 1_600_000_000_000);
}
