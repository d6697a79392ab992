use zet::blink::{Blink, BLINK_INTERVAL};

const MS: u64 = 1_000_000;

#[test]
fn a_blink_is_on_for_half_of_its_period_and_off_for_the_other_half() {
    let mut blink = Blink::new(7_000 * MS);
    let start = blink.epoch();
    assert!(blink.on(start));
    assert!(blink.on(start + 529 * MS));
    assert!(!blink.on(start + 530 * MS));
    assert!(!blink.on(start + 1059 * MS));
    assert!(blink.on(start + 1060 * MS));

    blink.restart(start, true);
    assert!(!blink.on(start), "a restart can start in the dark half");
}

#[test]
fn the_next_blink_is_never_more_than_one_interval_away() {
    let blink = Blink::new(3 * MS);
    for now in [3 * MS, 3 * MS + 1, 400 * MS, 533 * MS, 533 * MS + 7, 10_000 * MS] {
        let next = blink.next_change(now);
        assert!(next > now);
        assert!(next - now <= BLINK_INTERVAL);
        assert_ne!(blink.on(next), blink.on(now), "the blink changes by the time named");
    }
}

#[test]
fn the_next_change_of_a_fresh_blink_is_one_interval_on() {
    let blink = Blink::new(0);
    assert_eq!(blink.next_change(0), BLINK_INTERVAL);
    assert_eq!(blink.next_change(100 * MS), 530 * MS);
    assert_eq!(blink.next_change(530 * MS), 1060 * MS);
}
