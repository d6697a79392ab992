use zet::hold::{Hold, BUDGET};

/// One millisecond, in the nanoseconds the hold counts in.
const MS: u64 = 1_000_000;

/// An instant to measure from, so no test depends on the wall clock.
fn epoch() -> u64 {
    5_000 * MS
}

#[test]
fn a_program_that_did_not_ask_for_a_hold_does_not_get_one() {
    let mut hold = Hold::default();
    assert!(!hold.holds(false, epoch()));
}

#[test]
fn a_program_mid_repaint_holds_the_frame() {
    let mut hold = Hold::default();
    let now = epoch();
    assert!(hold.holds(true, now));
    assert!(hold.holds(true, now + BUDGET / 2), "still repainting");
}

#[test]
fn the_hold_lifts_the_moment_the_program_says_it_is_done() {
    let mut hold = Hold::default();
    let now = epoch();
    assert!(hold.holds(true, now));
    assert!(!hold.holds(false, now + MS));
}

#[test]
fn the_budget_is_measured_from_the_start_of_the_repaint_and_not_from_each_call() {
    let mut hold = Hold::default();
    let now = epoch();
    assert!(hold.holds(true, now), "the first frame of the repaint");
    let mut at = now;
    for _ in 0..20 {
        at += BUDGET / 8;
        let _ = hold.holds(true, at);
    }
    assert!(!hold.holds(true, at), "the hold outlived the repaint it was granted for");
}

#[test]
fn a_program_that_never_finishes_repainting_loses_the_frame() {
    let mut hold = Hold::default();
    let now = epoch();
    assert!(hold.holds(true, now));
    assert!(!hold.holds(true, now + BUDGET));
    assert!(!hold.holds(true, now + BUDGET * 10));
}

#[test]
fn the_hold_says_when_it_lapses() {
    let mut hold = Hold::default();
    let now = epoch();
    assert_eq!(hold.deadline(), None, "nothing is being held");
    assert!(hold.holds(true, now));
    assert_eq!(hold.deadline(), Some(now + BUDGET));

    assert!(hold.holds(true, now + 10 * MS));
    assert_eq!(hold.deadline(), Some(now + BUDGET), "the deadline moved with the call");

    assert!(!hold.holds(true, now + BUDGET), "the budget ran out");
    assert_eq!(
        hold.deadline(),
        Some(now + BUDGET),
        "the deadline is the hold's own and does not move when the budget is spent"
    );

    assert!(!hold.holds(false, now + BUDGET));
    assert_eq!(hold.deadline(), None, "the program finished repainting");
}

#[test]
fn a_second_repaint_gets_a_budget_of_its_own() {
    let mut hold = Hold::default();
    let now = epoch();
    assert!(hold.holds(true, now));
    let done = now + 5 * MS;
    assert!(!hold.holds(false, done));

    let later = now + BUDGET * 100;
    assert!(hold.holds(true, later), "the second repaint was not held");
    assert!(hold.holds(true, later + BUDGET / 2));
    assert!(!hold.holds(true, later + BUDGET));
}

#[test]
fn the_budget_is_four_frames_of_a_sixty_hertz_display() {
    assert_eq!(BUDGET, 66 * MS);
    let mut hold = Hold::new();
    assert!(hold.holds(true, 0));
    assert!(hold.holds(true, BUDGET - 1));
    assert!(!hold.holds(true, BUDGET));
}

#[test]
fn a_clock_that_steps_back_still_holds() {
    let mut hold = Hold::new();
    assert!(hold.holds(true, epoch()));
    assert!(hold.holds(true, epoch() - MS));
}
