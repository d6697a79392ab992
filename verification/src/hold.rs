//! Holding the frame while a program repaints.
//!
//! `DECSET 2026` makes a full-screen program flicker-free: the terminal holds the last
//! complete frame until the program says the new one is finished. A program that crashed
//! or wedged mid-repaint never says so, so the hold expires.
//!
//! Time is passed in rather than read, as nanoseconds on a monotonic clock the caller
//! owns, so the budget can be asserted from either side of its own boundary.
use vstd::prelude::*;

verus! {

/// How long one repaint may hold the frame before the terminal stops waiting for it, in
/// nanoseconds: four frames of a 60Hz display.
pub const BUDGET: u64 = 66_000_000;

/// The latest instant the clock can report: the deadline of a hold that started then
/// still fits in a `u64`.
pub const LAST_INSTANT: u64 = 18_446_744_073_643_551_615;

/// The hold a program has asked for, and when it started.
#[derive(Clone, Copy, Debug)]
pub struct Hold {
    /// When the repaint this hold belongs to began, while one is being held.
    since: Option<u64>,
}

impl Hold {
    /// When the repaint being held began, if one is.
    pub closed spec fn started(self) -> Option<u64> {
        self.since
    }

    /// The start of a hold leaves room for its deadline.
    pub open spec fn wf(self) -> bool {
        match self.started() {
            Some(s) => s <= LAST_INSTANT,
            None => true,
        }
    }

    /// No hold in force.
    pub fn new() -> (r: Hold)
        ensures
            r.started() is None,
            r.wf(),
    {
        Hold { since: None }
    }

    /// Whether to keep holding the frame, given whether the program is synchronized now.
    ///
    /// The budget is measured from the first call that found the program synchronized,
    /// not from each call, because a repaint arrives across several reads. A call that
    /// finds the program done ends the hold, so the next repaint gets a budget of its own.
    pub fn holds(&mut self, synchronized: bool, now: u64) -> (r: bool)
        requires
            old(self).wf(),
            now <= LAST_INSTANT,
        ensures
            final(self).wf(),
            !synchronized ==> !r && final(self).started() is None,
            synchronized ==> final(self).started() == Some(
                match old(self).started() {
                    Some(s) => s,
                    None => now,
                },
            ),
            synchronized ==> r == (now < final(self).started()->0 + BUDGET),
    {
        if !synchronized {
            self.since = None;
            return false;
        }
        let since = match self.since {
            Some(s) => s,
            None => now,
        };
        self.since = Some(since);
        let elapsed = if now > since { now - since } else { 0 };
        elapsed < BUDGET
    }

    /// When the hold in force lapses: the start of the repaint plus the budget, whenever
    /// it is asked. `None` when nothing is being held.
    pub fn deadline(&self) -> (r: Option<u64>)
        requires
            self.wf(),
        ensures
            r == match self.started() {
                Some(s) => Some((s + BUDGET) as u64),
                None => None::<u64>,
            },
    {
        match self.since {
            Some(s) => Some(s + BUDGET),
            None => None,
        }
    }
}

impl Default for Hold {
    fn default() -> (r: Hold)
        ensures
            r.started() is None,
            r.wf(),
    {
        Hold::new()
    }
}

/// A repaint may hold the frame for 66 milliseconds, four frames of a 60Hz display, and no
/// longer: from a hold that began at `start`, a call at `now` keeps holding exactly while
/// less than that has passed.
pub proof fn lemma_the_budget_is_66_milliseconds(start: u64, now: u64)
    requires
        start <= now,
    ensures
        BUDGET == 66_000_000,
        (now < start + BUDGET) <==> (now - start < 66_000_000),
{
}

} // verus!
