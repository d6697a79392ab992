//! The cursor's blink, as a phase rather than a timer.
//!
//! A timer would be a second source of truth about the time. This is derived from one
//! instant, so a frame that arrives late is late by the same amount the blink is, and
//! nothing drifts. Instants are nanoseconds on the caller's monotonic clock; the phase is
//! counted in whole milliseconds, as the interval is.
use vstd::prelude::*;

verus! {

/// How long each half of a cursor blink lasts, in nanoseconds.
pub const BLINK_INTERVAL: u64 = 530_000_000;

/// One millisecond, in nanoseconds.
pub const MILLISECOND: u64 = 1_000_000;

/// The latest instant from which the next change of the blink can still be named.
pub const LAST_BLINK_INSTANT: u64 = 18_446_744_073_179_551_615;

/// Whole milliseconds from `epoch` to `now`, nothing if `now` is earlier.
pub open spec fn elapsed_ms(epoch: u64, now: u64) -> int {
    if now > epoch {
        (now - epoch) / (MILLISECOND as int)
    } else {
        0
    }
}

/// Whether a blink started at `epoch` is lit at `now`: lit for the first interval, dark for
/// the next, and so on, the other way round when the phase is shifted.
pub open spec fn lit(epoch: u64, shifted: bool, now: u64) -> bool {
    ((elapsed_ms(epoch, now) / 530) % 2 == 0) != shifted
}

/// The cursor's blink.
#[derive(Clone, Copy, Debug)]
pub struct Blink {
    epoch: u64,
    phase_shifted: bool,
}

impl Blink {
    /// When the current cycle began.
    pub closed spec fn spec_epoch(self) -> u64 {
        self.epoch
    }

    /// Whether the cycle starts in the dark half.
    pub closed spec fn shifted(self) -> bool {
        self.phase_shifted
    }

    /// A blink starting lit at `now`.
    pub fn new(now: u64) -> (r: Blink)
        ensures
            r.spec_epoch() == now,
            !r.shifted(),
    {
        Blink { epoch: now, phase_shifted: false }
    }

    /// When the current cycle began.
    pub fn epoch(&self) -> (r: u64)
        ensures
            r == self.spec_epoch(),
    {
        self.epoch
    }

    /// Whether the cursor is lit at `now`.
    pub fn on(&self, now: u64) -> (r: bool)
        ensures
            r == lit(self.spec_epoch(), self.shifted(), now),
    {
        let elapsed = if now > self.epoch { now - self.epoch } else { 0 };
        let half = (elapsed / MILLISECOND) / 530 % 2 == 0;
        half != self.phase_shifted
    }

    /// Restart the cycle, so that a cursor which has just moved is lit rather than arriving
    /// mid-blink; `shift` starts it in the dark half instead.
    pub fn restart(&mut self, now: u64, shift: bool)
        ensures
            final(self).spec_epoch() == now,
            final(self).shifted() == shift,
    {
        self.epoch = now;
        self.phase_shifted = shift;
    }

    /// When the blink next changes, so the host can wake exactly then.
    pub fn next_change(&self, now: u64) -> (r: u64)
        requires
            now <= LAST_BLINK_INSTANT,
        ensures
            now < r <= now + BLINK_INTERVAL,
            r == now + BLINK_INTERVAL - (elapsed_ms(self.spec_epoch(), now) % 530)
                * MILLISECOND,
    {
        let elapsed = if now > self.epoch { now - self.epoch } else { 0 };
        let spent = (elapsed / MILLISECOND) % 530 * MILLISECOND;
        let left = BLINK_INTERVAL - spent;
        now + left
    }
}

/// From an instant on or after the start of the cycle, the blink holds its state until the
/// next whole interval since the epoch, and has changed by the instant `next_change` names,
/// which is that change rounded up to the millisecond the elapsed time was counted in.
pub proof fn lemma_next_change_is_the_change(epoch: u64, shifted: bool, now: u64, t: u64)
    requires
        epoch <= now,
        now <= LAST_BLINK_INSTANT,
        now <= t < now + BLINK_INTERVAL - (elapsed_ms(epoch, now) % 530) * MILLISECOND - (now
            - epoch) % (MILLISECOND as int),
    ensures
        lit(epoch, shifted, t) == lit(epoch, shifted, now),
        lit(epoch, shifted, (now + BLINK_INTERVAL - (elapsed_ms(epoch, now) % 530)
            * MILLISECOND) as u64) != lit(epoch, shifted, now),
{
    let e = now - epoch;
    let ms = e / 1_000_000;
    let q = ms / 530;
    let rem = ms % 530;
    let next = now + BLINK_INTERVAL - rem * 1_000_000;
    let et = t - epoch;
    let en = next - epoch;
    assert(e == ms * 1_000_000 + e % 1_000_000) by (nonlinear_arith)
        requires ms == e / 1_000_000;
    assert(ms == q * 530 + rem) by (nonlinear_arith)
        requires q == ms / 530, rem == ms % 530;
    assert(en == (q + 1) * 530 * 1_000_000 + e % 1_000_000) by (nonlinear_arith)
        requires en == e + 530_000_000 - rem * 1_000_000, e == ms * 1_000_000 + e % 1_000_000,
            ms == q * 530 + rem;
    assert(en / 1_000_000 == (q + 1) * 530) by (nonlinear_arith)
        requires en == (q + 1) * 530 * 1_000_000 + e % 1_000_000, 0 <= e % 1_000_000 < 1_000_000;
    assert(((q + 1) * 530) / 530 == q + 1) by (nonlinear_arith);
    assert(et / 1_000_000 >= ms && et / 1_000_000 < (q + 1) * 530) by (nonlinear_arith)
        requires e <= et < (q + 1) * 530 * 1_000_000, ms == e / 1_000_000;
    assert((et / 1_000_000) / 530 == q) by (nonlinear_arith)
        requires q * 530 <= ms <= et / 1_000_000 < (q + 1) * 530, ms == q * 530 + rem, 0 <= rem;
}

/// The cursor is lit for the first 530 milliseconds of a cycle and dark for the next 530,
/// the other way round when the phase is shifted.
pub proof fn lemma_blink_halves(epoch: u64, now: u64)
    requires
        epoch <= now,
    ensures
        now - epoch < 530_000_000 ==> lit(epoch, false, now) && !lit(epoch, true, now),
        530_000_000 <= now - epoch < 1_060_000_000 ==> !lit(epoch, false, now) && lit(epoch, true, now),
{
    let e: int = now - epoch;
    if now > epoch {
        if e < 530_000_000 {
            assert(e / 1_000_000 < 530) by (nonlinear_arith)
                requires
                    0 <= e < 530_000_000,
            ;
            assert((e / 1_000_000) / 530 == 0) by (nonlinear_arith)
                requires
                    0 <= e / 1_000_000 < 530,
            ;
        } else if e < 1_060_000_000 {
            assert(530 <= e / 1_000_000 < 1060) by (nonlinear_arith)
                requires
                    530_000_000 <= e < 1_060_000_000,
            ;
            assert((e / 1_000_000) / 530 == 1) by (nonlinear_arith)
                requires
                    530 <= e / 1_000_000 < 1060,
            ;
        }
    }
}

} // verus!
