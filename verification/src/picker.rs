//! The profile picker: which shell a new tab is about to open, chosen from a list.
//!
//! The list itself is the caller's. What is here is the highlight: where it is, where it
//! goes when the user presses a key, and that it wraps rather than stopping at an end.
use vstd::prelude::*;

verus! {

/// The largest row count the highlight arithmetic counts up to; longer lists are treated
/// as this long.
pub const MAX_ROWS: usize = 2_147_483_647;

/// Where the highlight lands after moving `delta` rows through a list of `count`, wrapping
/// at both ends. A count past `MAX_ROWS` counts as `MAX_ROWS`, and a row past it as the top.
pub open spec fn wrapped(at: usize, delta: i32, count: usize) -> usize {
    let c: int = if count <= MAX_ROWS { count as int } else { MAX_ROWS as int };
    let a: int = if at <= MAX_ROWS { at as int } else { 0 };
    ((a + delta) % c) as usize
}

/// The row a move starts from, as the arithmetic reads it.
pub open spec fn start_row(at: usize) -> int {
    if at <= MAX_ROWS { at as int } else { 0 }
}

/// The profile picker.
#[derive(Clone, Copy, Debug)]
pub struct Picker {
    open: bool,
    at: usize,
}

impl Picker {
    /// The highlight is always within the rows the arithmetic counts.
    #[verifier::type_invariant]
    spec fn within_rows(self) -> bool {
        self.at <= MAX_ROWS
    }

    /// Whether the picker is on screen.
    pub closed spec fn spec_is_open(self) -> bool {
        self.open
    }

    /// The highlighted row.
    pub closed spec fn spec_at(self) -> usize {
        self.at
    }

    /// A picker nobody has asked for: closed, at the top.
    pub fn new() -> (r: Picker)
        ensures
            !r.spec_is_open(),
            r.spec_at() == 0,
            r.spec_at() <= MAX_ROWS,
    {
        Picker { open: false, at: 0 }
    }

    /// Whether the picker is on screen.
    pub fn is_open(&self) -> (r: bool)
        ensures
            r == self.spec_is_open(),
    {
        self.open
    }

    /// Put the picker on screen, with the highlight on the first row: the profile a new tab
    /// would have opened anyway.
    pub fn open(&mut self)
        ensures
            final(self).spec_is_open(),
            final(self).spec_at() == 0,
            final(self).spec_at() <= MAX_ROWS,
    {
        self.at = 0;
        self.open = true;
    }

    /// Take the picker off screen, whether a row was chosen or not.
    pub fn close(&mut self)
        ensures
            !final(self).spec_is_open(),
            final(self).spec_at() == 0,
            final(self).spec_at() <= MAX_ROWS,
    {
        self.at = 0;
        self.open = false;
    }

    /// The highlighted row.
    pub fn at(&self) -> (r: usize)
        ensures
            r == self.spec_at(),
            r <= MAX_ROWS,
    {
        proof {
            use_type_invariant(self);
        }
        self.at
    }

    /// Move the highlight `delta` rows through a list of `count`, wrapping at both ends.
    /// An empty list leaves it where it is.
    pub fn move_by(&mut self, delta: i32, count: usize)
        requires
            count == 0 || start_row(old(self).spec_at()) + delta <= i32::MAX,
        ensures
            final(self).spec_is_open() == old(self).spec_is_open(),
            count == 0 ==> final(self).spec_at() == old(self).spec_at(),
            count > 0 ==> final(self).spec_at() == wrapped(old(self).spec_at(), delta, count),
            count > 0 ==> final(self).spec_at() < count,
            final(self).spec_at() <= MAX_ROWS,
    {
        proof {
            use_type_invariant(&*self);
        }
        if count == 0 {
            return;
        }
        let c: i64 = if count <= MAX_ROWS { count as i64 } else { MAX_ROWS as i64 };
        let a: i64 = if self.at <= MAX_ROWS { self.at as i64 } else { 0 };
        let x: i64 = a + delta as i64;
        let r: i64 = if x >= 0 {
            x % c
        } else {
            let m: i64 = (-x) % c;
            if m == 0 { 0 } else { c - m }
        };
        proof {
            if x < 0 {
                let xi = x as int;
                let ci = c as int;
                let y = -xi;
                let m = y % ci;
                let q = y / ci;
                vstd::arithmetic::div_mod::lemma_fundamental_div_mod(y, ci);
                vstd::arithmetic::div_mod::lemma_mod_bound(y, ci);
                assert(ci * q == q * ci) by (nonlinear_arith);
                if m == 0 {
                    assert(xi == (-q) * ci + 0) by (nonlinear_arith)
                        requires
                            y == ci * q + m,
                            m == 0,
                            xi == -y,
                    ;
                    vstd::arithmetic::div_mod::lemma_fundamental_div_mod_converse_mod(xi, ci, -q, 0);
                } else {
                    assert(xi == (-q - 1) * ci + (ci - m)) by (nonlinear_arith)
                        requires
                            y == ci * q + m,
                            xi == -y,
                    ;
                    vstd::arithmetic::div_mod::lemma_fundamental_div_mod_converse_mod(
                        xi,
                        ci,
                        -q - 1,
                        ci - m,
                    );
                }
            }
        }
        self.at = r as usize;
    }
}

impl Default for Picker {
    fn default() -> (r: Picker)
        ensures
            !r.spec_is_open(),
            r.spec_at() == 0,
    {
        Picker::new()
    }
}

/// Moving the highlight and then moving it back by the same amount returns it to the row it
/// started on.
pub proof fn lemma_move_back_undoes(at: usize, delta: i32, count: usize)
    requires
        0 < count <= MAX_ROWS,
        at < count,
        delta > i32::MIN,
    ensures
        wrapped(wrapped(at, delta, count), (-delta) as i32, count) == at,
{
    let c = count as int;
    let a = at as int;
    let d = delta as int;
    vstd::arithmetic::div_mod::lemma_add_mod_noop_right(-d, a + d, c);
    vstd::arithmetic::div_mod::lemma_small_mod(a as nat, c as nat);
    assert(0 <= (a + d) % c < c) by {
        vstd::arithmetic::div_mod::lemma_mod_bound(a + d, c);
    }
}

/// The highlight wraps at both ends: down from the last row lands on the first, up from the
/// first lands on the last, and anywhere else a step down is the next row and a step up the
/// previous one.
pub proof fn lemma_highlight_wraps(at: usize, count: usize)
    requires
        0 < count <= MAX_ROWS,
        at < count,
    ensures
        at + 1 == count ==> wrapped(at, 1i32, count) == 0,
        at + 1 < count ==> wrapped(at, 1i32, count) == at + 1,
        at == 0 ==> wrapped(at, -1i32, count) == count - 1,
        at > 0 ==> wrapped(at, -1i32, count) == at - 1,
{
    let c = count as int;
    let a = at as int;
    if a + 1 == c {
        vstd::arithmetic::div_mod::lemma_mod_self_0(c);
    } else {
        vstd::arithmetic::div_mod::lemma_small_mod((a + 1) as nat, c as nat);
    }
    if a == 0 {
        vstd::arithmetic::div_mod::lemma_fundamental_div_mod_converse_mod(-1, c, -1, c - 1);
    } else {
        vstd::arithmetic::div_mod::lemma_small_mod((a - 1) as nat, c as nat);
    }
}

} // verus!
