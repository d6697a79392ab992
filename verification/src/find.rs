//! The find bar: a query, the matches a search of the grid found for it, and which one the
//! user is on.
//!
//! The search of the grid itself is the host's, because the grid is. What is here is the
//! state around it: when a search is due, where the highlight lands when the matches come
//! back, and how the arrows walk them.
use vstd::prelude::*;

use crate::spell::{chars_of, push_char};

verus! {

/// The most matches a search reports. Past it the bar says so rather than counting.
pub const MATCH_LIMIT: usize = 1000;

/// A cell in the grid.
#[derive(Clone, Copy, PartialEq, Eq, Debug, Structural)]
pub struct Pos {
    /// The row, from the top of the scrollback.
    pub row: usize,
    /// The column.
    pub col: usize,
}

/// One place the query was found: its first and last cell.
#[derive(Clone, Copy, PartialEq, Eq, Debug, Structural)]
pub struct Match {
    /// The first cell of the match.
    pub start: Pos,
    /// The last cell of the match.
    pub end: Pos,
}

/// Whether a character is a control code, Unicode's general category `Cc`.
pub open spec fn is_control(c: char) -> bool {
    ('\u{0}' <= c <= '\u{1f}') || ('\u{7f}' <= c <= '\u{9f}')
}

/// How many matches at the front of the list start above `row`. The matches come in the
/// order they stand in the grid, so this is where the first one at or below `row` stands.
pub open spec fn rows_above(matches: Seq<Match>, row: usize) -> nat
    decreases matches.len(),
{
    if matches.len() == 0 {
        0
    } else if matches[0].start.row < row {
        1 + rows_above(matches.drop_first(), row)
    } else {
        0
    }
}

/// The first match at or below `row`, or the first match when none is.
pub open spec fn first_from(matches: Seq<Match>, row: usize) -> usize {
    let k = rows_above(matches, row);
    if k < matches.len() { k as usize } else { 0 }
}

/// The state of the find bar.
#[derive(Clone, Debug)]
pub struct Find {
    open: bool,
    query: String,
    matches: Vec<Match>,
    at: Option<usize>,
    from: Option<usize>,
    capped: bool,
    stale: bool,
}

impl Find {
    /// Whether the bar is on screen.
    pub closed spec fn spec_open(&self) -> bool {
        self.open
    }

    /// What has been typed.
    pub closed spec fn spec_query(&self) -> Seq<char> {
        self.query@
    }

    /// What the last search found.
    pub closed spec fn spec_matches(&self) -> Seq<Match> {
        self.matches@
    }

    /// Which match the user is on.
    pub closed spec fn spec_at(&self) -> Option<usize> {
        self.at
    }

    /// The row the next search should start looking from, when the user has been somewhere.
    pub closed spec fn spec_from(&self) -> Option<usize> {
        self.from
    }

    /// Whether the last search stopped at the limit.
    pub closed spec fn spec_capped(&self) -> bool {
        self.capped
    }

    /// Whether a search is due.
    pub closed spec fn spec_stale(&self) -> bool {
        self.stale
    }

    /// The match the user is on is one of the matches.
    pub open spec fn wf(&self) -> bool {
        self.spec_at() matches Some(a) ==> a < self.spec_matches().len()
    }

    /// A closed bar with nothing typed.
    pub fn new() -> (r: Find)
        ensures
            r.wf(),
            !r.spec_open(),
            r.spec_query() == Seq::<char>::empty(),
            r.spec_matches() == Seq::<Match>::empty(),
            r.spec_at() is None,
            r.spec_from() is None,
            !r.spec_capped(),
            !r.spec_stale(),
    {
        Find {
            open: false,
            query: String::new(),
            matches: Vec::new(),
            at: None,
            from: None,
            capped: false,
            stale: false,
        }
    }

    /// Whether the bar is on screen.
    pub fn is_open(&self) -> (r: bool)
        ensures
            r == self.spec_open(),
    {
        self.open
    }

    /// Put the bar on screen. The query is kept, and searched again.
    pub fn open(&mut self)
        requires
            old(self).wf(),
        ensures
            final(self).wf(),
            final(self).spec_open(),
            final(self).spec_stale(),
            final(self).spec_query() == old(self).spec_query(),
            final(self).spec_matches() == old(self).spec_matches(),
            final(self).spec_at() == old(self).spec_at(),
            final(self).spec_from() == old(self).spec_from(),
            final(self).spec_capped() == old(self).spec_capped(),
    {
        self.open = true;
        self.stale = true;
    }

    /// Take the bar off screen. The query is kept; the positions are thrown away, because
    /// the grid they were found in keeps moving.
    pub fn close(&mut self)
        ensures
            final(self).wf(),
            !final(self).spec_open(),
            final(self).spec_query() == old(self).spec_query(),
            final(self).spec_matches() == Seq::<Match>::empty(),
            final(self).spec_at() is None,
            final(self).spec_from() is None,
            !final(self).spec_capped(),
            !final(self).spec_stale(),
    {
        self.open = false;
        self.matches = Vec::new();
        self.at = None;
        self.from = None;
        self.capped = false;
        self.stale = false;
    }

    /// What has been typed.
    pub fn query(&self) -> (r: &str)
        ensures
            r@ == self.spec_query(),
    {
        self.query.as_str()
    }

    /// What the last search found.
    pub fn matches(&self) -> (r: &[Match])
        ensures
            r@ == self.spec_matches(),
    {
        self.matches.as_slice()
    }

    /// How many matches the last search found.
    pub fn count(&self) -> (r: usize)
        ensures
            r == self.spec_matches().len(),
    {
        self.matches.len()
    }

    /// Whether the last search stopped at the limit.
    pub fn capped(&self) -> (r: bool)
        ensures
            r == self.spec_capped(),
    {
        self.capped
    }

    /// Which match the user is on, counting from one.
    pub fn position(&self) -> (r: Option<usize>)
        requires
            self.wf(),
        ensures
            r == match self.spec_at() {
                Some(a) => Some((a + 1) as usize),
                None => None::<usize>,
            },
    {
        match self.at {
            Some(a) => if a < self.matches.len() {
                Some(a + 1)
            } else {
                None
            },
            None => None,
        }
    }

    /// Which match the user is on, counting from one, and how many there are.
    pub fn tally(&self) -> (r: Option<(usize, usize)>)
        requires
            self.wf(),
        ensures
            r == match self.spec_at() {
                Some(a) => Some(((a + 1) as usize, self.spec_matches().len() as usize)),
                None => None::<(usize, usize)>,
            },
    {
        let n = self.matches.len();
        match self.at {
            Some(a) => Some((a + 1, n)),
            None => None,
        }
    }

    /// The match the user is on.
    pub fn active(&self) -> (r: Option<Match>)
        ensures
            r == match self.spec_at() {
                Some(a) => if a < self.spec_matches().len() {
                    Some(self.spec_matches()[a as int])
                } else {
                    None
                },
                None => None::<Match>,
            },
    {
        match self.at {
            Some(a) => if a < self.matches.len() {
                Some(self.matches[a])
            } else {
                None
            },
            None => None,
        }
    }

    /// Whether the match at `index` is the one the user is on.
    pub fn is_active(&self, index: usize) -> (r: bool)
        ensures
            r == (self.spec_at() == Some(index)),
    {
        match self.at {
            Some(a) => a == index,
            None => false,
        }
    }

    /// Whether a search is due.
    pub fn is_stale(&self) -> (r: bool)
        ensures
            r == self.spec_stale(),
    {
        self.stale
    }

    /// Ask for a search, because the grid changed under the bar.
    pub fn touch(&mut self)
        requires
            old(self).wf(),
        ensures
            final(self).wf(),
            final(self).spec_stale(),
            final(self).spec_open() == old(self).spec_open(),
            final(self).spec_query() == old(self).spec_query(),
            final(self).spec_matches() == old(self).spec_matches(),
            final(self).spec_at() == old(self).spec_at(),
            final(self).spec_from() == old(self).spec_from(),
            final(self).spec_capped() == old(self).spec_capped(),
    {
        self.stale = true;
    }

    /// The query changed: remember where the user was, so the next search lands near it, and
    /// ask for one.
    fn remember(&mut self)
        requires
            old(self).wf(),
        ensures
            final(self).wf(),
            final(self).spec_from() == match old(self).spec_at() {
                Some(a) => Some(old(self).spec_matches()[a as int].start.row),
                None => old(self).spec_from(),
            },
            final(self).spec_stale(),
            final(self).spec_at() is None,
            final(self).spec_open() == old(self).spec_open(),
            final(self).spec_query() == old(self).spec_query(),
            final(self).spec_matches() == old(self).spec_matches(),
            final(self).spec_capped() == old(self).spec_capped(),
    {
        match self.active() {
            Some(found) => {
                self.from = Some(found.start.row);
            },
            None => {},
        }
        self.stale = true;
        self.at = None;
    }

    /// Type a character into the query. A control character is not part of one.
    pub fn push(&mut self, ch: char)
        requires
            old(self).wf(),
        ensures
            final(self).wf(),
            is_control(ch) ==> final(self).spec_query() == old(self).spec_query()
                && final(self).spec_stale() == old(self).spec_stale() && final(self).spec_at()
                == old(self).spec_at() && final(self).spec_from() == old(self).spec_from(),
            !is_control(ch) ==> final(self).spec_query() == old(self).spec_query().push(ch)
                && final(self).spec_stale() && final(self).spec_at() is None
                && final(self).spec_from() == match old(self).spec_at() {
                    Some(a) => Some(old(self).spec_matches()[a as int].start.row),
                    None => old(self).spec_from(),
                },
            final(self).spec_open() == old(self).spec_open(),
            final(self).spec_matches() == old(self).spec_matches(),
            final(self).spec_capped() == old(self).spec_capped(),
    {
        if ('\u{0}' <= ch && ch <= '\u{1f}') || ('\u{7f}' <= ch && ch <= '\u{9f}') {
            return;
        }
        push_char(&mut self.query, ch);
        self.remember();
    }

    /// Take the last character off the query, and say whether there was one.
    pub fn pop(&mut self) -> (r: bool)
        requires
            old(self).wf(),
        ensures
            final(self).wf(),
            r == (old(self).spec_query().len() > 0),
            r ==> final(self).spec_query() == old(self).spec_query().drop_last()
                && final(self).spec_stale() && final(self).spec_at() is None
                && final(self).spec_from() == match old(self).spec_at() {
                    Some(a) => Some(old(self).spec_matches()[a as int].start.row),
                    None => old(self).spec_from(),
                },
            !r ==> final(self).spec_query() == old(self).spec_query() && final(self).spec_at()
                == old(self).spec_at() && final(self).spec_stale() == old(self).spec_stale()
                && final(self).spec_from() == old(self).spec_from(),
            final(self).spec_open() == old(self).spec_open(),
            final(self).spec_matches() == old(self).spec_matches(),
            final(self).spec_capped() == old(self).spec_capped(),
    {
        let chars = chars_of(self.query.as_str());
        if chars.len() == 0 {
            return false;
        }
        let mut shorter = String::new();
        let mut i: usize = 0;
        while i + 1 < chars.len()
            invariant
                i + 1 <= chars.len(),
                shorter@ == chars@.take(i as int),
            decreases chars.len() - i,
        {
            push_char(&mut shorter, chars[i]);
            assert(shorter@ =~= chars@.take(i as int + 1));
            i += 1;
        }
        assert(shorter@ =~= chars@.drop_last());
        self.query = shorter;
        self.remember();
        true
    }

    /// Empty the query.
    pub fn clear(&mut self)
        requires
            old(self).wf(),
        ensures
            final(self).wf(),
            final(self).spec_query() == Seq::<char>::empty(),
            old(self).spec_query().len() > 0 ==> final(self).spec_stale() && final(self).spec_at() is None
                && final(self).spec_from() == match old(self).spec_at() {
                    Some(a) => Some(old(self).spec_matches()[a as int].start.row),
                    None => old(self).spec_from(),
                },
            old(self).spec_query().len() == 0 ==> final(self).spec_at() == old(self).spec_at()
                && final(self).spec_stale() == old(self).spec_stale() && final(self).spec_from()
                == old(self).spec_from(),
            final(self).spec_open() == old(self).spec_open(),
            final(self).spec_matches() == old(self).spec_matches(),
            final(self).spec_capped() == old(self).spec_capped(),
    {
        if self.query.unicode_len() == 0 {
            return;
        }
        self.query = String::new();
        self.remember();
    }

    /// Take what a search of the grid found for the query, if one was due.
    ///
    /// The matches replace the old ones. The user stays on the match they were on while it
    /// still exists; otherwise the highlight lands on the first match at or below the row
    /// they were last on, or below `from`, the top of the view, if they have not been
    /// anywhere, and on the first match when none is below.
    pub fn search(&mut self, found: Vec<Match>, from: usize)
        requires
            old(self).wf(),
        ensures
            final(self).wf(),
            !old(self).spec_stale() ==> *final(self) == *old(self),
            old(self).spec_stale() ==> {
                &&& !final(self).spec_stale()
                &&& final(self).spec_matches() == found@
                &&& final(self).spec_capped() == (found@.len() >= MATCH_LIMIT)
                &&& final(self).spec_at() == if found@.len() == 0 {
                    None
                } else if (old(self).spec_at() matches Some(a) && a < found@.len()) {
                    old(self).spec_at()
                } else {
                    Some(
                        first_from(
                            found@,
                            match old(self).spec_from() {
                                Some(r) => r,
                                None => from,
                            },
                        ),
                    )
                }
                &&& final(self).spec_from() == old(self).spec_from()
                &&& final(self).spec_query() == old(self).spec_query()
                &&& final(self).spec_open() == old(self).spec_open()
            },
    {
        if !self.stale {
            return;
        }
        self.stale = false;
        self.capped = found.len() >= MATCH_LIMIT;
        self.matches = found;
        if self.matches.len() == 0 {
            self.at = None;
        } else {
            let keep = match self.at {
                Some(a) => a < self.matches.len(),
                None => false,
            };
            if !keep {
                let start = match self.from {
                    Some(r) => r,
                    None => from,
                };
                self.at = Some(first_at_or_below(&self.matches, start));
            }
        }
    }

    /// Move to the next match, wrapping past the last.
    pub fn next_match(&mut self)
        requires
            old(self).wf(),
        ensures
            final(self).wf(),
            walked(*old(self), *final(self), true),
    {
        self.step(true);
    }

    /// Move to the previous match, wrapping past the first.
    pub fn previous_match(&mut self)
        requires
            old(self).wf(),
        ensures
            final(self).wf(),
            walked(*old(self), *final(self), false),
    {
        self.step(false);
    }

    fn step(&mut self, forward: bool)
        requires
            old(self).wf(),
        ensures
            final(self).wf(),
            walked(*old(self), *final(self), forward),
    {
        let count = self.matches.len();
        if count == 0 {
            return;
        }
        let at = match self.at {
            Some(a) => a,
            None => 0,
        };
        let next = if forward {
            (at + 1) % count
        } else if at == 0 {
            count - 1
        } else {
            at - 1
        };
        proof {
            if !forward {
                let c = count as int;
                if at == 0 {
                    vstd::arithmetic::div_mod::lemma_small_mod((c - 1) as nat, c as nat);
                } else {
                    vstd::arithmetic::div_mod::lemma_mod_add_multiples_vanish(at - 1, c);
                    vstd::arithmetic::div_mod::lemma_small_mod((at - 1) as nat, c as nat);
                }
            }
        }
        self.at = Some(next);
        self.from = Some(self.matches[next].start.row);
    }
}

impl Default for Find {
    fn default() -> (r: Find)
        ensures
            r.wf(),
            !r.spec_open(),
            r.spec_query() == Seq::<char>::empty(),
            r.spec_matches() == Seq::<Match>::empty(),
            r.spec_at() is None,
            r.spec_from() is None,
    {
        Find::new()
    }
}

/// The index of the match the arrows move to: one on, or one back, wrapping, from the match
/// the user is on or from the first.
pub open spec fn arrow_target(at: Option<usize>, count: nat, forward: bool) -> usize {
    let a: int = match at {
        Some(a) => a as int,
        None => 0,
    };
    if forward {
        ((a + 1) % (count as int)) as usize
    } else {
        ((a + count - 1) % (count as int)) as usize
    }
}

/// What an arrow does to the bar: nothing when there are no matches; otherwise the user is
/// on the next or previous match, and the next search starts from its row.
pub open spec fn walked(before: Find, after: Find, forward: bool) -> bool {
    let count = before.spec_matches().len();
    &&& after.spec_matches() == before.spec_matches()
    &&& after.spec_query() == before.spec_query()
    &&& after.spec_open() == before.spec_open()
    &&& after.spec_stale() == before.spec_stale()
    &&& after.spec_capped() == before.spec_capped()
    &&& if count == 0 {
        after.spec_at() == before.spec_at() && after.spec_from() == before.spec_from()
    } else {
        &&& after.spec_at() == Some(arrow_target(before.spec_at(), count, forward))
        &&& after.spec_from() == Some(
            before.spec_matches()[arrow_target(before.spec_at(), count, forward) as int].start.row,
        )
    }
}

/// The first match at or below `row`, or the first match when none is.
fn first_at_or_below(matches: &Vec<Match>, row: usize) -> (r: usize)
    requires
        matches@.len() > 0,
    ensures
        r == first_from(matches@, row),
        r < matches@.len(),
{
    let n = matches.len();
    let mut i: usize = 0;
    assert(matches@.skip(0) =~= matches@);
    while i < n && matches[i].start.row < row
        invariant
            i <= n,
            n == matches@.len(),
            rows_above(matches@, row) == i + rows_above(matches@.skip(i as int), row),
        decreases n - i,
    {
        assert(matches@.skip(i as int).drop_first() =~= matches@.skip(i as int + 1));
        i += 1;
    }
    if i < n {
        i
    } else {
        0
    }
}

/// Moving to the next match and then back, or back and then on, returns to the match the
/// user was on.
pub proof fn lemma_arrows_undo(a: usize, count: nat)
    requires
        a < count,
        count <= usize::MAX,
    ensures
        arrow_target(Some(arrow_target(Some(a), count, true)), count, false) == a,
        arrow_target(Some(arrow_target(Some(a), count, false)), count, true) == a,
{
    let c = count as int;
    let ai = a as int;
    let fwd = arrow_target(Some(a), count, true);
    if ai + 1 < c {
        vstd::arithmetic::div_mod::lemma_small_mod((ai + 1) as nat, count);
        assert(fwd == ai + 1);
        vstd::arithmetic::div_mod::lemma_mod_add_multiples_vanish(ai, c);
        vstd::arithmetic::div_mod::lemma_small_mod(a as nat, count);
        assert((fwd + c - 1) % c == (c + ai) % c);
    } else {
        vstd::arithmetic::div_mod::lemma_mod_self_0(c);
        assert(fwd == 0);
        vstd::arithmetic::div_mod::lemma_small_mod((c - 1) as nat, count);
        assert((fwd + c - 1) % c == c - 1);
    }
    let back = arrow_target(Some(a), count, false);
    if ai == 0 {
        vstd::arithmetic::div_mod::lemma_small_mod((c - 1) as nat, count);
        assert(back == c - 1);
        vstd::arithmetic::div_mod::lemma_mod_self_0(c);
        assert((back + 1) % c == 0);
    } else {
        vstd::arithmetic::div_mod::lemma_mod_add_multiples_vanish(ai - 1, c);
        vstd::arithmetic::div_mod::lemma_small_mod((ai - 1) as nat, count);
        assert((ai + c - 1) % c == (c + (ai - 1)) % c);
        assert(back == ai - 1);
        vstd::arithmetic::div_mod::lemma_small_mod(a as nat, count);
        assert((back + 1) % c == ai);
    }
}

/// The control characters are exactly Unicode's category `Cc`: U+0000 to U+001F and U+007F
/// to U+009F. Everything else, the space included, is a character a query can hold.
pub proof fn lemma_control_characters_are_category_cc(c: char)
    ensures
        is_control(c) <==> ((c as u32) <= 0x1f || (0x7f <= (c as u32) && (c as u32) <= 0x9f)),
        !is_control(' '),
{
}

} // verus!
