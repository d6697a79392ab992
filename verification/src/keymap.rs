//! The `[keys]` table: action names against the chords bound to them, kept in the order
//! the names sort in.
//!
//! The entries are held sorted by name with no name twice, which is what a sorted map
//! guarantees and what the settings panel relies on when it lists and writes them back.
//! Names are ordered character by character by code point, which for text is the order
//! `String` compares in.
use vstd::prelude::*;

use crate::spell::{chars_of, string_of};

verus! {

/// Whether `a` sorts strictly before `b`, comparing character codes from the front and
/// putting a prefix first.
pub open spec fn before(a: Seq<char>, b: Seq<char>) -> bool
    decreases a.len(),
{
    if a.len() == 0 {
        b.len() > 0
    } else if b.len() == 0 {
        false
    } else if a[0] != b[0] {
        a[0] < b[0]
    } else {
        before(a.drop_first(), b.drop_first())
    }
}

/// Whether a list of names is strictly increasing, so that no name occurs twice.
pub open spec fn ascending(names: Seq<Seq<char>>) -> bool {
    forall|i: int, j: int| 0 <= i < j < names.len() ==> before(#[trigger] names[i], #[trigger] names[j])
}

/// The names of a list of entries.
pub open spec fn names_of(pairs: Seq<(Seq<char>, Seq<char>)>) -> Seq<Seq<char>> {
    pairs.map_values(|p: (Seq<char>, Seq<char>)| p.0)
}

/// A list of entries as a map from name to chord, later entries winning.
pub open spec fn as_map(pairs: Seq<(Seq<char>, Seq<char>)>) -> Map<Seq<char>, Seq<char>>
    decreases pairs.len(),
{
    if pairs.len() == 0 {
        Map::empty()
    } else {
        as_map(pairs.drop_last()).insert(pairs.last().0, pairs.last().1)
    }
}

/// Nothing sorts before itself.
pub proof fn lemma_before_irreflexive(a: Seq<char>)
    ensures
        !before(a, a),
    decreases a.len(),
{
    if a.len() > 0 {
        lemma_before_irreflexive(a.drop_first());
    }
}

/// Of two different names, one sorts before the other.
pub proof fn lemma_before_total(a: Seq<char>, b: Seq<char>)
    ensures
        a == b || before(a, b) || before(b, a),
    decreases a.len(),
{
    if a.len() > 0 && b.len() > 0 && a[0] == b[0] {
        lemma_before_total(a.drop_first(), b.drop_first());
        if a.drop_first() == b.drop_first() {
            assert(a =~= seq![a[0]] + a.drop_first());
            assert(b =~= seq![b[0]] + b.drop_first());
        }
    } else if a.len() == 0 && b.len() == 0 {
        assert(a =~= b);
    }
}

/// No two names sort each way round.
pub proof fn lemma_before_asymmetric(a: Seq<char>, b: Seq<char>)
    ensures
        !(before(a, b) && before(b, a)),
    decreases a.len(),
{
    if a.len() > 0 && b.len() > 0 && a[0] == b[0] {
        lemma_before_asymmetric(a.drop_first(), b.drop_first());
    }
}

/// Sorting before is transitive.
pub proof fn lemma_before_transitive(a: Seq<char>, b: Seq<char>, c: Seq<char>)
    requires
        before(a, b),
        before(b, c),
    ensures
        before(a, c),
    decreases a.len(),
{
    if a.len() > 0 && b.len() > 0 && c.len() > 0 && a[0] == b[0] && b[0] == c[0] {
        lemma_before_transitive(a.drop_first(), b.drop_first(), c.drop_first());
    }
}

/// The names of a list are exactly the keys of its map.
proof fn lemma_map_domain(pairs: Seq<(Seq<char>, Seq<char>)>, k: Seq<char>)
    ensures
        as_map(pairs).contains_key(k) <==> exists|i: int| 0 <= i < pairs.len() && pairs[i].0 == k,
    decreases pairs.len(),
{
    if pairs.len() > 0 {
        let rest = pairs.drop_last();
        lemma_map_domain(rest, k);
        if as_map(pairs).contains_key(k) && k != pairs.last().0 {
            let i = choose|i: int| 0 <= i < rest.len() && rest[i].0 == k;
            assert(pairs[i].0 == k);
        }
        if exists|i: int| 0 <= i < pairs.len() && pairs[i].0 == k {
            let i = choose|i: int| 0 <= i < pairs.len() && pairs[i].0 == k;
            if i < pairs.len() - 1 {
                assert(rest[i].0 == k);
            }
        }
    }
}

/// With no name twice, the map holds each entry's chord under its name.
proof fn lemma_map_value(pairs: Seq<(Seq<char>, Seq<char>)>, i: int)
    requires
        ascending(names_of(pairs)),
        0 <= i < pairs.len(),
    ensures
        as_map(pairs).contains_key(pairs[i].0),
        as_map(pairs)[pairs[i].0] == pairs[i].1,
    decreases pairs.len(),
{
    let rest = pairs.drop_last();
    if i < pairs.len() - 1 {
        assert(ascending(names_of(rest))) by {
            assert forall|a: int, b: int| 0 <= a < b < names_of(rest).len() implies before(
                #[trigger] names_of(rest)[a],
                #[trigger] names_of(rest)[b],
            ) by {
                assert(names_of(rest)[a] == names_of(pairs)[a]);
                assert(names_of(rest)[b] == names_of(pairs)[b]);
            }
        }
        lemma_map_value(rest, i);
        assert(before(names_of(pairs)[i], names_of(pairs)[pairs.len() - 1]));
        lemma_before_irreflexive(pairs[i].0);
    }
}

/// Putting a new name at position `i` of the list adds it to the map.
proof fn lemma_map_insert(pairs: Seq<(Seq<char>, Seq<char>)>, i: int, k: Seq<char>, v: Seq<char>)
    requires
        0 <= i <= pairs.len(),
        forall|j: int| 0 <= j < pairs.len() ==> pairs[j].0 != k,
    ensures
        as_map(pairs.insert(i, (k, v))) == as_map(pairs).insert(k, v),
    decreases pairs.len(),
{
    let grown = pairs.insert(i, (k, v));
    if i == pairs.len() {
        assert(grown.drop_last() =~= pairs);
    } else {
        let rest = pairs.drop_last();
        assert(grown.drop_last() =~= rest.insert(i, (k, v)));
        assert(grown.last() == pairs.last());
        lemma_map_insert(rest, i, k, v);
        assert(pairs.last().0 != k);
        assert(as_map(rest).insert(k, v).insert(pairs.last().0, pairs.last().1) =~= as_map(
            rest,
        ).insert(pairs.last().0, pairs.last().1).insert(k, v));
    }
}

/// Replacing the chord of the entry at `i` replaces it in the map.
proof fn lemma_map_update(pairs: Seq<(Seq<char>, Seq<char>)>, i: int, v: Seq<char>)
    requires
        ascending(names_of(pairs)),
        0 <= i < pairs.len(),
    ensures
        as_map(pairs.update(i, (pairs[i].0, v))) == as_map(pairs).insert(pairs[i].0, v),
    decreases pairs.len(),
{
    let k = pairs[i].0;
    let changed = pairs.update(i, (k, v));
    let rest = pairs.drop_last();
    if i == pairs.len() - 1 {
        assert(changed.drop_last() =~= rest);
        assert(as_map(rest).insert(k, pairs[i].1).insert(k, v) =~= as_map(rest).insert(k, v));
    } else {
        assert(changed.drop_last() =~= rest.update(i, (k, v)));
        assert(ascending(names_of(rest))) by {
            assert forall|a: int, b: int| 0 <= a < b < names_of(rest).len() implies before(
                #[trigger] names_of(rest)[a],
                #[trigger] names_of(rest)[b],
            ) by {
                assert(names_of(rest)[a] == names_of(pairs)[a]);
                assert(names_of(rest)[b] == names_of(pairs)[b]);
            }
        }
        lemma_map_update(rest, i, v);
        assert(before(names_of(pairs)[i], names_of(pairs)[pairs.len() - 1]));
        lemma_before_irreflexive(k);
        assert(as_map(rest).insert(k, v).insert(pairs.last().0, pairs.last().1) =~= as_map(
            rest,
        ).insert(pairs.last().0, pairs.last().1).insert(k, v));
    }
}

/// Whether `a` sorts strictly before `b`.
pub(crate) fn precedes(a: &Vec<char>, b: &Vec<char>) -> (r: bool)
    ensures
        r == before(a@, b@),
{
    let mut i: usize = 0;
    assert(a@.skip(0) =~= a@ && b@.skip(0) =~= b@);
    while i < a.len() && i < b.len() && a[i] == b[i]
        invariant
            i <= a.len(),
            i <= b.len(),
            before(a@, b@) == before(a@.skip(i as int), b@.skip(i as int)),
        decreases a.len() - i,
    {
        assert(a@.skip(i as int).drop_first() =~= a@.skip(i as int + 1));
        assert(b@.skip(i as int).drop_first() =~= b@.skip(i as int + 1));
        i += 1;
    }
    if i == a.len() {
        i < b.len()
    } else if i == b.len() {
        false
    } else {
        a[i] < b[i]
    }
}

/// Action names against the chords bound to them, kept in ascending order of name with no
/// name twice.
///
/// The entries are a vector in name order rather than a `BTreeMap<String, String>`: the
/// map's specification in vstd says little about `String` keys (a lookup after an insert
/// is not proved for them), while a sorted vector lets every operation here state exactly
/// which entries it keeps and in what order, which is the order the file lists them in.
#[derive(Clone, Debug)]
pub struct Keymap {
    entries: Vec<(String, String)>,
}

impl Keymap {
    /// The entries, in order.
    pub closed spec fn pairs(&self) -> Seq<(Seq<char>, Seq<char>)> {
        self.entries@.map_values(|e: (String, String)| (e.0@, e.1@))
    }

    /// The entries' names are strictly increasing.
    pub open spec fn wf(&self) -> bool {
        ascending(names_of(self.pairs()))
    }

    /// The table as a map from action name to chord.
    pub open spec fn spec_map(&self) -> Map<Seq<char>, Seq<char>> {
        as_map(self.pairs())
    }

    /// An empty table.
    pub fn new() -> (r: Keymap)
        ensures
            r.wf(),
            r.pairs() == Seq::<(Seq<char>, Seq<char>)>::empty(),
            r.spec_map() == Map::<Seq<char>, Seq<char>>::empty(),
    {
        let r = Keymap { entries: Vec::new() };
        assert(r.pairs() =~= Seq::<(Seq<char>, Seq<char>)>::empty());
        r
    }

    /// How many entries there are.
    pub fn len(&self) -> (r: usize)
        ensures
            r == self.pairs().len(),
    {
        self.entries.len()
    }

    /// Whether there are none.
    pub fn is_empty(&self) -> (r: bool)
        ensures
            r == (self.pairs().len() == 0),
    {
        self.entries.len() == 0
    }

    /// The name of the entry at `i`.
    pub fn name_at(&self, i: usize) -> (r: &String)
        requires
            i < self.pairs().len(),
        ensures
            r@ == self.pairs()[i as int].0,
    {
        &self.entries[i].0
    }

    /// The chord of the entry at `i`.
    pub fn chord_at(&self, i: usize) -> (r: &String)
        requires
            i < self.pairs().len(),
        ensures
            r@ == self.pairs()[i as int].1,
    {
        &self.entries[i].1
    }

    /// Every entry, in name order.
    pub fn entries(&self) -> (r: Vec<(String, String)>)
        ensures
            r@.map_values(|e: (String, String)| (e.0@, e.1@)) == self.pairs(),
    {
        let mut out: Vec<(String, String)> = Vec::new();
        let mut i: usize = 0;
        while i < self.entries.len()
            invariant
                i <= self.entries.len(),
                out@.len() == i,
                forall|k: int|
                    0 <= k < i ==> (#[trigger] out@[k]).0@ == self.entries@[k].0@ && out@[k].1@
                        == self.entries@[k].1@,
            decreases self.entries.len() - i,
        {
            let name = self.entries[i].0.clone();
            let chord = self.entries[i].1.clone();
            out.push((name, chord));
            i += 1;
        }
        assert(out@.map_values(|e: (String, String)| (e.0@, e.1@)) =~= self.pairs());
        out
    }

    /// Where `name` is or would go: the first entry whose name does not sort before it.
    fn position(&self, name: &Vec<char>) -> (r: usize)
        requires
            self.wf(),
        ensures
            r <= self.pairs().len(),
            forall|j: int| 0 <= j < r ==> before(#[trigger] self.pairs()[j].0, name@),
            r < self.pairs().len() ==> !before(self.pairs()[r as int].0, name@),
    {
        let mut i: usize = 0;
        while i < self.entries.len()
            invariant
                i <= self.entries.len(),
                self.pairs().len() == self.entries.len(),
                forall|j: int| 0 <= j < i ==> before(#[trigger] self.pairs()[j].0, name@),
            decreases self.entries.len() - i,
        {
            let here = chars_of(self.entries[i].0.as_str());
            if !precedes(&here, name) {
                return i;
            }
            i += 1;
        }
        i
    }

    /// The chord bound to `name`, if any.
    pub fn get(&self, name: &str) -> (r: Option<String>)
        requires
            self.wf(),
        ensures
            match r {
                Some(chord) => self.spec_map().contains_key(name@) && self.spec_map()[name@]
                    == chord@,
                None => !self.spec_map().contains_key(name@),
            },
    {
        let wanted = chars_of(name);
        let i = self.position(&wanted);
        proof {
            lemma_map_domain(self.pairs(), name@);
        }
        if i < self.entries.len() {
            let here = chars_of(self.entries[i].0.as_str());
            if !precedes(&wanted, &here) {
                proof {
                    lemma_before_total(here@, wanted@);
                    lemma_map_value(self.pairs(), i as int);
                }
                return Some(self.entries[i].1.clone());
            }
            proof {
                assert forall|j: int| 0 <= j < self.pairs().len() implies self.pairs()[j].0
                    != name@ by {
                    if j >= i {
                        if j > i {
                            assert(before(names_of(self.pairs())[i as int], names_of(self.pairs())[j]));
                            lemma_before_transitive(name@, self.pairs()[i as int].0, self.pairs()[j].0);
                        }
                        lemma_before_irreflexive(name@);
                    } else {
                        lemma_before_irreflexive(name@);
                    }
                }
            }
            return None;
        }
        proof {
            assert forall|j: int| 0 <= j < self.pairs().len() implies self.pairs()[j].0 != name@ by {
                lemma_before_irreflexive(name@);
            }
        }
        None
    }

    /// Bind `chord` to `name`, replacing whatever was bound to it.
    pub fn insert(&mut self, name: &str, chord: &str)
        requires
            old(self).wf(),
        ensures
            final(self).wf(),
            final(self).spec_map() == old(self).spec_map().insert(name@, chord@),
    {
        let wanted = chars_of(name);
        let i = self.position(&wanted);
        let ghost before_pairs = self.pairs();
        if i < self.entries.len() {
            let here = chars_of(self.entries[i].0.as_str());
            if !precedes(&wanted, &here) {
                proof {
                    lemma_before_total(here@, wanted@);
                    lemma_map_update(before_pairs, i as int, chord@);
                }
                let old_name = self.entries[i].0.clone();
                self.entries.set(i, (old_name, string_of(&chars_of(chord))));
                proof {
                    assert(self.pairs() =~= before_pairs.update(i as int, (name@, chord@)));
                    assert(names_of(self.pairs()) =~= names_of(before_pairs));
                }
                return;
            }
        }
        proof {
            assert forall|j: int| 0 <= j < before_pairs.len() implies before_pairs[j].0 != name@ by {
                lemma_before_irreflexive(name@);
                if j > i {
                    assert(before(names_of(before_pairs)[i as int], names_of(before_pairs)[j]));
                    lemma_before_transitive(name@, before_pairs[i as int].0, before_pairs[j].0);
                }
            }
            lemma_map_insert(before_pairs, i as int, name@, chord@);
        }
        self.entries.insert(i, (string_of(&wanted), string_of(&chars_of(chord))));
        proof {
            let now = self.pairs();
            assert(now =~= before_pairs.insert(i as int, (name@, chord@)));
            assert forall|a: int, b: int| 0 <= a < b < names_of(now).len() implies before(
                #[trigger] names_of(now)[a],
                #[trigger] names_of(now)[b],
            ) by {
                let na = names_of(now)[a];
                let nb = names_of(now)[b];
                if b < i {
                    assert(na == names_of(before_pairs)[a] && nb == names_of(before_pairs)[b]);
                } else if b == i {
                    assert(na == before_pairs[a].0);
                } else if a == i {
                    assert(nb == before_pairs[b - 1].0);
                    if b - 1 > i {
                        assert(before(names_of(before_pairs)[i as int], names_of(before_pairs)[b - 1]));
                        lemma_before_transitive(name@, before_pairs[i as int].0, nb);
                    }
                } else if a < i {
                    assert(na == before_pairs[a].0 && nb == before_pairs[b - 1].0);
                    assert(before(names_of(before_pairs)[a], names_of(before_pairs)[b - 1]));
                } else {
                    assert(na == before_pairs[a - 1].0 && nb == before_pairs[b - 1].0);
                    assert(before(names_of(before_pairs)[a - 1], names_of(before_pairs)[b - 1]));
                }
            }
        }
    }

    /// Empty the chord of the entry at `i`, keeping its name: the file's way of saying an
    /// action is unbound.
    pub fn clear_at(&mut self, i: usize)
        requires
            old(self).wf(),
            i < old(self).pairs().len(),
        ensures
            final(self).wf(),
            final(self).pairs() == old(self).pairs().update(
                i as int,
                (old(self).pairs()[i as int].0, Seq::<char>::empty()),
            ),
            final(self).spec_map() == old(self).spec_map().insert(
                old(self).pairs()[i as int].0,
                Seq::<char>::empty(),
            ),
    {
        let ghost before_pairs = self.pairs();
        proof {
            lemma_map_update(before_pairs, i as int, Seq::<char>::empty());
        }
        let name = self.entries[i].0.clone();
        self.entries.set(i, (name, String::new()));
        proof {
            assert(self.pairs() =~= before_pairs.update(
                i as int,
                (before_pairs[i as int].0, Seq::<char>::empty()),
            ));
            assert(names_of(self.pairs()) =~= names_of(before_pairs));
        }
    }
}

} // verus!
