//! The keymap as the app dispatches on it: each entry that names an action and holds a chord
//! that parses, and the action a keystroke runs.
use vstd::prelude::*;

use crate::action::{action_named, Action};
use crate::chord::{chord_parsed, Chord, Key, Modifiers};
use crate::keymap::Keymap;

verus! {

/// The bindings a list of entries makes: each entry whose name is an action and whose
/// chord parses, in order.
pub open spec fn bindings_of(pairs: Seq<(Seq<char>, Seq<char>)>) -> Seq<(Chord, Action)>
    decreases pairs.len(),
{
    if pairs.len() == 0 {
        Seq::empty()
    } else {
        bindings_of(pairs.drop_last()) + match (action_named(pairs.last().0), chord_parsed(
            pairs.last().1,
        )) {
            (Some(action), Some(chord)) => seq![(chord, action)],
            _ => Seq::empty(),
        }
    }
}

/// The bindings the keymap makes, in name order. An entry naming no action, or holding a
/// chord that does not parse, binds nothing; it is reported when the file is loaded.
pub fn parse_bindings(keys: &Keymap) -> (r: Vec<(Chord, Action)>)
    ensures
        r@ == bindings_of(keys.pairs()),
{
    let mut out: Vec<(Chord, Action)> = Vec::new();
    let mut i: usize = 0;
    while i < keys.len()
        invariant
            i <= keys.pairs().len(),
            out@ == bindings_of(keys.pairs().take(i as int)),
        decreases keys.pairs().len() - i,
    {
        let ghost prefix = keys.pairs().take(i as int + 1);
        assert(prefix.drop_last() =~= keys.pairs().take(i as int));
        let action = Action::from_name(keys.name_at(i).as_str());
        let chord = Chord::parse(keys.chord_at(i).as_str());
        match (action, chord) {
            (Some(a), Ok(c)) => {
                out.push((c, a));
            },
            _ => {},
        }
        assert(out@ =~= bindings_of(prefix));
        i += 1;
    }
    assert(keys.pairs().take(keys.pairs().len() as int) =~= keys.pairs());
    out
}

/// The first binding in the list whose chord is the keystroke, if any.
pub open spec fn first_bound(bindings: Seq<(Chord, Action)>, chord: Chord) -> Option<Action>
    decreases bindings.len(),
{
    if bindings.len() == 0 {
        None
    } else if bindings[0].0 == chord {
        Some(bindings[0].1)
    } else {
        first_bound(bindings.drop_first(), chord)
    }
}

/// The action a keystroke runs: the first binding whose chord is exactly it.
pub fn bound(bindings: &Vec<(Chord, Action)>, mods: Modifiers, key: Key) -> (r: Option<Action>)
    ensures
        r == first_bound(bindings@, Chord { mods, key }),
{
    let mut i: usize = 0;
    assert(bindings@.skip(0) =~= bindings@);
    while i < bindings.len()
        invariant
            i <= bindings.len(),
            first_bound(bindings@, Chord { mods, key }) == first_bound(
                bindings@.skip(i as int),
                Chord { mods, key },
            ),
        decreases bindings.len() - i,
    {
        assert(bindings@.skip(i as int).drop_first() =~= bindings@.skip(i as int + 1));
        if bindings[i].0.matches(mods, key) {
            return Some(bindings[i].1);
        }
        i += 1;
    }
    None
}

} // verus!
