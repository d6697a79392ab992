//! The installed font families as the settings panel lists them: sorted without regard to
//! case, so that `cascadia mono` does not end up below every capitalised name, with the
//! names themselves breaking ties, and each name once.
use vstd::prelude::*;

use crate::discovery::{lowercase, to_lower};
use crate::keymap::{
    before, lemma_before_asymmetric, lemma_before_irreflexive, lemma_before_total,
    lemma_before_transitive, precedes,
};
use crate::spell::chars_of;

verus! {

/// Whether family `a` is listed before family `b`: by their lowercase forms, and by the
/// names themselves between two whose lowercase forms are the same.
pub open spec fn listed_before(a: Seq<char>, b: Seq<char>) -> bool {
    before(lowercase(a), lowercase(b)) || (lowercase(a) == lowercase(b) && before(a, b))
}

/// The texts of a list of strings.
pub open spec fn texts(v: Seq<String>) -> Seq<Seq<char>> {
    v.map_values(|s: String| s@)
}

/// Whether a list is in listing order with no name twice.
pub open spec fn listed(names: Seq<Seq<char>>) -> bool {
    forall|i: int, j: int| 0 <= i < j < names.len() ==> listed_before(#[trigger] names[i], #[trigger] names[j])
}

/// No name is listed before itself, and of two names no more than one is listed before
/// the other.
pub proof fn lemma_listed_before_strict(a: Seq<char>, b: Seq<char>)
    ensures
        !listed_before(a, a),
        !(listed_before(a, b) && listed_before(b, a)),
{
    lemma_before_irreflexive(lowercase(a));
    lemma_before_irreflexive(a);
    lemma_before_asymmetric(lowercase(a), lowercase(b));
    lemma_before_asymmetric(a, b);
}

/// Of two different names, one is listed before the other.
pub proof fn lemma_listed_before_total(a: Seq<char>, b: Seq<char>)
    ensures
        a == b || listed_before(a, b) || listed_before(b, a),
{
    lemma_before_total(lowercase(a), lowercase(b));
    lemma_before_total(a, b);
}

/// Listing order is transitive.
pub proof fn lemma_listed_before_transitive(a: Seq<char>, b: Seq<char>, c: Seq<char>)
    requires
        listed_before(a, b),
        listed_before(b, c),
    ensures
        listed_before(a, c),
{
    let (la, lb, lc) = (lowercase(a), lowercase(b), lowercase(c));
    if before(la, lb) && before(lb, lc) {
        lemma_before_transitive(la, lb, lc);
    } else if la == lb && lb == lc {
        lemma_before_transitive(a, b, c);
    }
}

/// A list in listing order holds its first name nowhere else.
proof fn lemma_first_is_alone(a: Seq<Seq<char>>, x: Seq<char>)
    requires
        listed(a),
        a.len() > 0,
    ensures
        a.drop_first().contains(x) <==> (a.contains(x) && x != a[0]),
{
    let rest = a.drop_first();
    if rest.contains(x) {
        let k = choose|k: int| 0 <= k < rest.len() && #[trigger] rest[k] == x;
        assert(a[k + 1] == x);
        assert(listed_before(a[0], a[k + 1]));
        lemma_listed_before_strict(a[0], a[0]);
    }
    if a.contains(x) && x != a[0] {
        let k = choose|k: int| 0 <= k < a.len() && #[trigger] a[k] == x;
        assert(k != 0);
        assert(rest[k - 1] == x);
    }
}

/// The listing is fixed by the names in it: two lists in listing order that hold the same
/// names are the same list.
pub proof fn lemma_listing_is_unique(a: Seq<Seq<char>>, b: Seq<Seq<char>>)
    requires
        listed(a),
        listed(b),
        forall|x: Seq<char>| #![trigger a.contains(x)] #![trigger b.contains(x)] a.contains(x) <==> b.contains(x),
    ensures
        a == b,
    decreases a.len(),
{
    if a.len() == 0 {
        if b.len() > 0 {
            assert(b.contains(b[0]));
            assert(a.contains(b[0]));
        }
        assert(a =~= b);
    } else if b.len() == 0 {
        assert(a.contains(a[0]));
        assert(b.contains(a[0]));
    } else {
        assert(a.contains(a[0]) && b.contains(b[0]));
        assert(a.contains(b[0]) && b.contains(a[0]));
        let i = choose|i: int| 0 <= i < a.len() && #[trigger] a[i] == b[0];
        let j = choose|j: int| 0 <= j < b.len() && #[trigger] b[j] == a[0];
        if i > 0 && j > 0 {
            assert(listed_before(a[0], a[i]));
            assert(listed_before(b[0], b[j]));
            lemma_listed_before_strict(a[0], b[0]);
        }
        assert(a[0] == b[0]) by {
            if i > 0 && j == 0 {
                assert(b[0] == a[0]);
            }
        }
        let (ra, rb) = (a.drop_first(), b.drop_first());
        assert forall|x: Seq<char>| #![trigger ra.contains(x)] #![trigger rb.contains(x)] ra.contains(x) <==> rb.contains(x) by {
            lemma_first_is_alone(a, x);
            lemma_first_is_alone(b, x);
        }
        assert(listed(ra)) by {
            assert forall|p: int, q: int| 0 <= p < q < ra.len() implies listed_before(#[trigger] ra[p], #[trigger] ra[q]) by {
                assert(ra[p] == a[p + 1] && ra[q] == a[q + 1]);
            }
        }
        assert(listed(rb)) by {
            assert forall|p: int, q: int| 0 <= p < q < rb.len() implies listed_before(#[trigger] rb[p], #[trigger] rb[q]) by {
                assert(rb[p] == b[p + 1] && rb[q] == b[q + 1]);
            }
        }
        lemma_listing_is_unique(ra, rb);
        assert(a =~= seq![a[0]] + ra);
        assert(b =~= seq![b[0]] + rb);
    }
}

/// Whether family `a` is listed before family `b`, given their lowercase forms.
fn listed_first(lower_a: &Vec<char>, a: &Vec<char>, lower_b: &Vec<char>, b: &Vec<char>) -> (r: bool)
    requires
        lower_a@ == lowercase(a@),
        lower_b@ == lowercase(b@),
    ensures
        r == listed_before(a@, b@),
{
    if precedes(lower_a, lower_b) {
        true
    } else if precedes(lower_b, lower_a) {
        false
    } else {
        proof {
            lemma_before_total(lower_a@, lower_b@);
        }
        precedes(a, b)
    }
}

/// The families in listing order, each once: every name given is in the list, and the list
/// holds nothing else.
pub fn sorted_families(names: &Vec<String>) -> (r: Vec<String>)
    ensures
        listed(texts(r@)),
        forall|x: Seq<char>|
            #[trigger] texts(r@).contains(x) <==> texts(names@).contains(x),
{
    let ghost given = texts(names@);
    let mut out: Vec<String> = Vec::new();
    let mut keys: Vec<(Vec<char>, Vec<char>)> = Vec::new();
    let mut i: usize = 0;
    while i < names.len()
        invariant
            i <= names.len(),
            given == texts(names@),
            keys@.len() == out@.len(),
            forall|k: int|
                0 <= k < keys@.len() ==> (#[trigger] keys@[k]).1@ == out@[k]@ && keys@[k].0@ == lowercase(out@[k]@),
            listed(texts(out@)),
            forall|x: Seq<char>|
                #[trigger] texts(out@).contains(x) <==> given.take(i as int).contains(x),
        decreases names.len() - i,
    {
        let ghost before_out = texts(out@);
        let name = chars_of(names[i].as_str());
        let lower = chars_of(to_lower(names[i].as_str()).as_str());
        let mut k: usize = 0;
        let mut present = false;
        while k < keys.len()
            invariant_except_break
                !present,
            invariant
                k <= keys@.len(),
                keys@.len() == out@.len(),
                before_out == texts(out@),
                forall|m: int|
                    0 <= m < keys@.len() ==> (#[trigger] keys@[m]).1@ == out@[m]@ && keys@[m].0@ == lowercase(out@[m]@),
                name@ == names@[i as int]@,
                lower@ == lowercase(name@),
                forall|m: int| 0 <= m < k ==> listed_before(#[trigger] before_out[m], name@),
            ensures
                k <= keys@.len(),
                forall|m: int| 0 <= m < k ==> listed_before(#[trigger] before_out[m], name@),
                present ==> k < keys@.len() && before_out[k as int] == name@,
                !present && k < keys@.len() ==> listed_before(name@, before_out[k as int]),
            decreases keys@.len() - k,
        {
            let earlier = listed_first(&keys[k].0, &keys[k].1, &lower, &name);
            if !earlier {
                proof {
                    lemma_listed_before_total(before_out[k as int], name@);
                }
                if !listed_first(&lower, &name, &keys[k].0, &keys[k].1) {
                    present = true;
                }
                break;
            }
            k += 1;
        }
        proof {
            assert(given.take(i as int + 1) =~= given.take(i as int).push(name@));
        }
        if present {
            proof {
                assert(before_out[k as int] == name@);
                assert forall|x: Seq<char>|
                    #[trigger] before_out.contains(x) <==> given.take(i as int + 1).contains(x) by {
                    if x == name@ {
                        assert(before_out[k as int] == x);
                    }
                    if given.take(i as int + 1).contains(x) && x != name@ {
                        let w = choose|w: int| 0 <= w < i + 1 && #[trigger] given.take(i as int + 1)[w] == x;
                        assert(given.take(i as int)[w] == x);
                    }
                }
            }
        } else {
            proof {
                if k < keys@.len() {
                    assert(listed_before(name@, before_out[k as int]));
                    assert forall|m: int| k <= m < before_out.len() implies listed_before(name@, #[trigger] before_out[m]) by {
                        if m > k {
                            lemma_listed_before_transitive(name@, before_out[k as int], before_out[m]);
                        }
                    }
                }
            }
            let owned = names[i].clone();
            let ghost old_keys = keys@;
            let ghost old_out = out@;
            out.insert(k, owned);
            keys.insert(k, (lower, name));
            proof {
                let view = texts(out@);
                assert(view =~= before_out.insert(k as int, name@));
                assert forall|m: int| 0 <= m < keys@.len() implies (#[trigger] keys@[m]).1@ == out@[m]@
                    && keys@[m].0@ == lowercase(out@[m]@) by {
                    if m < k {
                        assert(keys@[m] == old_keys[m] && out@[m] == old_out[m]);
                    } else if m > k {
                        assert(keys@[m] == old_keys[m - 1] && out@[m] == old_out[m - 1]);
                    }
                }
                assert forall|a: int, b: int| 0 <= a < b < view.len() implies listed_before(
                    #[trigger] view[a],
                    #[trigger] view[b],
                ) by {
                    if b < k {
                        assert(view[a] == before_out[a] && view[b] == before_out[b]);
                    } else if a < k && b == k {
                        assert(view[a] == before_out[a]);
                    } else if a < k {
                        assert(view[a] == before_out[a] && view[b] == before_out[b - 1]);
                    } else if a == k {
                        assert(view[b] == before_out[b - 1]);
                    } else {
                        assert(view[a] == before_out[a - 1] && view[b] == before_out[b - 1]);
                    }
                }
                assert forall|x: Seq<char>| #[trigger] view.contains(x) <==> (before_out.contains(x) || x == name@) by {
                    if view.contains(x) {
                        let w = choose|w: int| 0 <= w < view.len() && #[trigger] view[w] == x;
                        if w < k {
                            assert(before_out[w] == x);
                        } else if w > k {
                            assert(before_out[w - 1] == x);
                        }
                    }
                    if before_out.contains(x) {
                        let v = choose|v: int| 0 <= v < before_out.len() && #[trigger] before_out[v] == x;
                        if v < k {
                            assert(view[v] == x);
                        } else {
                            assert(view[v + 1] == x);
                        }
                    }
                    if x == name@ {
                        assert(view[k as int] == x);
                    }
                }
                assert forall|x: Seq<char>| #[trigger] given.take(i as int + 1).contains(x) <==> (
                    given.take(i as int).contains(x) || x == name@) by {
                    let t = given.take(i as int);
                    assert(given.take(i as int + 1) =~= t.push(name@));
                    if t.push(name@).contains(x) {
                        let w = choose|w: int| 0 <= w < t.len() + 1 && #[trigger] t.push(name@)[w] == x;
                        if w < t.len() {
                            assert(t[w] == x);
                        }
                    }
                    if t.contains(x) {
                        let w = choose|w: int| 0 <= w < t.len() && #[trigger] t[w] == x;
                        assert(t.push(name@)[w] == x);
                    }
                    if x == name@ {
                        assert(t.push(name@)[t.len() as int] == x);
                    }
                }
                assert forall|x: Seq<char>| #[trigger] view.contains(x) <==> given.take(i as int + 1).contains(x) by {
                    assert(before_out.contains(x) <==> given.take(i as int).contains(x));
                }
            }
        }
        i += 1;
    }
    proof {
        assert(given.take(names.len() as int) =~= given);
    }
    out
}

} // verus!
