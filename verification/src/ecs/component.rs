use vstd::prelude::*;

verus! {

/// A runtime tag that names one component type.
///
/// Two columns hold the same kind of data exactly when their tags are equal.
#[derive(Clone, Copy, Debug, PartialEq, Eq, Structural, Hash)]
pub struct ComponentType(pub u64);

/// The index of the first occurrence of `t` in `types`, or `types.len()` when
/// `t` does not occur.
pub open spec fn position(types: Seq<ComponentType>, t: ComponentType) -> int
    decreases types.len(),
{
    if types.len() == 0 {
        0
    } else if types[0] == t {
        0
    } else {
        1 + position(types.skip(1), t)
    }
}

/// `position` is in range, points at `t` when `t` occurs, and nothing before it
/// is `t`.
pub proof fn lemma_position(types: Seq<ComponentType>, t: ComponentType)
    ensures
        0 <= position(types, t) <= types.len(),
        position(types, t) < types.len() ==> types[position(types, t)] == t,
        forall|q: int| 0 <= q < position(types, t) ==> types[q] != t,
        types.contains(t) <==> position(types, t) < types.len(),
    decreases types.len(),
{
    if types.len() == 0 {
    } else if types[0] == t {
    } else {
        let rest = types.skip(1);
        lemma_position(rest, t);
        let p = position(rest, t);
        assert forall|q: int| 0 <= q < 1 + p implies types[q] != t by {
            if q > 0 {
                assert(rest[q - 1] == types[q]);
            }
        }
        if p < rest.len() {
            assert(rest[p] == types[p + 1]);
        }
        if types.contains(t) {
            let w = choose|w: int| 0 <= w < types.len() && types[w] == t;
            assert(rest[w - 1] == t);
            assert(rest.contains(t));
        }
    }
}

/// An index that holds `t` and has no `t` before it is the position of `t`.
pub proof fn lemma_position_is(types: Seq<ComponentType>, t: ComponentType, p: int)
    requires
        0 <= p < types.len(),
        types[p] == t,
        forall|q: int| 0 <= q < p ==> types[q] != t,
    ensures
        position(types, t) == p,
{
    lemma_position(types, t);
    let r = position(types, t);
    if r < p {
        assert(types[r] == t);
    } else if r > p {
        assert(types[p] == t);
    }
}

/// In a list without repeats every index is the position of its own entry.
pub proof fn lemma_position_of_entry(types: Seq<ComponentType>, p: int)
    requires
        types.no_duplicates(),
        0 <= p < types.len(),
    ensures
        position(types, types[p]) == p,
{
    lemma_position_is(types, types[p], p);
}

/// Finds the first column whose tag is `t`.
pub fn find_position(types: &Vec<ComponentType>, t: ComponentType) -> (found: Option<usize>)
    ensures
        found matches Some(p) ==> p as int == position(types@, t) && p < types@.len(),
        found is None ==> position(types@, t) == types@.len(),
        found is Some <==> types@.contains(t),
{
    proof {
        lemma_position(types@, t);
    }
    let mut i: usize = 0;
    while i < types.len()
        invariant
            i <= types@.len(),
            forall|q: int| 0 <= q < i ==> types@[q] != t,
        decreases types@.len() - i,
    {
        if types[i] == t {
            proof {
                lemma_position_is(types@, t, i as int);
            }
            return Some(i);
        }
        i += 1;
    }
    None
}

/// Tells whether no tag occurs twice in `types`.
pub fn all_distinct(types: &Vec<ComponentType>) -> (ok: bool)
    ensures
        ok <==> types@.no_duplicates(),
{
    let mut i: usize = 0;
    while i < types.len()
        invariant
            i <= types@.len(),
            forall|a: int, b: int| 0 <= a < i && 0 <= b < types@.len() && a != b ==>
                types@[a] != types@[b],
        decreases types@.len() - i,
    {
        let mut j: usize = i + 1;
        while j < types.len()
            invariant
                i < j <= types@.len(),
                i < types@.len(),
                forall|b: int| i < b < j ==> types@[i as int] != types@[b],
            decreases types@.len() - j,
        {
            if types[i] == types[j] {
                return false;
            }
            j += 1;
        }
        i += 1;
    }
    true
}

} // verus!
