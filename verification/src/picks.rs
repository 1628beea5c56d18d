//! Picks: numbers, drawn at random or given, each of which selects one of
//! several things. A pick counts cyclically, so every number selects
//! something, and a pick that a list does not hold counts as zero.

use vstd::prelude::*;

verus! {

/// The pick in place `i` of `picks`; zero if there is none.
pub open spec fn pick_at(picks: Seq<usize>, i: int) -> nat {
    if 0 <= i < picks.len() {
        picks[i] as nat
    } else {
        0
    }
}

/// What the pick in place `i` selects among `len` things, counted from
/// zero.
pub open spec fn cyclic_pick(picks: Seq<usize>, i: int, len: nat) -> int {
    (pick_at(picks, i) % len) as int
}

/// What the pick in place `i` selects among `len` things, counted from
/// zero.
pub fn pick_from(picks: &[usize], i: usize, len: usize) -> (r: usize)
    requires
        len > 0,
    ensures
        r == cyclic_pick(picks@, i as int, len as nat),
        r < len,
{
    if i < picks.len() {
        picks[i] % len
    } else {
        assert(0nat % (len as nat) == 0) by {
            vstd::arithmetic::div_mod::lemma_small_mod(0, len as nat);
        }
        0
    }
}

} // verus!
