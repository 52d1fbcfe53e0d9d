//! Which marks of a ring of radial ticks are drawn.

use vstd::prelude::*;

verus! {

/// Tick `i` is left out: it is a multiple of one of the moduli.
pub open spec fn skipped(i: int, skips_mods: Seq<usize>) -> bool {
    exists|j: int| 0 <= j < skips_mods.len() && #[trigger] (i % (skips_mods[j] as int)) == 0
}

/// Whether tick `i` is left out.
pub fn tick_is_skipped(i: usize, skips_mods: &[usize]) -> (b: bool)
    requires
        forall|j: int| 0 <= j < skips_mods@.len() ==> #[trigger] skips_mods@[j] != 0,
    ensures
        b == skipped(i as int, skips_mods@),
{
    let mut k: usize = 0;
    while k < skips_mods.len()
        invariant
            0 <= k <= skips_mods.len(),
            forall|j: int| 0 <= j < skips_mods@.len() ==> #[trigger] skips_mods@[j] != 0,
            forall|j: int| 0 <= j < k ==> #[trigger] (i as int % (skips_mods@[j] as int)) != 0,
        decreases skips_mods.len() - k,
    {
        if i % skips_mods[k] == 0 {
            assert(i as int % (skips_mods@[k as int] as int) == 0);
            return true;
        }
        k += 1;
    }
    false
}

} // verus!
