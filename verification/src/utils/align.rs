use vstd::prelude::*;

verus! {

/// The least multiple of `alignment` that is not below `value`.
pub open spec fn aligned(value: int, alignment: int) -> int {
    (value + alignment - 1) / alignment * alignment
}

/// What `aligned` means.
pub proof fn lemma_aligned(value: int, alignment: int)
    requires
        alignment > 0,
    ensures
        aligned(value, alignment) % alignment == 0,
        value <= aligned(value, alignment) < value + alignment,
{
    let n = value + alignment - 1;
    vstd::arithmetic::div_mod::lemma_fundamental_div_mod(n, alignment);
    vstd::arithmetic::div_mod::lemma_mod_multiples_basic(n / alignment, alignment);
    assert(alignment * (n / alignment) == n / alignment * alignment) by (nonlinear_arith);
}

pub fn align_up(value: usize, alignment: usize) -> (r: usize)
    requires
        alignment > 0,
        value + alignment - 1 <= usize::MAX,
    ensures
        r == aligned(value as int, alignment as int),
        r % alignment == 0,
        value <= r < value + alignment,
{
    proof {
        lemma_aligned(value as int, alignment as int);
    }
    (value + (alignment - 1)) / alignment * alignment
}

} // verus!
