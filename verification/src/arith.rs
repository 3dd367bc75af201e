use vstd::prelude::*;

verus! {

/// Euclidean division facts for a non-negative dividend and a positive divisor.
pub proof fn lemma_div_mod_parts(x: int, d: int)
    requires
        x >= 0,
        d > 0,
    ensures
        x == (x / d) * d + x % d,
        0 <= x % d < d,
        x / d >= 0,
{
    vstd::arithmetic::div_mod::lemma_fundamental_div_mod(x, d);
    vstd::arithmetic::div_mod::lemma_mod_bound(x, d);
    vstd::arithmetic::div_mod::lemma_div_pos_is_pos(x, d);
    assert((x / d) * d == d * (x / d)) by (nonlinear_arith);
}

/// With `lanes = dim / size`, the chunk of `size` elements that starts at
/// `(lane % lanes) * size` lies within `[0, dim)`.
pub proof fn lemma_chunk_within(lane: int, size: int, dim: int)
    requires
        lane >= 0,
        size > 0,
        dim >= size,
    ensures
        dim / size >= 1,
        0 <= (lane % (dim / size)) * size,
        (lane % (dim / size)) * size + size <= (dim / size) * size,
        (dim / size) * size <= dim,
{
    let lanes = dim / size;
    lemma_div_mod_parts(dim, size);
    assert(lanes >= 1) by (nonlinear_arith)
        requires
            dim == lanes * size + dim % size,
            0 <= dim % size < size,
            dim >= size,
            size > 0,
    ;
    lemma_div_mod_parts(lane, lanes);
    let r = lane % lanes;
    assert(0 <= r * size && r * size + size <= lanes * size) by (nonlinear_arith)
        requires
            0 <= r < lanes,
            size > 0,
    ;
}

} // verus!

verus! {

/// A quotient and a remainder are determined by the number they compose.
pub proof fn lemma_compose_unique(q1: int, r1: int, q2: int, r2: int, d: int)
    requires
        d > 0,
        0 <= r1 < d,
        0 <= r2 < d,
        q1 * d + r1 == q2 * d + r2,
    ensures
        q1 == q2,
        r1 == r2,
{
    let x = q1 * d + r1;
    vstd::arithmetic::div_mod::lemma_fundamental_div_mod_converse(x, d, q1, r1);
    vstd::arithmetic::div_mod::lemma_fundamental_div_mod_converse(x, d, q2, r2);
}

/// Composing a quotient and a remainder, then dividing, gives them back.
pub proof fn lemma_compose_div_mod(q: int, r: int, d: int)
    requires
        d > 0,
        0 <= r < d,
    ensures
        (q * d + r) / d == q,
        (q * d + r) % d == r,
{
    vstd::arithmetic::div_mod::lemma_fundamental_div_mod_converse(q * d + r, d, q, r);
}

} // verus!
