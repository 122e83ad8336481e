//! Derivation of grayscale bytes from escape-time results.
//!
//! A pixel whose point was not proven to escape is drawn black. One that
//! escaped after `count` iterations is drawn `limit - count`, cast to a
//! byte with wraparound: the cast truncates rather than saturates, so with
//! the highest tier an escape count of 0 gives `1024`, which wraps to `0`.
//! The truncation is kept deliberately, for bit-exact compatibility with
//! renders made this way.

use vstd::prelude::*;

verus! {

/// The grayscale byte for one escape-time result: `0` when the point never
/// escaped within `limit` iterations, else `limit - count` reduced mod 256.
pub open spec fn spec_shade(limit: usize, escape: Option<usize>) -> u8 {
    match escape {
        None => 0,
        Some(count) => (((limit - count) as int) % 256) as u8,
    }
}

/// Computes the grayscale byte for one pixel.
///
/// `escape` is what the escape-time evaluator returned for the pixel's
/// point; an escape count is always below the iteration limit that
/// produced it.
pub fn pixel_shade(limit: usize, escape: Option<usize>) -> (shade: u8)
    requires
        escape is Some ==> escape->0 < limit,
    ensures
        shade == spec_shade(limit, escape),
{
    match escape {
        None => 0,
        Some(count) => ((limit - count) % 256) as u8,
    }
}

/// Shades a run of pixels at once: one byte per escape-time result, in the
/// same order.
pub fn shade_row(escapes: &Vec<Option<usize>>, limit: usize) -> (row: Vec<u8>)
    requires
        forall|i: int|
            0 <= i < escapes@.len() ==> (escapes@[i] is Some ==> escapes@[i]->0 < limit),
    ensures
        row@.len() == escapes@.len(),
        forall|i: int| 0 <= i < escapes@.len() ==> row@[i] == spec_shade(limit, escapes@[i]),
{
    let mut row: Vec<u8> = Vec::new();
    let n = escapes.len();
    let mut k: usize = 0;
    while k < n
        invariant
            n == escapes@.len(),
            k <= n,
            row@.len() == k,
            forall|i: int|
                0 <= i < n ==> (escapes@[i] is Some ==> escapes@[i]->0 < limit),
            forall|i: int| 0 <= i < k ==> row@[i] == spec_shade(limit, escapes@[i]),
        decreases n - k,
    {
        let shade = pixel_shade(limit, escapes[k]);
        row.push(shade);
        k = k + 1;
    }
    row
}

/// The shaded bytes are a function of the escape-time results and the limit
/// alone: two rows that both satisfy `shade_row`'s contract on the same
/// inputs are byte-identical. Rendering the same configuration twice, or in
/// another band order, therefore writes the same bytes.
pub proof fn lemma_shade_deterministic(escapes: Seq<Option<usize>>, limit: usize, a: Seq<u8>, b: Seq<u8>)
    requires
        a.len() == escapes.len(),
        b.len() == escapes.len(),
        forall|i: int| 0 <= i < escapes.len() ==> a[i] == spec_shade(limit, escapes[i]),
        forall|i: int| 0 <= i < escapes.len() ==> b[i] == spec_shade(limit, escapes[i]),
    ensures
        a == b,
{
    assert forall|i: int| 0 <= i < a.len() implies a[i] == b[i] by {}
    assert(a =~= b);
}

} // verus!
