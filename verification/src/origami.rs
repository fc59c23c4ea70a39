//! Random index lists for the origami mesh.
use vstd::prelude::*;

use crate::random::{gen_range_u32, thread_rng};

verus! {

/// `n_generate` indices drawn at random, each below `n_indices`.
pub fn new_random_indices(n_indices: u32, n_generate: u32) -> (indices: Vec<u32>)
    requires
        n_generate == 0 || n_indices > 0,
    ensures
        indices@.len() == n_generate,
        forall|i: int| 0 <= i < indices@.len() ==> #[trigger] indices@[i] < n_indices,
{
    let mut rng = thread_rng();
    let mut indices: Vec<u32> = Vec::new();
    let mut k: u32 = 0;
    while k < n_generate
        invariant
            k <= n_generate,
            n_generate == 0 || n_indices > 0,
            indices@.len() == k,
            forall|i: int| 0 <= i < indices@.len() ==> #[trigger] indices@[i] < n_indices,
        decreases n_generate - k,
    {
        let index = gen_range_u32(&mut rng, 0, n_indices);
        indices.push(index);
        k = k + 1;
    }
    indices
}

} // verus!
