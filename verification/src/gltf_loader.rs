//! The integer bookkeeping of the mesh-loading path: rebasing a primitive's
//! indices onto the shared vertex buffer, and the fallback decision when a
//! file yields no usable geometry. The file parsing itself, and the float
//! vertex data, live with the caller.

use vstd::prelude::*;

verus! {

use vstd::arithmetic::div_mod::{lemma_add_mod_noop, lemma_small_mod};

/// Loads the static mesh and its material color; only the index arithmetic
/// and the fallback decision are the library's own.
pub struct GltfLoader;

impl GltfLoader {
    /// Rebase one primitive's index list: each index is truncated to 16 bits
    /// and shifted by the number of vertices already in the buffer, wrapping
    /// as 16-bit addition does.
    pub fn offset_indices(offset: u16, raw: &Vec<u32>) -> (out: Vec<u16>)
        ensures
            out@.len() == raw@.len(),
            forall|i: int|
                0 <= i < raw@.len() ==> out@[i] == (raw@[i] + offset) % 0x10000,
    {
        let mut out: Vec<u16> = Vec::new();
        let mut i: usize = 0;
        while i < raw.len()
            invariant
                i <= raw@.len(),
                out@.len() == i,
                forall|k: int| 0 <= k < i ==> out@[k] == (raw@[k] + offset) % 0x10000,
            decreases raw@.len() - i,
        {
            let v = raw[i] % 0x10000;
            let w = (v + offset as u32) % 0x10000;
            proof {
                lemma_small_mod(offset as nat, 0x10000nat);
                lemma_add_mod_noop(raw@[i as int] as int, offset as int, 0x10000);
            }
            out.push(w as u16);
            i += 1;
        }
        out
    }

    /// Whether the loaded geometry is unusable, so the built-in cube should
    /// stand in for it.
    pub fn needs_fallback(vertex_count: usize) -> (b: bool)
        ensures
            b == (vertex_count == 0),
    {
        vertex_count == 0
    }
}

} // verus!
