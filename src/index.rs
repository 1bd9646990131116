//! Translation between the caller-facing key index (0 to 15, row-major over the
//! 4x4 grid) and the co-processor's own key numbering, which places each row
//! of four keys at the start of a block of eight.
use vstd::prelude::*;

verus! {

/// The co-processor's number for the key at row-major position `index`.
pub open spec fn device_index(index: nat) -> nat {
    (index / 4) * 8 + index % 4
}

/// The row-major position of the key that the co-processor numbers `index`.
pub open spec fn linear_index(index: nat) -> nat {
    (index / 8) * 4 + index % 8
}

/// Maps a key index in 0..16 to the co-processor's key number.
pub fn neo_trellis_index(index: usize) -> (r: u8)
    requires
        index < 16,
    ensures
        r as nat == device_index(index as nat),
{
    let i = index as u8;
    (i / 4) * 8 + (i % 4)
}

/// Maps a key number of the co-processor back to the row-major key index.
pub fn see_saw_index(index: u8) -> (r: u8)
    ensures
        r as nat == linear_index(index as nat),
{
    (index / 8) * 4 + (index % 8)
}

/// Translating a key index to the co-processor's numbering and back gives the
/// key index again.
pub proof fn lemma_index_round_trip(index: nat)
    requires
        index < 16,
    ensures
        device_index(index) < 32,
        linear_index(device_index(index)) == index,
{
    let i = index as u8;
    assert(((i / 4) * 8 + i % 4) / 8 == i / 4 && ((i / 4) * 8 + i % 4) % 8 == i % 4
        && (i / 4) * 4 + i % 4 == i && (i / 4) * 8 + i % 4 < 32) by (bit_vector)
        requires
            i < 16,
    ;
}

} // verus!
