//! Row-id prefixes: how a block of a table is named inside a row id.

use vstd::prelude::*;

verus! {

/// Bits of a prefix that name the block inside its segment.
pub const NUM_BLOCK_ID_BITS: u64 = 11;

/// Bits of a whole prefix.
pub const NUM_ROW_ID_PREFIX_BITS: u64 = 33;

/// The prefix that names block `block_id` of segment `seg_id`: the segment in
/// the upper 22 bits, the block in the lower 11.
pub open spec fn row_id_prefix(seg_id: u64, block_id: u64) -> u64 {
    (((seg_id & 0x3f_ffffu64) << 11u64) | (block_id & 0x7ffu64)) & 0x1_ffff_ffffu64
}

pub fn compute_row_id_prefix(seg_id: u64, block_id: u64) -> (prefix: u64)
    ensures
        prefix == row_id_prefix(seg_id, block_id),
{
    let seg: u64 = seg_id & 0x3f_ffffu64;
    let block: u64 = block_id & 0x7ffu64;
    ((seg << 11u64) | block) & 0x1_ffff_ffffu64
}

/// The segment and the block that a prefix names.
pub fn split_prefix(id: u64) -> (parts: (u64, u64))
    ensures
        parts.0 == id >> 11u64,
        parts.1 == id & 0x7ffu64,
{
    let block_id: u64 = id & 0x7ffu64;
    let seg_id: u64 = id >> 11u64;
    (seg_id, block_id)
}

/// Splitting the prefix of a block gives the block back, as long as the
/// segment fits in 22 bits and the block in 11.
pub proof fn lemma_split_prefix_inverts(seg_id: u64, block_id: u64)
    requires
        seg_id < 0x40_0000,
        block_id < 0x800,
    ensures
        row_id_prefix(seg_id, block_id) >> 11u64 == seg_id,
        row_id_prefix(seg_id, block_id) & 0x7ffu64 == block_id,
        row_id_prefix(seg_id, block_id) < 0x2_0000_0000,
{
    let p = (((seg_id & 0x3f_ffffu64) << 11u64) | (block_id & 0x7ffu64)) & 0x1_ffff_ffffu64;
    assert(p >> 11u64 == seg_id && p & 0x7ffu64 == block_id && p < 0x2_0000_0000u64) by (bit_vector)
        requires
            seg_id < 0x40_0000u64,
            block_id < 0x800u64,
            p == (((seg_id & 0x3f_ffffu64) << 11u64) | (block_id & 0x7ffu64)) & 0x1_ffff_ffffu64,
    ;
}

/// Every prefix splits into a segment below 2^53 and a block below 2^11.
pub proof fn lemma_split_prefix_bounds(id: u64)
    ensures
        id >> 11u64 < 0x20_0000_0000_0000,
        id & 0x7ffu64 < 0x800,
{
    assert(id >> 11u64 < 0x20_0000_0000_0000u64 && id & 0x7ffu64 < 0x800u64) by (bit_vector);
}

} // verus!
