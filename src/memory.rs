//! The memory load generator: how much to allocate, in how many blocks,
//! and the allocation itself, with every page written.

use vstd::prelude::*;

verus! {

/// Bytes in one allocated block.
pub const BLOCK_BYTES: usize = 1048576;
/// KiB in one allocated block.
pub const BLOCK_KB: u128 = 1024;
/// Bytes in a page: one byte of each is written.
pub const PAGE_BYTES: usize = 4096;

/// The amount to allocate, in KiB: `percent` percent of `total_kb`.
pub open spec fn target_kb_of(total_kb: u64, percent: u64) -> nat {
    (total_kb * percent / 100) as nat
}

/// The fewest blocks that hold `target_kb` KiB.
pub open spec fn blocks_for(target_kb: nat) -> nat {
    ((target_kb + 1023) / 1024) as nat
}

/// The amount to allocate, in KiB: `total_kb * percent / 100`, rounded down.
pub fn memory_target_kb(total_kb: u64, percent: u64) -> (r: u128)
    ensures
        r == target_kb_of(total_kb, percent),
{
    let t = total_kb as u128;
    let p = percent as u128;
    assert(t * p <= u64::MAX as int * u64::MAX as int) by (nonlinear_arith)
        requires
            t <= u64::MAX,
            p <= u64::MAX,
    ;
    t * p / 100
}

/// The number of 1 MiB blocks to allocate for `target_kb` KiB: allocation
/// goes on while the blocks hold less than the target.
pub fn blocks_needed(target_kb: u128) -> (r: u128)
    ensures
        r == blocks_for(target_kb as nat),
{
    target_kb / BLOCK_KB + if target_kb % BLOCK_KB == 0 {
        0
    } else {
        1
    }
}

/// What is allocated for `total_kb` and `percent` covers the target, and
/// exceeds it by less than one block.
pub proof fn lemma_allocation_within_one_block(total_kb: u64, percent: u64)
    ensures
        blocks_for(target_kb_of(total_kb, percent)) * BLOCK_BYTES >= target_kb_of(
            total_kb,
            percent,
        ) * 1024,
        blocks_for(target_kb_of(total_kb, percent)) * BLOCK_BYTES < target_kb_of(
            total_kb,
            percent,
        ) * 1024 + BLOCK_BYTES,
{
    let t = target_kb_of(total_kb, percent);
    let n = blocks_for(t);
    assert(n * 1024 >= t && n * 1024 < t + 1024);
    assert(n * 1048576 == (n * 1024) * 1024);
}

/// A block as it stands after allocation: one byte set at the start of each
/// page, every other byte zero.
pub open spec fn touched_block(b: Seq<u8>) -> bool {
    &&& b.len() == BLOCK_BYTES
    &&& forall|k: int| 0 <= k < b.len() ==> #[trigger] b[k] == (if k % PAGE_BYTES as int == 0 {
        1u8
    } else {
        0u8
    })
}

/// Allocates one zeroed block and writes a byte into each of its pages, so
/// that the system has to back every page with memory.
pub fn allocate_block() -> (r: Vec<u8>)
    ensures
        touched_block(r@),
{
    let mut b: Vec<u8> = vec![0u8; BLOCK_BYTES];
    let mut j: usize = 0;
    while j < BLOCK_BYTES
        invariant
            b@.len() == BLOCK_BYTES,
            j % PAGE_BYTES == 0,
            j <= BLOCK_BYTES,
            forall|k: int| 0 <= k < b@.len() ==> #[trigger] b@[k] == (if k % PAGE_BYTES as int == 0
                && k < j {
                1u8
            } else {
                0u8
            }),
        decreases BLOCK_BYTES - j,
    {
        b.set(j, 1);
        j = j + PAGE_BYTES;
    }
    b
}

/// Allocates `count` blocks, every page of each written.
pub fn allocate_blocks(count: usize) -> (r: Vec<Vec<u8>>)
    ensures
        r@.len() == count,
        forall|i: int| 0 <= i < count ==> touched_block(#[trigger] r@[i]@),
{
    let mut blocks: Vec<Vec<u8>> = Vec::new();
    let mut i: usize = 0;
    while i < count
        invariant
            i <= count,
            blocks@.len() == i,
            forall|k: int| 0 <= k < i ==> touched_block(#[trigger] blocks@[k]@),
        decreases count - i,
    {
        blocks.push(allocate_block());
        i = i + 1;
    }
    blocks
}

} // verus!
