//! The WZ checksum: the bytes added up, wrapping in an `i32`.
use vstd::prelude::*;

verus! {

/// Checksum of `data`, started from `seed`.
pub open spec fn checksum_of(seed: i32, data: Seq<u8>) -> i32
    decreases data.len(),
{
    if data.len() == 0 {
        seed
    } else {
        checksum_of(seed, data.drop_last()).wrapping_add(data.last() as i32)
    }
}

/// Sum of the bytes of `data`.
pub open spec fn byte_sum(data: Seq<u8>) -> int
    decreases data.len(),
{
    if data.len() == 0 {
        0
    } else {
        byte_sum(data.drop_last()) + data.last()
    }
}

/// Adds one byte to the checksum `seed`.
pub fn wz_checksum_step(seed: i32, b: u8) -> (r: i32)
    ensures
        r == seed.wrapping_add(b as i32),
{
    seed.wrapping_add(b as i32)
}

/// Checksum of `data`, started from `seed`.
pub fn wz_checksum_seed(seed: i32, data: &[u8]) -> (r: i32)
    ensures
        r == checksum_of(seed, data@),
{
    let mut acc = seed;
    let mut i: usize = 0;
    while i < data.len()
        invariant
            0 <= i <= data@.len(),
            acc == checksum_of(seed, data@.take(i as int)),
        decreases data@.len() - i,
    {
        proof {
            assert(data@.take(i + 1).drop_last() =~= data@.take(i as int));
        }
        acc = wz_checksum_step(acc, data[i]);
        i = i + 1;
    }
    proof {
        assert(data@.take(data@.len() as int) =~= data@);
    }
    acc
}

/// Checksum of `data`.
pub fn wz_checksum(data: &[u8]) -> (r: i32)
    ensures
        r == checksum_of(0, data@),
{
    wz_checksum_seed(0, data)
}

/// Checksum of the first `n` bytes of `data`, or of all of it when it is
/// shorter.
pub fn wz_checksum_n(data: &[u8], n: u64) -> (r: i32)
    ensures
        r == checksum_of(0, data@.take(if n < data@.len() { n as int } else { data@.len() as int })),
{
    let len = data.len();
    let k: usize = if (n as u128) < (len as u128) {
        n as usize
    } else {
        len
    };
    wz_checksum_seed(0, vstd::slice::slice_subrange(data, 0, k))
}

/// While the running sum stays within `i32`, the checksum is the seed plus
/// the sum of the bytes.
pub proof fn lemma_checksum_sum(seed: i32, data: Seq<u8>)
    requires
        0 <= seed,
        seed + byte_sum(data) <= i32::MAX,
    ensures
        checksum_of(seed, data) == seed + byte_sum(data),
    decreases data.len(),
{
    if data.len() > 0 {
        lemma_byte_sum_nonneg(data.drop_last());
        lemma_checksum_sum(seed, data.drop_last());
    }
}

proof fn lemma_byte_sum_nonneg(data: Seq<u8>)
    ensures
        byte_sum(data) >= 0,
    decreases data.len(),
{
    if data.len() > 0 {
        lemma_byte_sum_nonneg(data.drop_last());
    }
}

} // verus!
