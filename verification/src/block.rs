use vstd::prelude::*;
use crate::prng::{byte_of, seed_state, stream, PseudoRandom};

verus! {

/// Offset mixed into a block number to seed the pattern of that block.
pub open spec fn block_seed(block_number: u64) -> u64 {
    seed_state(block_number.wrapping_add(0x1234567890ABCDEFu64))
}

/// The eight little-endian bytes of `v`.
pub open spec fn le_bytes(v: u64) -> Seq<u8> {
    Seq::new(8, |j: int| byte_of(v, j))
}

/// The word whose little-endian bytes are `s[0..8]`.
pub open spec fn le_value(s: Seq<u8>) -> u64 {
    (s[0] as u64) | ((s[1] as u64) << 8u64) | ((s[2] as u64) << 16u64) | ((s[3] as u64)
        << 24u64) | ((s[4] as u64) << 32u64) | ((s[5] as u64) << 40u64) | ((s[6] as u64)
        << 48u64) | ((s[7] as u64) << 56u64)
}

/// The test block written for block `block_number`: its number in the first
/// eight bytes, then the pseudo-random pattern seeded by that number.
pub open spec fn test_block(block_number: u64, block_size: nat) -> Seq<u8> {
    le_bytes(block_number) + stream(block_seed(block_number), (block_size - 8) as nat)
}

/// Outcome of checking one block read back from the drive.
#[derive(Debug, Clone, Copy, PartialEq, Eq, Structural)]
pub enum BlockVerifyResult {
    Passed,
    WrongMapping { expected: u64, got: u64 },
    DataCorruption,
    Error,
}

/// What `verify_test_block` answers for the bytes `data` read back at the
/// place of block `expected`.
pub open spec fn block_verdict(data: Seq<u8>, expected: u64) -> BlockVerifyResult {
    if data.len() < 8 {
        BlockVerifyResult::Error
    } else if le_value(data) != expected {
        BlockVerifyResult::WrongMapping { expected, got: le_value(data) }
    } else if data != test_block(expected, data.len()) {
        BlockVerifyResult::DataCorruption
    } else {
        BlockVerifyResult::Passed
    }
}

/// Reading the little-endian bytes of a word gives the word back.
pub proof fn lemma_le_roundtrip(v: u64)
    ensures
        le_value(le_bytes(v)) == v,
{
    let b = le_bytes(v);
    assert(b[0] == byte_of(v, 0));
    assert(b[1] == byte_of(v, 1));
    assert(b[2] == byte_of(v, 2));
    assert(b[3] == byte_of(v, 3));
    assert(b[4] == byte_of(v, 4));
    assert(b[5] == byte_of(v, 5));
    assert(b[6] == byte_of(v, 6));
    assert(b[7] == byte_of(v, 7));
    assert(((((v >> 0u64) & 0xffu64) as u8) as u64) | (((((v >> 8u64) & 0xffu64) as u8) as u64)
        << 8u64) | (((((v >> 16u64) & 0xffu64) as u8) as u64) << 16u64) | (((((v >> 24u64)
        & 0xffu64) as u8) as u64) << 24u64) | (((((v >> 32u64) & 0xffu64) as u8) as u64)
        << 32u64) | (((((v >> 40u64) & 0xffu64) as u8) as u64) << 40u64) | (((((v >> 48u64)
        & 0xffu64) as u8) as u64) << 48u64) | (((((v >> 56u64) & 0xffu64) as u8) as u64)
        << 56u64) == v) by (bit_vector);
}

/// A freshly generated block is accepted when read back at its own place.
pub proof fn law_generated_block_verifies(block_number: u64, block_size: nat)
    requires
        block_size >= 8,
    ensures
        block_verdict(test_block(block_number, block_size), block_number)
            == BlockVerifyResult::Passed,
{
    let d = test_block(block_number, block_size);
    assert(d.len() == block_size);
    assert(d.subrange(0, 8) =~= le_bytes(block_number));
    lemma_le_roundtrip(block_number);
    assert(le_value(d) == le_value(le_bytes(block_number)));
}

/// A block read back at the place of another block is reported as a wrong
/// mapping naming both block numbers: this is how remapped (fake) capacity
/// shows up.
pub proof fn law_remapped_block_detected(written: u64, expected: u64, block_size: nat)
    requires
        block_size >= 8,
        written != expected,
    ensures
        block_verdict(test_block(written, block_size), expected)
            == (BlockVerifyResult::WrongMapping { expected, got: written }),
{
    let d = test_block(written, block_size);
    lemma_le_roundtrip(written);
    assert(le_value(d) == le_value(le_bytes(written)));
}

/// The verdict is `Passed` exactly when the data is the test block of that place.
pub proof fn law_verdict_ok_iff_pattern(data: Seq<u8>, expected: u64)
    requires
        data.len() >= 8,
    ensures
        (block_verdict(data, expected) == BlockVerifyResult::Passed) <==> data == test_block(
            expected,
            data.len(),
        ),
{
    if data == test_block(expected, data.len()) {
        law_generated_block_verifies(expected, data.len());
    }
}

/// Builds the test block for `block_number`: the number in the first eight
/// bytes (little-endian), then pseudo-random bytes seeded by the number.
pub fn generate_test_block(block_number: u64, block_size: usize) -> (data: Vec<u8>)
    requires
        block_size >= 8,
    ensures
        data@ == test_block(block_number, block_size as nat),
{
    let mut data: Vec<u8> = Vec::with_capacity(block_size);
    let mut j: usize = 0;
    while j < 8
        invariant
            j <= 8,
            data@ =~= le_bytes(block_number).subrange(0, j as int),
        decreases 8 - j,
    {
        let byte = ((block_number >> ((8 * j) as u64)) & 0xffu64) as u8;
        data.push(byte);
        j = j + 1;
    }
    let mut rng = PseudoRandom::new(block_number.wrapping_add(0x1234567890ABCDEFu64));
    let mut rest = vec![0u8; block_size - 8];
    rng.fill_buffer(rest.as_mut_slice());
    data.append(&mut rest);
    assert(data@ =~= test_block(block_number, block_size as nat));
    data
}

/// Checks a block read back at the place of block `expected_block`.
pub fn verify_test_block(data: &[u8], expected_block: u64) -> (r: BlockVerifyResult)
    ensures
        r == block_verdict(data@, expected_block),
{
    if data.len() < 8 {
        return BlockVerifyResult::Error;
    }
    let stored_block = (data[0] as u64) | ((data[1] as u64) << 8u64) | ((data[2] as u64)
        << 16u64) | ((data[3] as u64) << 24u64) | ((data[4] as u64) << 32u64) | ((data[5] as u64)
        << 40u64) | ((data[6] as u64) << 48u64) | ((data[7] as u64) << 56u64);
    if stored_block != expected_block {
        return BlockVerifyResult::WrongMapping { expected: expected_block, got: stored_block };
    }
    let expected_data = generate_test_block(expected_block, data.len());
    let mut i: usize = 0;
    while i < data.len()
        invariant
            i <= data@.len(),
            expected_data@.len() == data@.len(),
            expected_data@ == test_block(expected_block, data@.len()),
            data@.len() >= 8,
            le_value(data@) == expected_block,
            forall|k: int| 0 <= k < i ==> data@[k] == expected_data@[k],
        decreases data@.len() - i,
    {
        if data[i] != expected_data[i] {
            assert(data@[i as int] != expected_data@[i as int]);
            return BlockVerifyResult::DataCorruption;
        }
        i = i + 1;
    }
    assert(data@ =~= expected_data@);
    BlockVerifyResult::Passed
}

} // verus!
