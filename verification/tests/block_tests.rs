use udisk_inspector::block::{generate_test_block, verify_test_block, BlockVerifyResult};
use udisk_inspector::prng::PseudoRandom;

fn reference_xorshift(s: u64) -> u64 {
    let a = s ^ (s << 13);
    let b = a ^ (a >> 7);
    b ^ (b << 17)
}

#[test]
fn zero_seed_behaves_like_seed_one() {
    let mut a = PseudoRandom::new(0);
    let mut b = PseudoRandom::new(1);
    for _ in 0..5 {
        assert_eq!(a.next(), b.next());
    }
}

#[test]
fn first_output_of_seed_one() {
    let mut r = PseudoRandom::new(1);
    assert_eq!(r.next(), 1082269761);
    assert_eq!(reference_xorshift(1), 1082269761);
}

#[test]
fn next_follows_xorshift() {
    let mut r = PseudoRandom::new(0xDEADBEEF);
    let mut s = 0xDEADBEEFu64;
    for _ in 0..100 {
        s = reference_xorshift(s);
        assert_eq!(r.next(), s);
        assert_ne!(s, 0);
    }
}

#[test]
fn fill_buffer_writes_little_endian_words() {
    let mut r = PseudoRandom::new(42);
    let mut buf = [0u8; 13];
    r.fill_buffer(&mut buf);
    let w1 = reference_xorshift(42);
    let w2 = reference_xorshift(w1);
    assert_eq!(&buf[..8], &w1.to_le_bytes());
    assert_eq!(&buf[8..], &w2.to_le_bytes()[..5]);
    // two words were consumed
    assert_eq!(r.next(), reference_xorshift(w2));
}

#[test]
fn fill_buffer_empty_consumes_nothing() {
    let mut r = PseudoRandom::new(7);
    let mut buf: [u8; 0] = [];
    r.fill_buffer(&mut buf);
    assert_eq!(r.next(), reference_xorshift(7));
}

#[test]
fn test_block_layout() {
    let block = generate_test_block(5, 64);
    assert_eq!(block.len(), 64);
    assert_eq!(&block[..8], &5u64.to_le_bytes());
    let mut rng = PseudoRandom::new(5u64.wrapping_add(0x1234567890ABCDEF));
    let mut rest = vec![0u8; 56];
    rng.fill_buffer(&mut rest);
    assert_eq!(&block[8..], rest.as_slice());
}

#[test]
fn test_block_seed_wraps() {
    let block = generate_test_block(u64::MAX, 16);
    assert_eq!(&block[..8], &u64::MAX.to_le_bytes());
    let seed = u64::MAX.wrapping_add(0x1234567890ABCDEF);
    let w = reference_xorshift(seed);
    assert_eq!(&block[8..], &w.to_le_bytes());
}

#[test]
fn header_only_block() {
    assert_eq!(generate_test_block(9, 8), 9u64.to_le_bytes().to_vec());
}

#[test]
fn generated_block_verifies() {
    for n in [0u64, 1, 2, 1000, u64::MAX] {
        let block = generate_test_block(n, 1_048_576);
        assert_eq!(verify_test_block(&block, n), BlockVerifyResult::Passed);
    }
}

#[test]
fn remapped_block_is_reported() {
    let block = generate_test_block(3, 256);
    assert_eq!(
        verify_test_block(&block, 7),
        BlockVerifyResult::WrongMapping { expected: 7, got: 3 }
    );
}

#[test]
fn corrupted_block_is_reported() {
    let mut block = generate_test_block(11, 256);
    block[100] ^= 0x01;
    assert_eq!(verify_test_block(&block, 11), BlockVerifyResult::DataCorruption);
}

#[test]
fn short_block_is_an_error() {
    assert_eq!(verify_test_block(&[1, 0, 0, 0, 0, 0, 0], 1), BlockVerifyResult::Error);
    assert_eq!(verify_test_block(&[], 0), BlockVerifyResult::Error);
}

#[test]
fn zeroed_block_reads_as_block_zero_corrupted() {
    let zeros = vec![0u8; 64];
    assert_eq!(verify_test_block(&zeros, 0), BlockVerifyResult::DataCorruption);
    assert_eq!(
        verify_test_block(&zeros, 4),
        BlockVerifyResult::WrongMapping { expected: 4, got: 0 }
    );
}
