use vstd::prelude::*;
use crate::prng::{prng_state, seed_state, PseudoRandom};

verus! {

/// Sequential transfers are timed in chunks of 32 MiB.
pub const CHUNK_SIZE: usize = 33554432;

/// Random transfers move 4 KiB each.
pub const RANDOM_BLOCK_SIZE: usize = 4096;

/// Number of random writes, and of random reads.
pub const RANDOM_ITERATIONS: u32 = 1000;

/// Seed of the generator that picks the random offsets.
pub const RANDOM_OFFSET_SEED: u64 = 42;

/// The sizes of a sequential speed test.
pub struct SpeedPlan {
    pub total_bytes: u64,
    pub num_chunks: u64,
}

/// Number of chunks needed to cover `total` bytes.
pub open spec fn chunk_count(total: u64) -> int {
    (total + CHUNK_SIZE - 1) / (CHUNK_SIZE as int)
}

/// Length of chunk `i` of a transfer of `total` bytes: whole chunks, the last
/// one holding what remains.
pub open spec fn chunk_len_of(total: u64, i: int) -> int {
    if i == chunk_count(total) - 1 {
        total - i * CHUNK_SIZE
    } else {
        CHUNK_SIZE as int
    }
}

/// Sum of the lengths of the first `k` chunks.
pub open spec fn chunks_sum(total: u64, k: nat) -> int
    decreases k,
{
    if k == 0 {
        0
    } else {
        chunks_sum(total, (k - 1) as nat) + chunk_len_of(total, k - 1)
    }
}

/// Largest start of a random 4 KiB transfer inside a file of `total` bytes.
pub open spec fn max_random_offset(total: u64) -> u64 {
    if total > RANDOM_BLOCK_SIZE as u64 {
        (total - RANDOM_BLOCK_SIZE) as u64
    } else {
        0
    }
}

/// The 4 KiB-aligned offset drawn from the generator output `v`.
pub open spec fn aligned_offset(v: u64, max_offset: u64) -> u64 {
    let m = if max_offset >= 1 { max_offset } else { 1u64 };
    ((v % m) / 4096 * 4096) as u64
}

/// Plans a sequential speed test of `test_size_mb` MiB.
pub fn plan_speed_test(test_size_mb: u64) -> (p: SpeedPlan)
    requires
        test_size_mb * 1048576 + CHUNK_SIZE <= u64::MAX,
        test_size_mb * 1048576 + CHUNK_SIZE <= usize::MAX,
    ensures
        p.wf(),
        p.total_bytes == test_size_mb * 1048576,
        p.num_chunks == chunk_count(p.total_bytes),
{
    let total_bytes = test_size_mb * 1024 * 1024;
    assert(total_bytes == test_size_mb * 1048576);
    assert(CHUNK_SIZE as u64 == 33554432);
    let num_chunks = (total_bytes + (CHUNK_SIZE as u64) - 1) / (CHUNK_SIZE as u64);
    SpeedPlan { total_bytes, num_chunks }
}

impl SpeedPlan {
    /// The plan is the one `plan_speed_test` makes.
    pub open spec fn wf(&self) -> bool {
        &&& self.total_bytes + CHUNK_SIZE - 1 <= u64::MAX
        &&& self.num_chunks == chunk_count(self.total_bytes)
    }

    /// Number of bytes moved by chunk `i`.
    pub fn chunk_len(&self, i: u64) -> (n: u64)
        requires
            self.wf(),
            i < self.num_chunks,
        ensures
            n == chunk_len_of(self.total_bytes, i as int),
            0 < n <= CHUNK_SIZE,
    {
        proof {
            lemma_chunk_bounds(self.total_bytes, i as int);
        }
        if i == self.num_chunks - 1 {
            self.total_bytes - i * (CHUNK_SIZE as u64)
        } else {
            CHUNK_SIZE as u64
        }
    }

    /// Offset, in MiB, at which chunk `i` starts.
    pub fn chunk_offset_mb(&self, i: u64) -> (mb: u64)
        requires
            self.wf(),
            i < self.num_chunks,
        ensures
            mb == i * 32,
    {
        proof {
            lemma_chunk_bounds(self.total_bytes, i as int);
            assert(i * 33554432 / 1048576 == i * 32) by (nonlinear_arith);
        }
        i * (CHUNK_SIZE as u64) / (1024 * 1024)
    }
}

/// Chunk `i` starts inside the transfer and is nonempty and at most a chunk.
pub proof fn lemma_chunk_bounds(total: u64, i: int)
    requires
        0 <= i < chunk_count(total),
        total + CHUNK_SIZE - 1 <= u64::MAX,
    ensures
        i * CHUNK_SIZE < total,
        0 < chunk_len_of(total, i) <= CHUNK_SIZE,
{
    let c = CHUNK_SIZE as int;
    let n = chunk_count(total);
    assert(n * c <= total + c - 1) by (nonlinear_arith)
        requires
            n == (total + c - 1) / c,
            c > 0,
    ;
    assert(n * c > total - 1) by (nonlinear_arith)
        requires
            n == (total + c - 1) / c,
            c > 0,
    ;
    assert(i * c <= (n - 1) * c) by (nonlinear_arith)
        requires
            i <= n - 1,
            c > 0,
    ;
    assert((n - 1) * c == n * c - c) by (nonlinear_arith);
}

/// The chunks of a sequential transfer cover exactly the bytes to transfer.
pub proof fn law_chunks_cover_total(total: u64)
    requires
        total + CHUNK_SIZE - 1 <= u64::MAX,
    ensures
        chunks_sum(total, chunk_count(total) as nat) == total,
{
    let n = chunk_count(total);
    let c = CHUNK_SIZE as int;
    assert forall|k: nat| k < n implies #[trigger] chunks_sum(total, k) == k * c by {
        lemma_chunks_prefix(total, k);
    }
    if n > 0 {
        lemma_chunks_prefix(total, (n - 1) as nat);
        assert(chunks_sum(total, n as nat) == (n - 1) * c + (total - (n - 1) * c));
    } else {
        assert(total == 0) by (nonlinear_arith)
            requires
                n == (total + c - 1) / c,
                n <= 0,
                c > 1,
                total >= 0,
        ;
    }
}

/// Before the last chunk every chunk is whole.
proof fn lemma_chunks_prefix(total: u64, k: nat)
    requires
        k < chunk_count(total),
    ensures
        chunks_sum(total, k) == k * CHUNK_SIZE,
    decreases k,
{
    if k > 0 {
        lemma_chunks_prefix(total, (k - 1) as nat);
        assert((k - 1) * CHUNK_SIZE + CHUNK_SIZE == k * CHUNK_SIZE) by (nonlinear_arith);
    }
}

/// The offsets of the random 4 KiB writes and reads inside a test file of
/// `total_bytes` bytes: each is drawn from a generator seeded with 42 and
/// aligned down to 4 KiB; reads revisit the offsets of the writes.
pub fn random_io_offsets(total_bytes: u64) -> (offsets: Vec<u64>)
    ensures
        offsets@.len() == RANDOM_ITERATIONS,
        forall|k: int|
            0 <= k < RANDOM_ITERATIONS ==> #[trigger] offsets@[k] == aligned_offset(
                prng_state(seed_state(RANDOM_OFFSET_SEED), (k + 1) as nat),
                max_random_offset(total_bytes),
            ),
{
    let max_offset = if total_bytes > RANDOM_BLOCK_SIZE as u64 {
        total_bytes - RANDOM_BLOCK_SIZE as u64
    } else {
        0
    };
    let m = if max_offset >= 1 { max_offset } else { 1 };
    let mut rng = PseudoRandom::new(RANDOM_OFFSET_SEED);
    let mut offsets: Vec<u64> = Vec::new();
    let mut k: u32 = 0;
    while k < RANDOM_ITERATIONS
        invariant
            k <= RANDOM_ITERATIONS,
            offsets@.len() == k,
            max_offset == max_random_offset(total_bytes),
            m == (if max_offset >= 1 { max_offset } else { 1u64 }),
            rng@ == prng_state(seed_state(RANDOM_OFFSET_SEED), k as nat),
            forall|j: int|
                0 <= j < k ==> #[trigger] offsets@[j] == aligned_offset(
                    prng_state(seed_state(RANDOM_OFFSET_SEED), (j + 1) as nat),
                    max_offset,
                ),
        decreases RANDOM_ITERATIONS - k,
    {
        let v = rng.next();
        let offset = v % m;
        offsets.push((offset / 4096) * 4096);
        k = k + 1;
    }
    offsets
}

/// Every random transfer starts on a 4 KiB boundary and, when the file is
/// larger than one transfer, ends inside the file.
pub proof fn law_random_offsets_in_file(v: u64, total: u64)
    ensures
        aligned_offset(v, max_random_offset(total)) % 4096 == 0,
        total > RANDOM_BLOCK_SIZE ==> aligned_offset(v, max_random_offset(total))
            + RANDOM_BLOCK_SIZE <= total,
        total <= RANDOM_BLOCK_SIZE ==> aligned_offset(v, max_random_offset(total)) == 0,
{
    let mo = max_random_offset(total);
    let m = if mo >= 1 { mo } else { 1u64 };
    let r = v % m;
    assert(r < m);
    assert((r / 4096 * 4096) % 4096 == 0) by (nonlinear_arith);
    assert(r / 4096 * 4096 <= r) by (nonlinear_arith);
}

/// Pairs up the write and read samples of a speed test, position by
/// position: missing speeds are `zero`, and the offset is the write sample's,
/// else the read sample's.
pub fn merge_samples<T: Copy>(write: &Vec<(u64, T)>, read: &Vec<(u64, T)>, zero: T) -> (r: Vec<
    (u64, T, T),
>)
    ensures
        r@.len() == if write@.len() >= read@.len() {
            write@.len()
        } else {
            read@.len()
        },
        forall|i: int|
            0 <= i < r@.len() ==> #[trigger] r@[i] == (
                if i < write@.len() {
                    write@[i].0
                } else {
                    read@[i].0
                },
                if i < write@.len() {
                    write@[i].1
                } else {
                    zero
                },
                if i < read@.len() {
                    read@[i].1
                } else {
                    zero
                },
            ),
{
    let max_len = if write.len() >= read.len() { write.len() } else { read.len() };
    let mut r: Vec<(u64, T, T)> = Vec::new();
    let mut i: usize = 0;
    while i < max_len
        invariant
            i <= max_len,
            max_len == (if write@.len() >= read@.len() { write@.len() } else { read@.len() }),
            r@.len() == i,
            forall|j: int|
                0 <= j < i ==> #[trigger] r@[j] == (
                    if j < write@.len() {
                        write@[j].0
                    } else {
                        read@[j].0
                    },
                    if j < write@.len() {
                        write@[j].1
                    } else {
                        zero
                    },
                    if j < read@.len() {
                        read@[j].1
                    } else {
                        zero
                    },
                ),
        decreases max_len - i,
    {
        let ws = if i < write.len() { write[i].1 } else { zero };
        let rs = if i < read.len() { read[i].1 } else { zero };
        let offset = if i < write.len() { write[i].0 } else { read[i].0 };
        r.push((offset, ws, rs));
        i = i + 1;
    }
    r
}

} // verus!
