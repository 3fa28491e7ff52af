use vstd::prelude::*;
use crate::block::{
    block_verdict, law_generated_block_verifies, law_remapped_block_detected, test_block,
    verify_test_block, BlockVerifyResult,
};

verus! {

/// Size of one test block: 1 MiB.
pub const BLOCK_SIZE: usize = 1048576;

/// Number of blocks whose verdict is `Passed`.
pub open spec fn passed_count(vs: Seq<BlockVerifyResult>) -> nat
    decreases vs.len(),
{
    if vs.len() == 0 {
        0
    } else {
        passed_count(vs.drop_last()) + if vs.last() == BlockVerifyResult::Passed {
            1nat
        } else {
            0nat
        }
    }
}

/// Indices, in order, of the blocks whose verdict is not `Passed`.
pub open spec fn failed_blocks(vs: Seq<BlockVerifyResult>) -> Seq<u64>
    decreases vs.len(),
{
    if vs.len() == 0 {
        Seq::empty()
    } else if vs.last() == BlockVerifyResult::Passed {
        failed_blocks(vs.drop_last())
    } else {
        failed_blocks(vs.drop_last()).push((vs.len() - 1) as u64)
    }
}

/// The (expected, found) block numbers of the wrong mappings, in order.
pub open spec fn remapped_pairs(vs: Seq<BlockVerifyResult>) -> Seq<(u64, u64)>
    decreases vs.len(),
{
    if vs.len() == 0 {
        Seq::empty()
    } else {
        match vs.last() {
            BlockVerifyResult::WrongMapping { expected, got } => remapped_pairs(vs.drop_last()).push(
                (expected, got),
            ),
            _ => remapped_pairs(vs.drop_last()),
        }
    }
}

/// Number of blocks the capacity test writes: as many whole blocks as fit
/// both in the free space and in the claimed capacity.
pub open spec fn capacity_blocks(free_space: u64, claimed: u64) -> u64 {
    let a = free_space / (BLOCK_SIZE as u64);
    let b = claimed / (BLOCK_SIZE as u64);
    if a <= b { a } else { b }
}

/// Every block checked is counted either as good or as bad.
pub proof fn law_every_block_accounted(vs: Seq<BlockVerifyResult>)
    ensures
        passed_count(vs) + failed_blocks(vs).len() == vs.len(),
    decreases vs.len(),
{
    if vs.len() > 0 {
        law_every_block_accounted(vs.drop_last());
    }
}

/// The bad blocks are listed in increasing order, each a checked block.
pub proof fn law_failed_blocks_sorted(vs: Seq<BlockVerifyResult>)
    requires
        vs.len() <= u64::MAX,
    ensures
        forall|i: int, j: int|
            0 <= i < j < failed_blocks(vs).len() ==> failed_blocks(vs)[i] < failed_blocks(vs)[j],
        forall|i: int| 0 <= i < failed_blocks(vs).len() ==> failed_blocks(vs)[i] < vs.len(),
    decreases vs.len(),
{
    if vs.len() > 0 {
        let p = vs.drop_last();
        law_failed_blocks_sorted(p);
        let f = failed_blocks(p);
        if vs.last() != BlockVerifyResult::Passed {
            let t = f.push((vs.len() - 1) as u64);
            assert(failed_blocks(vs) == t);
            assert(t[f.len() as int] == vs.len() - 1);
            assert forall|i: int, j: int| 0 <= i < j < t.len() implies t[i] < t[j] by {
                if j == f.len() as int {
                    assert(t[i] == f[i]);
                }
            }
        }
    }
}

/// Every wrong mapping is also a bad block.
pub proof fn law_remaps_are_failures(vs: Seq<BlockVerifyResult>)
    ensures
        remapped_pairs(vs).len() <= failed_blocks(vs).len(),
    decreases vs.len(),
{
    if vs.len() > 0 {
        law_remaps_are_failures(vs.drop_last());
    }
}

/// The verdicts of a capacity test that reads back `reads[i]` at the place of
/// block `i`.
pub open spec fn verdicts_of(reads: Seq<Seq<u8>>) -> Seq<BlockVerifyResult> {
    Seq::new(reads.len(), |i: int| block_verdict(reads[i], i as u64))
}

/// Each block whose verdict is not `Passed` is listed among the bad blocks.
pub proof fn lemma_failed_blocks_members(vs: Seq<BlockVerifyResult>)
    requires
        vs.len() <= u64::MAX,
    ensures
        forall|k: int|
            0 <= k < vs.len() && vs[k] != BlockVerifyResult::Passed ==> #[trigger] failed_blocks(
                vs,
            ).contains(k as u64),
    decreases vs.len(),
{
    if vs.len() > 0 {
        let p = vs.drop_last();
        lemma_failed_blocks_members(p);
        assert forall|k: int|
            0 <= k < vs.len() && vs[k] != BlockVerifyResult::Passed implies #[trigger] failed_blocks(
            vs,
        ).contains(k as u64) by {
            if k < p.len() {
                assert(p[k] == vs[k]);
                assert(failed_blocks(p).contains(k as u64));
                let j = choose|j: int|
                    0 <= j < failed_blocks(p).len() && failed_blocks(p)[j] == k as u64;
                if vs.last() != BlockVerifyResult::Passed {
                    assert(failed_blocks(vs) == failed_blocks(p).push((vs.len() - 1) as u64));
                    assert(failed_blocks(vs)[j] == k as u64);
                } else {
                    assert(failed_blocks(vs) == failed_blocks(p));
                }
            } else {
                assert(failed_blocks(vs) == failed_blocks(p).push(k as u64));
                assert(failed_blocks(vs)[failed_blocks(p).len() as int] == k as u64);
            }
        }
    }
}

/// A drive that gives back every block as it was written passes every
/// block: the test finds no bad block and counts every block as real.
pub proof fn law_honest_drive_passes(reads: Seq<Seq<u8>>, block_size: nat)
    requires
        block_size >= 8,
        forall|i: int| 0 <= i < reads.len() ==> reads[i] == test_block(i as u64, block_size),
    ensures
        passed_count(verdicts_of(reads)) == reads.len(),
        failed_blocks(verdicts_of(reads)) == Seq::<u64>::empty(),
    decreases reads.len(),
{
    if reads.len() > 0 {
        let p = reads.drop_last();
        law_honest_drive_passes(p, block_size);
        assert(verdicts_of(reads).drop_last() =~= verdicts_of(p));
        let last = (reads.len() - 1) as int;
        law_generated_block_verifies(last as u64, block_size);
        assert(verdicts_of(reads).last() == block_verdict(reads[last], last as u64));
    }
}

/// A drive that gives back, at the place of block `i`, the block written for
/// another place `j` (fake capacity wrapping around) has block `i` listed as
/// bad and fewer good blocks than blocks tested.
pub proof fn law_fake_drive_detected(reads: Seq<Seq<u8>>, block_size: nat, i: int, j: u64)
    requires
        block_size >= 8,
        reads.len() <= u64::MAX,
        0 <= i < reads.len(),
        reads[i] == test_block(j, block_size),
        j != i,
    ensures
        failed_blocks(verdicts_of(reads)).contains(i as u64),
        remapped_pairs(verdicts_of(reads)).len() >= 1,
        passed_count(verdicts_of(reads)) < reads.len(),
{
    let vs = verdicts_of(reads);
    law_remapped_block_detected(j, i as u64, block_size);
    assert(vs[i] == block_verdict(reads[i], i as u64));
    lemma_failed_blocks_members(vs);
    law_every_block_accounted(vs);
    lemma_remap_counted(vs, i);
}

/// A wrong mapping anywhere among the verdicts is listed among the remaps.
pub proof fn lemma_remap_counted(vs: Seq<BlockVerifyResult>, i: int)
    requires
        0 <= i < vs.len(),
        vs[i] is WrongMapping,
    ensures
        remapped_pairs(vs).len() >= 1,
    decreases vs.len(),
{
    if i < vs.len() - 1 {
        let p = vs.drop_last();
        assert(p[i] == vs[i]);
        lemma_remap_counted(p, i);
    }
}

/// Outcome of the capacity (fake-drive) test.
pub struct CapacityResult {
    pub claimed_bytes: u64,
    pub real_bytes: u64,
    pub total_blocks: u64,
    pub good_blocks: u64,
    pub bad_blocks: Vec<u64>,
    pub remapped_blocks: Vec<(u64, u64)>,
}

/// The bookkeeping of a capacity test: the blocks to write, and the verdict
/// of each block read back so far.
pub struct CapacityScan {
    claimed_bytes: u64,
    total_blocks: u64,
    checked: u64,
    good_blocks: u64,
    bad_blocks: Vec<u64>,
    remapped_blocks: Vec<(u64, u64)>,
    verdicts: Ghost<Seq<BlockVerifyResult>>,
}

/// What a capacity scan has seen: the claimed size, the number of blocks to
/// check, and the verdict of each block checked so far, in block order.
pub struct CapacityScanView {
    pub claimed_bytes: u64,
    pub total_blocks: u64,
    pub verdicts: Seq<BlockVerifyResult>,
}

impl View for CapacityScan {
    type V = CapacityScanView;

    closed spec fn view(&self) -> CapacityScanView {
        CapacityScanView {
            claimed_bytes: self.claimed_bytes,
            total_blocks: self.total_blocks,
            verdicts: self.verdicts@,
        }
    }
}

impl CapacityScan {
    /// The scan's internal bookkeeping agrees with what it has seen.
    pub closed spec fn wf(&self) -> bool {
        &&& self.checked == self.verdicts@.len()
        &&& self.checked <= self.total_blocks
        &&& self.total_blocks <= self.claimed_bytes / (BLOCK_SIZE as u64)
        &&& self.good_blocks == passed_count(self.verdicts@)
        &&& self.bad_blocks@ == failed_blocks(self.verdicts@)
        &&& self.remapped_blocks@ == remapped_pairs(self.verdicts@)
    }

    /// Plans a capacity test: fails when not one whole block fits in both the
    /// free space and the claimed capacity.
    pub fn new(free_space: u64, claimed_capacity: u64) -> (r: Result<Self, String>)
        ensures
            match r {
                Ok(s) => {
                    &&& s.wf()
                    &&& capacity_blocks(free_space, claimed_capacity) > 0
                    &&& s@.total_blocks == capacity_blocks(free_space, claimed_capacity)
                    &&& s@.claimed_bytes == claimed_capacity
                    &&& s@.verdicts == Seq::<BlockVerifyResult>::empty()
                },
                Err(m) => {
                    &&& capacity_blocks(free_space, claimed_capacity) == 0
                    &&& m@ == "No free space available for testing"@
                },
            },
    {
        let bs = BLOCK_SIZE as u64;
        let a = free_space / bs;
        let b = claimed_capacity / bs;
        let num_blocks = if a <= b { a } else { b };
        if num_blocks == 0 {
            return Err(String::from_str("No free space available for testing"));
        }
        Ok(CapacityScan {
            claimed_bytes: claimed_capacity,
            total_blocks: num_blocks,
            checked: 0,
            good_blocks: 0,
            bad_blocks: Vec::new(),
            remapped_blocks: Vec::new(),
            verdicts: Ghost(Seq::empty()),
        })
    }

    /// Number of blocks the test writes and then checks.
    pub fn total_blocks(&self) -> (n: u64)
        ensures
            n == self@.total_blocks,
    {
        self.total_blocks
    }

    /// Number of the next block to check.
    pub fn next_block(&self) -> (n: u64)
        requires
            self.wf(),
        ensures
            n == self@.verdicts.len(),
    {
        self.checked
    }

    /// Whether every block has been checked.
    pub fn is_complete(&self) -> (b: bool)
        requires
            self.wf(),
        ensures
            b == (self@.verdicts.len() == self@.total_blocks),
    {
        self.checked == self.total_blocks
    }

    /// Checks the bytes read back at the place of the next block.
    pub fn verify_next(&mut self, data: &[u8])
        requires
            old(self).wf(),
            old(self)@.verdicts.len() < old(self)@.total_blocks,
        ensures
            final(self).wf(),
            final(self)@.claimed_bytes == old(self)@.claimed_bytes,
            final(self)@.total_blocks == old(self)@.total_blocks,
            final(self)@.verdicts == old(self)@.verdicts.push(
                block_verdict(data@, old(self)@.verdicts.len() as u64),
            ),
    {
        proof {
            law_every_block_accounted(self.verdicts@);
        }
        let i = self.checked;
        let verdict = verify_test_block(data, i);
        let ghost vs = self.verdicts@.push(verdict);
        assert(vs.drop_last() =~= self.verdicts@);
        match verdict {
            BlockVerifyResult::Passed => {
                self.good_blocks = self.good_blocks + 1;
            },
            BlockVerifyResult::WrongMapping { expected, got } => {
                self.remapped_blocks.push((expected, got));
                self.bad_blocks.push(i);
            },
            _ => {
                self.bad_blocks.push(i);
            },
        }
        self.checked = i + 1;
        self.verdicts = Ghost(vs);
    }

    /// The result once every block is checked: the real capacity is the
    /// number of intact blocks times the block size.
    pub fn finish(self) -> (r: CapacityResult)
        requires
            self.wf(),
            self@.verdicts.len() == self@.total_blocks,
        ensures
            r.claimed_bytes == self@.claimed_bytes,
            r.total_blocks == self@.total_blocks,
            r.good_blocks == passed_count(self@.verdicts),
            r.real_bytes == r.good_blocks * (BLOCK_SIZE as u64),
            r.real_bytes <= r.claimed_bytes,
            r.bad_blocks@ == failed_blocks(self@.verdicts),
            r.remapped_blocks@ == remapped_pairs(self@.verdicts),
    {
        proof {
            law_every_block_accounted(self.verdicts@);
            let g = self.good_blocks as int;
            let t = self.total_blocks as int;
            let c = self.claimed_bytes as int;
            assert(g * 1048576 <= t * 1048576) by (nonlinear_arith)
                requires
                    g <= t,
            ;
            assert(t * 1048576 <= c) by (nonlinear_arith)
                requires
                    t <= c / 1048576,
                    c >= 0,
            ;
        }
        let bs = BLOCK_SIZE as u64;
        CapacityResult {
            claimed_bytes: self.claimed_bytes,
            real_bytes: self.good_blocks * bs,
            total_blocks: self.total_blocks,
            good_blocks: self.good_blocks,
            bad_blocks: self.bad_blocks,
            remapped_blocks: self.remapped_blocks,
        }
    }
}

} // verus!
