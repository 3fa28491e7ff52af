use vstd::prelude::*;
use crate::block::{block_verdict, verify_test_block, BlockVerifyResult};
use crate::capacity::BLOCK_SIZE;

verus! {

/// `s` with `x` appended, unless `s` already holds it.
pub open spec fn add_unique(s: Seq<u64>, x: u64) -> Seq<u64> {
    if s.contains(x) {
        s
    } else {
        s.push(x)
    }
}

/// Outcome of the bad-block scan.
pub struct BadBlockResult {
    pub total_blocks: u64,
    pub bad_blocks: Vec<u64>,
    pub tested_blocks: u64,
}

/// The bookkeeping of a bad-block scan over all free space: blocks whose
/// write failed, whose read failed or whose content did not verify are
/// recorded once each.
pub struct BadBlockScan {
    total_blocks: u64,
    bad_blocks: Vec<u64>,
    tested_blocks: u64,
}

/// What a bad-block scan has recorded so far.
pub struct BadBlockScanView {
    pub total_blocks: u64,
    pub bad_blocks: Seq<u64>,
    pub tested_blocks: u64,
}

impl View for BadBlockScan {
    type V = BadBlockScanView;

    closed spec fn view(&self) -> BadBlockScanView {
        BadBlockScanView {
            total_blocks: self.total_blocks,
            bad_blocks: self.bad_blocks@,
            tested_blocks: self.tested_blocks,
        }
    }
}

/// Adding a block to a list without repeats keeps it without repeats.
pub proof fn law_add_unique_no_duplicates(s: Seq<u64>, x: u64)
    requires
        s.no_duplicates(),
    ensures
        add_unique(s, x).no_duplicates(),
        add_unique(s, x).contains(x),
        forall|y: u64| s.contains(y) ==> add_unique(s, x).contains(y),
{
    if !s.contains(x) {
        let t = s.push(x);
        assert forall|i: int, j: int| 0 <= i < t.len() && 0 <= j < t.len() && i != j implies t[i]
            != t[j] by {
            if i == s.len() as int {
                assert(t[j] == s[j]);
                if x == s[j] {
                    assert(s.contains(x));
                }
            } else if j == s.len() as int {
                assert(t[i] == s[i]);
                if x == s[i] {
                    assert(s.contains(x));
                }
            } else {
                assert(t[i] == s[i] && t[j] == s[j]);
            }
        }
        assert(t[s.len() as int] == x);
        assert forall|y: u64| s.contains(y) implies t.contains(y) by {
            let k = choose|k: int| 0 <= k < s.len() && s[k] == y;
            assert(t[k] == y);
        }
    }
}

impl BadBlockScan {
    /// The scan's internal bookkeeping agrees with what it has seen.
    pub closed spec fn wf(&self) -> bool {
        &&& self.bad_blocks@.no_duplicates()
        &&& forall|i: int| 0 <= i < self.bad_blocks@.len() ==> self.bad_blocks@[i] < self.total_blocks
        &&& self.tested_blocks <= self.total_blocks
    }

    /// Plans a scan of every whole block of free space; fails when there is none.
    pub fn new(free_space: u64) -> (r: Result<Self, String>)
        ensures
            match r {
                Ok(s) => {
                    &&& s.wf()
                    &&& free_space / (BLOCK_SIZE as u64) > 0
                    &&& s@.total_blocks == free_space / (BLOCK_SIZE as u64)
                    &&& s@.bad_blocks == Seq::<u64>::empty()
                    &&& s@.tested_blocks == 0
                },
                Err(m) => {
                    &&& free_space / (BLOCK_SIZE as u64) == 0
                    &&& m@ == "No free space for bad block test"@
                },
            },
    {
        let num_blocks = free_space / (BLOCK_SIZE as u64);
        if num_blocks == 0 {
            return Err(String::from_str("No free space for bad block test"));
        }
        Ok(BadBlockScan { total_blocks: num_blocks, bad_blocks: Vec::new(), tested_blocks: 0 })
    }

    /// Number of blocks the scan covers.
    pub fn total_blocks(&self) -> (n: u64)
        ensures
            n == self@.total_blocks,
    {
        self.total_blocks
    }

    /// Number of bad blocks found so far.
    pub fn bad_block_count(&self) -> (n: usize)
        ensures
            n == self@.bad_blocks.len(),
    {
        self.bad_blocks.len()
    }

    fn mark_bad(&mut self, block: u64)
        requires
            old(self).wf(),
            block < old(self).total_blocks,
        ensures
            final(self).wf(),
            final(self).total_blocks == old(self).total_blocks,
            final(self).tested_blocks == old(self).tested_blocks,
            final(self).bad_blocks@ == add_unique(old(self).bad_blocks@, block),
    {
        proof {
            law_add_unique_no_duplicates(self.bad_blocks@, block);
        }
        let mut found = false;
        let mut k: usize = 0;
        while k < self.bad_blocks.len()
            invariant
                k <= self.bad_blocks@.len(),
                found == exists|j: int| 0 <= j < k && self.bad_blocks@[j] == block,
            decreases self.bad_blocks@.len() - k,
        {
            if self.bad_blocks[k] == block {
                found = true;
            }
            k = k + 1;
        }
        if !found {
            self.bad_blocks.push(block);
        } else {
            assert(self.bad_blocks@.contains(block));
        }
    }

    /// Records that writing block `block` failed.
    pub fn record_write_failure(&mut self, block: u64)
        requires
            old(self).wf(),
            block < old(self)@.total_blocks,
        ensures
            final(self).wf(),
            final(self)@.total_blocks == old(self)@.total_blocks,
            final(self)@.tested_blocks == old(self)@.tested_blocks,
            final(self)@.bad_blocks == add_unique(old(self)@.bad_blocks, block),
    {
        self.mark_bad(block);
    }

    /// Records that reading block `block` back failed.
    pub fn record_read_failure(&mut self, block: u64)
        requires
            old(self).wf(),
            block < old(self)@.total_blocks,
        ensures
            final(self).wf(),
            final(self)@.total_blocks == old(self)@.total_blocks,
            final(self)@.tested_blocks == old(self)@.tested_blocks,
            final(self)@.bad_blocks == add_unique(old(self)@.bad_blocks, block),
    {
        self.mark_bad(block);
    }

    /// Checks the bytes read back for block `block`; a block that does not
    /// verify is recorded as bad, and the block counts as tested.
    pub fn record_read(&mut self, block: u64, data: &[u8])
        requires
            old(self).wf(),
            block < old(self)@.total_blocks,
            old(self)@.tested_blocks < old(self)@.total_blocks,
        ensures
            final(self).wf(),
            final(self)@.total_blocks == old(self)@.total_blocks,
            final(self)@.tested_blocks == old(self)@.tested_blocks + 1,
            final(self)@.bad_blocks == if block_verdict(data@, block)
                == BlockVerifyResult::Passed {
                old(self)@.bad_blocks
            } else {
                add_unique(old(self)@.bad_blocks, block)
            },
    {
        let verdict = verify_test_block(data, block);
        match verdict {
            BlockVerifyResult::Passed => {},
            _ => {
                self.mark_bad(block);
            },
        }
        self.tested_blocks = self.tested_blocks + 1;
    }

    /// The result of the scan: every bad block is listed once.
    pub fn finish(self) -> (r: BadBlockResult)
        requires
            self.wf(),
        ensures
            r.total_blocks == self@.total_blocks,
            r.bad_blocks@ == self@.bad_blocks,
            r.tested_blocks == self@.tested_blocks,
            r.bad_blocks@.no_duplicates(),
            forall|i: int| 0 <= i < r.bad_blocks@.len() ==> r.bad_blocks@[i] < r.total_blocks,
            r.tested_blocks <= r.total_blocks,
    {
        BadBlockResult {
            total_blocks: self.total_blocks,
            bad_blocks: self.bad_blocks,
            tested_blocks: self.tested_blocks,
        }
    }
}

} // verus!
