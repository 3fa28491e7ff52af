use vstd::prelude::*;
use crate::badblock::BadBlockResult;
use crate::capacity::CapacityResult;

verus! {

/// Duration, in seconds, of the thermal test that `--all` selects.
pub const DEFAULT_THERMAL_SECS: u64 = 120;

/// Which tests a run performs.
#[derive(Debug, Clone, Copy, PartialEq, Eq, Structural)]
pub struct TestSelection {
    pub capacity: bool,
    pub speed: bool,
    pub badblock: bool,
    pub thermal: Option<u64>,
}

impl TestSelection {
    /// The tests selected by the command-line flags: `all` selects every test,
    /// the thermal one for 120 seconds.
    pub fn from_flags(capacity: bool, speed: bool, badblock: bool, thermal: Option<u64>, all: bool) -> (s: Self)
        ensures
            s.capacity == (capacity || all),
            s.speed == (speed || all),
            s.badblock == (badblock || all),
            s.thermal == if all {
                Some(DEFAULT_THERMAL_SECS)
            } else {
                thermal
            },
    {
        TestSelection {
            capacity: capacity || all,
            speed: speed || all,
            badblock: badblock || all,
            thermal: if all { Some(DEFAULT_THERMAL_SECS) } else { thermal },
        }
    }

    /// Whether at least one test is selected.
    pub open spec fn any_selected(&self) -> bool {
        self.capacity || self.speed || self.badblock || self.thermal is Some
    }

    /// Refuses a run without any test.
    pub fn check(&self) -> (r: Result<(), String>)
        ensures
            r is Ok <==> self.any_selected(),
            r matches Err(m) ==> m@
                == "No test selected. Use --capacity, --speed, --badblock, --thermal SECS, or --all"@,
    {
        if !self.capacity && !self.speed && !self.badblock && self.thermal.is_none() {
            return Err(
                String::from_str(
                    "No test selected. Use --capacity, --speed, --badblock, --thermal SECS, or --all",
                ),
            );
        }
        Ok(())
    }
}

/// One test of a run. A run performs its tests in this order: capacity,
/// speed, bad blocks, then the thermal test for the given number of seconds.
#[derive(Debug, Clone, Copy, PartialEq, Eq, Structural)]
pub enum TestKind {
    Capacity,
    Speed,
    BadBlock,
    Thermal { secs: u64 },
}

/// Place of a test in the order of a run.
pub open spec fn stage_of(k: TestKind) -> nat {
    match k {
        TestKind::Capacity => 0,
        TestKind::Speed => 1,
        TestKind::BadBlock => 2,
        TestKind::Thermal { .. } => 3,
    }
}

impl TestKind {
    /// Place of the test in the order of a run.
    pub fn stage(&self) -> (s: u8)
        ensures
            s == stage_of(*self),
    {
        match self {
            TestKind::Capacity => 0,
            TestKind::Speed => 1,
            TestKind::BadBlock => 2,
            TestKind::Thermal { .. } => 3,
        }
    }
}

impl TestSelection {
    /// The selected test at place `stage` of the order, if any.
    pub open spec fn test_at(&self, stage: nat) -> Option<TestKind> {
        if stage == 0 {
            if self.capacity {
                Some(TestKind::Capacity)
            } else {
                None
            }
        } else if stage == 1 {
            if self.speed {
                Some(TestKind::Speed)
            } else {
                None
            }
        } else if stage == 2 {
            if self.badblock {
                Some(TestKind::BadBlock)
            } else {
                None
            }
        } else if stage == 3 {
            match self.thermal {
                Some(secs) => Some(TestKind::Thermal { secs }),
                None => None,
            }
        } else {
            None
        }
    }

    /// The first selected test at place `from` of the order or later.
    pub open spec fn first_from(&self, from: nat) -> Option<TestKind>
        decreases 4 - from,
    {
        if from >= 4 {
            None
        } else if self.test_at(from) is Some {
            self.test_at(from)
        } else {
            self.first_from(from + 1)
        }
    }

    fn test_at_stage(&self, stage: u8) -> (r: Option<TestKind>)
        ensures
            r == self.test_at(stage as nat),
    {
        if stage == 0 {
            if self.capacity {
                Some(TestKind::Capacity)
            } else {
                None
            }
        } else if stage == 1 {
            if self.speed {
                Some(TestKind::Speed)
            } else {
                None
            }
        } else if stage == 2 {
            if self.badblock {
                Some(TestKind::BadBlock)
            } else {
                None
            }
        } else if stage == 3 {
            match self.thermal {
                Some(secs) => Some(TestKind::Thermal { secs }),
                None => None,
            }
        } else {
            None
        }
    }

    /// The next test of the run once the tests before place `from` are done:
    /// the first selected one from there on. The capacity test always runs
    /// when selected; a later test is skipped, and so is the rest of the
    /// run, once the user asked to stop.
    pub fn next_test(&self, from: u8, stop_requested: bool) -> (r: Option<TestKind>)
        ensures
            r == match self.first_from(from as nat) {
                Some(k) => if stop_requested && stage_of(k) > 0 {
                    None
                } else {
                    Some(k)
                },
                None => None,
            },
    {
        let mut s: u8 = from;
        while s < 4
            invariant
                self.first_from(from as nat) == self.first_from(s as nat),
            decreases 4 - s,
        {
            match self.test_at_stage(s) {
                Some(k) => {
                    if stop_requested && k.stage() > 0 {
                        return None;
                    } else {
                        return Some(k);
                    }
                },
                None => {},
            }
            s = s + 1;
        }
        None
    }
}

/// The test found from a place on is selected, stands at that place or
/// later, and no selected test lies between: a run performs each selected
/// test once, in order, and skips none while no stop is asked for.
pub proof fn law_next_test_in_order(sel: TestSelection, from: nat)
    ensures
        match sel.first_from(from) {
            Some(k) => {
                &&& from <= stage_of(k) < 4
                &&& sel.test_at(stage_of(k)) == Some(k)
                &&& forall|j: nat| from <= j < stage_of(k) ==> sel.test_at(j) is None
            },
            None => forall|j: nat| from <= j ==> sel.test_at(j) is None,
        },
    decreases 4 - from,
{
    if from < 4 && sel.test_at(from) is None {
        law_next_test_in_order(sel, from + 1);
    }
}

/// Appends `blocks` to `positions`.
fn append_blocks(positions: &mut Vec<u64>, blocks: &Vec<u64>)
    ensures
        final(positions)@ == old(positions)@ + blocks@,
{
    let mut i: usize = 0;
    while i < blocks.len()
        invariant
            i <= blocks@.len(),
            positions@ == old(positions)@ + blocks@.subrange(0, i as int),
        decreases blocks@.len() - i,
    {
        positions.push(blocks[i]);
        i = i + 1;
        assert(blocks@.subrange(0, i as int) =~= blocks@.subrange(0, i - 1).push(blocks@[i - 1]));
    }
    assert(blocks@.subrange(0, i as int) =~= blocks@);
}

/// What the block tests of a run found, as it is stored and scored.
pub struct TestTally {
    pub real_capacity: Option<u64>,
    pub total_blocks: Option<u64>,
    pub bad_block_count: Option<u64>,
    pub bad_block_positions: Vec<u64>,
}

impl TestTally {
    /// Nothing measured yet.
    pub fn new() -> (t: Self)
        ensures
            t.real_capacity is None,
            t.total_blocks is None,
            t.bad_block_count is None,
            t.bad_block_positions@ == Seq::<u64>::empty(),
    {
        TestTally {
            real_capacity: None,
            total_blocks: None,
            bad_block_count: None,
            bad_block_positions: Vec::new(),
        }
    }

    /// Takes in a finished capacity test: its real capacity and block count,
    /// and its bad blocks appended to the positions.
    pub fn record_capacity(&mut self, r: &CapacityResult)
        ensures
            final(self).real_capacity == Some(r.real_bytes),
            final(self).total_blocks == Some(r.total_blocks),
            final(self).bad_block_count == old(self).bad_block_count,
            final(self).bad_block_positions@ == old(self).bad_block_positions@ + r.bad_blocks@,
    {
        self.real_capacity = Some(r.real_bytes);
        self.total_blocks = Some(r.total_blocks);
        append_blocks(&mut self.bad_block_positions, &r.bad_blocks);
    }

    /// Takes in a finished bad-block scan: its bad-block count, its block
    /// count unless the capacity test already gave one, and its bad blocks
    /// appended to the positions.
    pub fn record_badblock(&mut self, r: &BadBlockResult)
        ensures
            final(self).real_capacity == old(self).real_capacity,
            final(self).bad_block_count == Some(r.bad_blocks@.len() as u64),
            final(self).total_blocks == match old(self).total_blocks {
                Some(t) => Some(t),
                None => Some(r.total_blocks),
            },
            final(self).bad_block_positions@ == old(self).bad_block_positions@ + r.bad_blocks@,
    {
        self.bad_block_count = Some(r.bad_blocks.len() as u64);
        if self.total_blocks.is_none() {
            self.total_blocks = Some(r.total_blocks);
        }
        append_blocks(&mut self.bad_block_positions, &r.bad_blocks);
    }
}

} // verus!
