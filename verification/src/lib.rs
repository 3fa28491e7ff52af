//! Verified core of a USB flash drive inspector: the pseudo-random block
//! pattern used to detect fake capacity, the bookkeeping of the capacity and
//! bad-block scans, the speed-test plan, the quality score, and the parsers
//! for the operating-system tools that list removable drives.

pub mod prng;
pub mod block;
pub mod stop;
pub mod capacity;
pub mod badblock;
pub mod speed;
pub mod score;
pub mod drive;
pub mod plan;
pub mod types;
pub mod text;
pub mod plist;
pub mod wmic;
pub mod wmi;
pub mod report;
pub mod thermal;
pub mod cli;
