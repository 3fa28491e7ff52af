use vstd::prelude::*;

verus! {

/// A removable drive as the platform tools describe it.
#[derive(Debug, Clone)]
pub struct DriveInfo {
    pub name: String,
    pub path: String,
    pub mount_point: String,
    pub serial: String,
    pub capacity_bytes: u64,
    pub free_bytes: u64,
    pub file_system: String,
    pub is_removable: bool,
}

/// The contents of a `DriveInfo`, its strings as character sequences.
pub struct DriveView {
    pub name: Seq<char>,
    pub path: Seq<char>,
    pub mount_point: Seq<char>,
    pub serial: Seq<char>,
    pub capacity_bytes: u64,
    pub free_bytes: u64,
    pub file_system: Seq<char>,
    pub is_removable: bool,
}

impl View for DriveInfo {
    type V = DriveView;

    open spec fn view(&self) -> DriveView {
        DriveView {
            name: self.name@,
            path: self.path@,
            mount_point: self.mount_point@,
            serial: self.serial@,
            capacity_bytes: self.capacity_bytes,
            free_bytes: self.free_bytes,
            file_system: self.file_system@,
            is_removable: self.is_removable,
        }
    }
}

/// The views of a list of drives.
pub open spec fn drives_view(ds: Seq<DriveInfo>) -> Seq<DriveView> {
    ds.map_values(|d: DriveInfo| d@)
}

/// Finds the first drive whose device path is `path` or whose mount point
/// is `mount`.
pub fn find_drive_by(drives: &Vec<DriveInfo>, path: &str, mount: &str) -> (r: Option<usize>)
    ensures
        match r {
            Some(i) => {
                &&& i < drives@.len()
                &&& (drives@[i as int].path@ == path@ || drives@[i as int].mount_point@ == mount@)
                &&& forall|j: int|
                    0 <= j < i ==> !(drives@[j].path@ == path@ || drives@[j].mount_point@
                        == mount@)
            },
            None => forall|j: int|
                0 <= j < drives@.len() ==> !(drives@[j].path@ == path@
                    || drives@[j].mount_point@ == mount@),
        },
{
    let p = String::from_str(path);
    let m = String::from_str(mount);
    let mut i: usize = 0;
    while i < drives.len()
        invariant
            i <= drives@.len(),
            p@ == path@,
            m@ == mount@,
            forall|j: int|
                0 <= j < i ==> !(drives@[j].path@ == path@ || drives@[j].mount_point@ == mount@),
        decreases drives@.len() - i,
    {
        if drives[i].path == p || drives[i].mount_point == m {
            return Some(i);
        }
        i = i + 1;
    }
    None
}

/// Finds the first drive whose device path or mount point is `key`.
pub fn find_drive(drives: &Vec<DriveInfo>, key: &str) -> (r: Option<usize>)
    ensures
        match r {
            Some(i) => {
                &&& i < drives@.len()
                &&& (drives@[i as int].path@ == key@ || drives@[i as int].mount_point@ == key@)
                &&& forall|j: int|
                    0 <= j < i ==> !(drives@[j].path@ == key@ || drives@[j].mount_point@ == key@)
            },
            None => forall|j: int|
                0 <= j < drives@.len() ==> !(drives@[j].path@ == key@ || drives@[j].mount_point@
                    == key@),
        },
{
    find_drive_by(drives, key, key)
}

/// Decimal unit in which a capacity is shown.
#[derive(Debug, Clone, Copy, PartialEq, Eq, Structural)]
pub enum CapacityUnit {
    TB,
    GB,
    MB,
    KB,
}

/// The unit a capacity of `bytes` is shown in: the largest decimal unit of
/// which it holds at least one, kilobytes below a megabyte.
pub open spec fn capacity_unit_of(bytes: u64) -> CapacityUnit {
    if bytes >= 1_000_000_000_000 {
        CapacityUnit::TB
    } else if bytes >= 1_000_000_000 {
        CapacityUnit::GB
    } else if bytes >= 1_000_000 {
        CapacityUnit::MB
    } else {
        CapacityUnit::KB
    }
}

/// Chooses the unit a capacity is shown in.
pub fn capacity_unit(bytes: u64) -> (u: CapacityUnit)
    ensures
        u == capacity_unit_of(bytes),
{
    if bytes >= 1_000_000_000_000 {
        CapacityUnit::TB
    } else if bytes >= 1_000_000_000 {
        CapacityUnit::GB
    } else if bytes >= 1_000_000 {
        CapacityUnit::MB
    } else {
        CapacityUnit::KB
    }
}

impl CapacityUnit {
    /// Number of bytes in one unit.
    pub fn divisor(&self) -> (d: u64)
        ensures
            d == match *self {
                CapacityUnit::TB => 1_000_000_000_000u64,
                CapacityUnit::GB => 1_000_000_000u64,
                CapacityUnit::MB => 1_000_000u64,
                CapacityUnit::KB => 1_000u64,
            },
    {
        match self {
            CapacityUnit::TB => 1_000_000_000_000,
            CapacityUnit::GB => 1_000_000_000,
            CapacityUnit::MB => 1_000_000,
            CapacityUnit::KB => 1_000,
        }
    }

    /// The unit's symbol.
    pub fn symbol(&self) -> (s: &'static str)
        ensures
            s@ == match *self {
                CapacityUnit::TB => "TB"@,
                CapacityUnit::GB => "GB"@,
                CapacityUnit::MB => "MB"@,
                CapacityUnit::KB => "KB"@,
            },
    {
        match self {
            CapacityUnit::TB => "TB",
            CapacityUnit::GB => "GB",
            CapacityUnit::MB => "MB",
            CapacityUnit::KB => "KB",
        }
    }
}

/// A capacity shown in a unit is at least one of that unit, except in
/// kilobytes, and less than a thousand of it, except in terabytes.
pub proof fn law_capacity_unit_range(bytes: u64)
    ensures
        capacity_unit_of(bytes) != CapacityUnit::KB ==> bytes >= match capacity_unit_of(bytes) {
            CapacityUnit::TB => 1_000_000_000_000u64,
            CapacityUnit::GB => 1_000_000_000u64,
            _ => 1_000_000u64,
        },
        capacity_unit_of(bytes) != CapacityUnit::TB ==> bytes < 1000 * match capacity_unit_of(
            bytes,
        ) {
            CapacityUnit::GB => 1_000_000_000u64,
            CapacityUnit::MB => 1_000_000u64,
            _ => 1_000u64,
        },
{
}

} // verus!
