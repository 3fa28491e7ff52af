use vstd::prelude::*;
use crate::drive::{drives_view, DriveInfo, DriveView};
use crate::text::{
    chars_of, contains, parse_u64, parse_u64_range, pieces, range_contains, range_eq, split,
    split_ranges, substring,
};

verus! {

// The WMI drive detection joins four WMI classes: the USB disk drives,
// the disk-to-partition and partition-to-logical-disk associations, and the
// logical disks.

/// A `Win32_DiskDrive` record.
#[derive(Debug)]
pub struct WmiDiskDrive {
    pub caption: Option<String>,
    pub device_id: Option<String>,
    pub interface_type: Option<String>,
    pub serial_number: Option<String>,
    pub size: Option<String>,
}

/// A record of an association class (`Win32_DiskDriveToDiskPartition`,
/// `Win32_LogicalDiskToPartition`): object paths of its two ends.
#[derive(Debug)]
pub struct WmiAssociation {
    pub antecedent: Option<String>,
    pub dependent: Option<String>,
}

/// A `Win32_LogicalDisk` record.
#[derive(Debug)]
pub struct WmiLogicalDisk {
    pub device_id: Option<String>,
    pub file_system: Option<String>,
    pub free_space: Option<String>,
    pub size: Option<String>,
    pub volume_name: Option<String>,
    pub volume_serial_number: Option<String>,
    pub drive_type: Option<u32>,
}

/// The contents of an optional string.
pub open spec fn opt_view(o: Option<String>) -> Option<Seq<char>> {
    match o {
        Some(s) => Some(s@),
        None => None,
    }
}

/// The contents of an optional string, or the empty string.
pub open spec fn opt_or_empty(o: Option<Seq<char>>) -> Seq<char> {
    match o {
        Some(s) => s,
        None => Seq::empty(),
    }
}

/// `s` with every backslash doubled, as it appears inside a WMI object path.
pub open spec fn double_backslashes(s: Seq<char>) -> Seq<char>
    decreases s.len(),
{
    if s.len() == 0 {
        s
    } else if s.last() == '\\' {
        double_backslashes(s.drop_last()) + seq!['\\', '\\']
    } else {
        double_backslashes(s.drop_last()).push(s.last())
    }
}

/// The first double-quoted part of a WMI object path: the text between the
/// first and second `"`, or up to the end when there is no second one.
pub open spec fn first_quoted(s: Seq<char>) -> Option<Seq<char>> {
    let p = split(s, '"');
    if p.len() >= 2 {
        Some(p[1])
    } else {
        None
    }
}

/// The last logical disk whose device id is `letter`.
pub open spec fn logical_disk_for(lds: Seq<WmiLogicalDisk>, letter: Seq<char>) -> Option<int>
    decreases lds.len(),
{
    if lds.len() == 0 {
        None
    } else if opt_view(lds.last().device_id) == Some(letter) {
        Some(lds.len() - 1)
    } else {
        logical_disk_for(lds.drop_last(), letter)
    }
}

/// The drive of the USB disk `disk` on the logical disk `ld`, mounted at
/// `letter`.
pub open spec fn joined_drive(disk: WmiDiskDrive, letter: Seq<char>, ld: WmiLogicalDisk) -> DriveView {
    DriveView {
        name: match opt_view(disk.caption) {
            Some(c) => c,
            None => "USB Drive"@,
        },
        path: letter,
        mount_point: letter + "\\"@,
        serial: match opt_view(disk.serial_number) {
            Some(s) => s,
            None => opt_or_empty(opt_view(ld.volume_serial_number)),
        },
        capacity_bytes: match opt_view(ld.size) {
            Some(s) => match parse_u64(s) {
                Some(v) => v,
                None => 0,
            },
            None => 0,
        },
        free_bytes: match opt_view(ld.free_space) {
            Some(s) => match parse_u64(s) {
                Some(v) => v,
                None => 0,
            },
            None => 0,
        },
        file_system: opt_or_empty(opt_view(ld.file_system)),
        is_removable: true,
    }
}

/// The drive that one partition-to-logical-disk link contributes for the
/// partition `part_ref` of `disk`.
pub open spec fn link_drive(
    disk: WmiDiskDrive,
    part_ref: Seq<char>,
    link: WmiAssociation,
    lds: Seq<WmiLogicalDisk>,
) -> Option<DriveView> {
    match opt_view(link.antecedent) {
        None => None,
        Some(ant) => if !(match first_quoted(part_ref) {
            Some(pname) => contains(ant, pname),
            None => false,
        }) {
            None
        } else {
            match opt_view(link.dependent) {
                None => None,
                Some(logical_ref) => {
                    let letter = opt_or_empty(first_quoted(logical_ref));
                    match logical_disk_for(lds, letter) {
                        Some(i) => Some(joined_drive(disk, letter, lds[i])),
                        None => None,
                    }
                },
            }
        },
    }
}

/// The drives of the partition `part_ref` of `disk`, one per matching link.
pub open spec fn partition_drives(
    disk: WmiDiskDrive,
    part_ref: Seq<char>,
    links: Seq<WmiAssociation>,
    lds: Seq<WmiLogicalDisk>,
) -> Seq<DriveView>
    decreases links.len(),
{
    if links.len() == 0 {
        Seq::empty()
    } else {
        let prev = partition_drives(disk, part_ref, links.drop_last(), lds);
        match link_drive(disk, part_ref, links.last(), lds) {
            Some(d) => prev.push(d),
            None => prev,
        }
    }
}

/// The drives that one disk-to-partition link contributes for `disk`, whose
/// device id is `device_id`.
pub open spec fn disk_link_drives(
    disk: WmiDiskDrive,
    device_id: Seq<char>,
    link: WmiAssociation,
    part_links: Seq<WmiAssociation>,
    lds: Seq<WmiLogicalDisk>,
) -> Seq<DriveView> {
    match opt_view(link.antecedent) {
        None => Seq::empty(),
        Some(ant) => if !contains(ant, double_backslashes(device_id)) {
            Seq::empty()
        } else {
            match opt_view(link.dependent) {
                None => Seq::empty(),
                Some(part_ref) => partition_drives(disk, part_ref, part_links, lds),
            }
        },
    }
}

/// The drives of `disk`, over the disk-to-partition links `links`.
pub open spec fn disk_drives(
    disk: WmiDiskDrive,
    device_id: Seq<char>,
    links: Seq<WmiAssociation>,
    part_links: Seq<WmiAssociation>,
    lds: Seq<WmiLogicalDisk>,
) -> Seq<DriveView>
    decreases links.len(),
{
    if links.len() == 0 {
        Seq::empty()
    } else {
        disk_drives(disk, device_id, links.drop_last(), part_links, lds) + disk_link_drives(
            disk,
            device_id,
            links.last(),
            part_links,
            lds,
        )
    }
}

/// The drives of all the USB disks `disks`, in order.
pub open spec fn wmi_drives(
    disks: Seq<WmiDiskDrive>,
    links: Seq<WmiAssociation>,
    part_links: Seq<WmiAssociation>,
    lds: Seq<WmiLogicalDisk>,
) -> Seq<DriveView>
    decreases disks.len(),
{
    if disks.len() == 0 {
        Seq::empty()
    } else {
        wmi_drives(disks.drop_last(), links, part_links, lds) + match opt_view(
            disks.last().device_id,
        ) {
            Some(dev) => disk_drives(disks.last(), dev, links, part_links, lds),
            None => Seq::empty(),
        }
    }
}

/// Whether the drive `d` sits on the logical disk `ld` of the USB disk
/// `disk`: its path is the logical disk's device id, and its serial is the
/// disk's hardware serial number when the disk has one, else the volume
/// serial number of the logical disk (empty when that is missing too).
pub open spec fn sits_on(d: DriveView, disk: WmiDiskDrive, ld: WmiLogicalDisk) -> bool {
    &&& opt_view(ld.device_id) == Some(d.path)
    &&& match opt_view(disk.serial_number) {
        Some(s) => d.serial == s,
        None => d.serial == opt_or_empty(opt_view(ld.volume_serial_number)),
    }
}

/// Whether the drive `d` sits on one of the logical disks `lds` of `disk`.
pub open spec fn sits_on_some(d: DriveView, disk: WmiDiskDrive, lds: Seq<WmiLogicalDisk>) -> bool {
    exists|j: int| 0 <= j < lds.len() && sits_on(d, disk, #[trigger] lds[j])
}

/// The logical disk found for a drive letter has that letter as device id.
proof fn lemma_logical_disk_for(lds: Seq<WmiLogicalDisk>, letter: Seq<char>)
    ensures
        logical_disk_for(lds, letter) matches Some(i) ==> 0 <= i < lds.len() && opt_view(
            lds[i].device_id,
        ) == Some(letter),
    decreases lds.len(),
{
    if lds.len() > 0 && opt_view(lds.last().device_id) != Some(letter) {
        lemma_logical_disk_for(lds.drop_last(), letter);
        if let Some(i) = logical_disk_for(lds.drop_last(), letter) {
            assert(lds.drop_last()[i] == lds[i]);
        }
    }
}

proof fn lemma_link_drive_source(
    disk: WmiDiskDrive,
    part_ref: Seq<char>,
    link: WmiAssociation,
    lds: Seq<WmiLogicalDisk>,
)
    ensures
        link_drive(disk, part_ref, link, lds) matches Some(d) ==> sits_on_some(d, disk, lds),
{
    if let Some(d) = link_drive(disk, part_ref, link, lds) {
        let logical_ref = opt_view(link.dependent)->0;
        let letter = opt_or_empty(first_quoted(logical_ref));
        lemma_logical_disk_for(lds, letter);
        let i = logical_disk_for(lds, letter)->0;
        assert(d == joined_drive(disk, letter, lds[i]));
        assert(sits_on(d, disk, lds[i]));
    }
}

proof fn lemma_partition_drive_sources(
    disk: WmiDiskDrive,
    part_ref: Seq<char>,
    links: Seq<WmiAssociation>,
    lds: Seq<WmiLogicalDisk>,
)
    ensures
        forall|k: int|
            0 <= k < partition_drives(disk, part_ref, links, lds).len() ==> sits_on_some(
                #[trigger] partition_drives(disk, part_ref, links, lds)[k],
                disk,
                lds,
            ),
    decreases links.len(),
{
    if links.len() > 0 {
        let prev = partition_drives(disk, part_ref, links.drop_last(), lds);
        let all = partition_drives(disk, part_ref, links, lds);
        lemma_partition_drive_sources(disk, part_ref, links.drop_last(), lds);
        lemma_link_drive_source(disk, part_ref, links.last(), lds);
        assert forall|k: int| 0 <= k < all.len() implies sits_on_some(#[trigger] all[k], disk, lds) by {
            if k < prev.len() {
                assert(all[k] == prev[k]);
            }
        }
    }
}

proof fn lemma_disk_drive_sources(
    disk: WmiDiskDrive,
    device_id: Seq<char>,
    links: Seq<WmiAssociation>,
    part_links: Seq<WmiAssociation>,
    lds: Seq<WmiLogicalDisk>,
)
    ensures
        forall|k: int|
            0 <= k < disk_drives(disk, device_id, links, part_links, lds).len() ==> sits_on_some(
                #[trigger] disk_drives(disk, device_id, links, part_links, lds)[k],
                disk,
                lds,
            ),
    decreases links.len(),
{
    if links.len() > 0 {
        let prev = disk_drives(disk, device_id, links.drop_last(), part_links, lds);
        let more = disk_link_drives(disk, device_id, links.last(), part_links, lds);
        let all = disk_drives(disk, device_id, links, part_links, lds);
        lemma_disk_drive_sources(disk, device_id, links.drop_last(), part_links, lds);
        if let Some(part_ref) = opt_view(links.last().dependent) {
            lemma_partition_drive_sources(disk, part_ref, part_links, lds);
        }
        assert forall|k: int| 0 <= k < all.len() implies sits_on_some(#[trigger] all[k], disk, lds) by {
            if k < prev.len() {
                assert(all[k] == prev[k]);
            } else {
                assert(all[k] == more[k - prev.len()]);
            }
        }
    }
}

/// Every drive that the WMI join reports comes from one of the USB disks and
/// sits on one of the logical disks: its path is that logical disk's device
/// id, and its serial is the disk's hardware serial number whenever the disk
/// has one (the volume serial number only stands in when it has none).
pub proof fn law_wmi_drive_serials(
    disks: Seq<WmiDiskDrive>,
    links: Seq<WmiAssociation>,
    part_links: Seq<WmiAssociation>,
    lds: Seq<WmiLogicalDisk>,
)
    ensures
        forall|k: int|
            0 <= k < wmi_drives(disks, links, part_links, lds).len() ==> exists|i: int|
                0 <= i < disks.len() && sits_on_some(
                    #[trigger] wmi_drives(disks, links, part_links, lds)[k],
                    #[trigger] disks[i],
                    lds,
                ),
    decreases disks.len(),
{
    if disks.len() > 0 {
        let p = disks.drop_last();
        let prev = wmi_drives(p, links, part_links, lds);
        let all = wmi_drives(disks, links, part_links, lds);
        let last = disks.last();
        law_wmi_drive_serials(p, links, part_links, lds);
        if let Some(dev) = opt_view(last.device_id) {
            lemma_disk_drive_sources(last, dev, links, part_links, lds);
        }
        assert forall|k: int| 0 <= k < all.len() implies exists|i: int|
            0 <= i < disks.len() && sits_on_some(#[trigger] all[k], #[trigger] disks[i], lds) by {
            if k < prev.len() {
                assert(all[k] == prev[k]);
                let i = choose|i: int| 0 <= i < p.len() && sits_on_some(prev[k], #[trigger] p[i], lds);
                assert(p[i] == disks[i]);
            } else {
                let dev = opt_view(last.device_id)->0;
                assert(all[k] == disk_drives(last, dev, links, part_links, lds)[k - prev.len()]);
                assert(disks[disks.len() - 1] == last);
            }
        }
    }
}

/// `s` with every backslash doubled.
fn doubled_backslashes(s: &Vec<char>) -> (r: Vec<char>)
    ensures
        r@ == double_backslashes(s@),
{
    let mut r: Vec<char> = Vec::new();
    let mut i: usize = 0;
    assert(s@.take(0) =~= Seq::<char>::empty());
    while i < s.len()
        invariant
            i <= s@.len(),
            r@ == double_backslashes(s@.take(i as int)),
        decreases s@.len() - i,
    {
        assert(s@.take(i + 1).drop_last() =~= s@.take(i as int));
        assert(s@.take(i + 1).last() == s@[i as int]);
        if s[i] == '\\' {
            r.push('\\');
            r.push('\\');
            assert(r@ =~= double_backslashes(s@.take(i as int)) + seq!['\\', '\\']);
        } else {
            r.push(s[i]);
        }
        i = i + 1;
    }
    assert(s@.take(s@.len() as int) =~= s@);
    r
}

/// The range of the first double-quoted part of `v`.
fn first_quoted_range(v: &Vec<char>) -> (r: Option<(usize, usize)>)
    ensures
        match r {
            Some((a, b)) => a <= b <= v@.len() && first_quoted(v@) == Some(
                v@.subrange(a as int, b as int),
            ),
            None => first_quoted(v@) is None,
        },
{
    let parts = split_ranges(v, 0, v.len(), '"');
    assert(v@.subrange(0, v@.len() as int) =~= v@);
    if parts.len() >= 2 {
        assert(parts@[1].0 <= parts@[1].1 <= v@.len());
        Some(parts[1])
    } else {
        None
    }
}

/// The index of the last logical disk whose device id is `letter`.
fn find_logical_disk(lds: &Vec<WmiLogicalDisk>, letter: &String) -> (r: Option<usize>)
    ensures
        match r {
            Some(i) => i < lds@.len() && logical_disk_for(lds@, letter@) == Some(i as int),
            None => logical_disk_for(lds@, letter@) is None,
        },
{
    let mut found: Option<usize> = None;
    let mut i: usize = 0;
    assert(lds@.take(0) =~= Seq::<WmiLogicalDisk>::empty());
    while i < lds.len()
        invariant
            i <= lds@.len(),
            match found {
                Some(j) => j < i && logical_disk_for(lds@.take(i as int), letter@) == Some(j as int),
                None => logical_disk_for(lds@.take(i as int), letter@) is None,
            },
        decreases lds@.len() - i,
    {
        assert(lds@.take(i + 1).drop_last() =~= lds@.take(i as int));
        assert(lds@.take(i + 1).last() == lds@[i as int]);
        match &lds[i].device_id {
            Some(id) => {
                if *id == *letter {
                    found = Some(i);
                }
            },
            None => {},
        }
        i = i + 1;
    }
    assert(lds@.take(lds@.len() as int) =~= lds@);
    found
}

/// A parsed number of bytes, or 0.
fn bytes_or_zero(o: &Option<String>) -> (n: u64)
    ensures
        n == match opt_view(*o) {
            Some(s) => match parse_u64(s) {
                Some(v) => v,
                None => 0u64,
            },
            None => 0u64,
        },
{
    match o {
        Some(s) => {
            let v = chars_of(s.as_str());
            assert(v@.subrange(0, v@.len() as int) =~= v@);
            match parse_u64_range(&v, 0, v.len()) {
                Some(n) => n,
                None => 0,
            }
        },
        None => 0,
    }
}

/// The drive that a partition-to-logical-disk link contributes.
fn link_drive_exec(
    disk: &WmiDiskDrive,
    part_name: &Option<Vec<char>>,
    link: &WmiAssociation,
    lds: &Vec<WmiLogicalDisk>,
    Ghost(part_ref): Ghost<Seq<char>>,
) -> (r: Option<DriveInfo>)
    requires
        match *part_name {
            Some(p) => first_quoted(part_ref) == Some(p@),
            None => first_quoted(part_ref) is None,
        },
    ensures
        match r {
            Some(d) => link_drive(*disk, part_ref, *link, lds@) == Some(d@),
            None => link_drive(*disk, part_ref, *link, lds@) is None,
        },
{
    let ant = match &link.antecedent {
        Some(a) => a,
        None => {
            return None;
        },
    };
    let matches = match part_name {
        Some(pname) => {
            let av = chars_of(ant.as_str());
            assert(av@.subrange(0, av@.len() as int) =~= av@);
            range_contains(&av, 0, av.len(), pname)
        },
        None => false,
    };
    if !matches {
        return None;
    }
    let logical_ref = match &link.dependent {
        Some(d) => d,
        None => {
            return None;
        },
    };
    let lv = chars_of(logical_ref.as_str());
    let letter = match first_quoted_range(&lv) {
        Some((a, b)) => substring(logical_ref.as_str(), a, b),
        None => String::new(),
    };
    match find_logical_disk(lds, &letter) {
        Some(i) => {
            let ld = &lds[i];
            let name = match &disk.caption {
                Some(c) => c.clone(),
                None => String::from_str("USB Drive"),
            };
            let serial = match &disk.serial_number {
                Some(s) => s.clone(),
                None => match &ld.volume_serial_number {
                    Some(s) => s.clone(),
                    None => String::new(),
                },
            };
            let file_system = match &ld.file_system {
                Some(f) => f.clone(),
                None => String::new(),
            };
            let mount_point = letter.clone().concat("\\");
            Some(
                DriveInfo {
                    name,
                    path: letter,
                    mount_point,
                    serial,
                    capacity_bytes: bytes_or_zero(&ld.size),
                    free_bytes: bytes_or_zero(&ld.free_space),
                    file_system,
                    is_removable: true,
                },
            )
        },
        None => None,
    }
}

/// Appends the drives of the partition `part_ref` of `disk`.
fn push_partition_drives(
    out: &mut Vec<DriveInfo>,
    disk: &WmiDiskDrive,
    part_ref: &String,
    links: &Vec<WmiAssociation>,
    lds: &Vec<WmiLogicalDisk>,
)
    ensures
        drives_view(final(out)@) == drives_view(old(out)@) + partition_drives(
            *disk,
            part_ref@,
            links@,
            lds@,
        ),
{
    let pv = chars_of(part_ref.as_str());
    let part_name: Option<Vec<char>> = match first_quoted_range(&pv) {
        Some((a, b)) => {
            let s = substring(part_ref.as_str(), a, b);
            Some(chars_of(s.as_str()))
        },
        None => None,
    };
    let ghost start = drives_view(out@);
    let mut k: usize = 0;
    assert(links@.take(0) =~= Seq::<WmiAssociation>::empty());
    assert(start + Seq::<DriveView>::empty() =~= start);
    while k < links.len()
        invariant
            k <= links@.len(),
            match part_name {
                Some(p) => first_quoted(part_ref@) == Some(p@),
                None => first_quoted(part_ref@) is None,
            },
            drives_view(out@) == start + partition_drives(
                *disk,
                part_ref@,
                links@.take(k as int),
                lds@,
            ),
        decreases links@.len() - k,
    {
        assert(links@.take(k + 1).drop_last() =~= links@.take(k as int));
        assert(links@.take(k + 1).last() == links@[k as int]);
        let ghost before = drives_view(out@);
        match link_drive_exec(disk, &part_name, &links[k], lds, Ghost(part_ref@)) {
            Some(d) => {
                out.push(d);
                assert(drives_view(out@) =~= before.push(d@));
            },
            None => {},
        }
        k = k + 1;
    }
    assert(links@.take(links@.len() as int) =~= links@);
}

/// Appends the drives of `disk`, whose device id is `device_id`.
fn push_disk_drives(
    out: &mut Vec<DriveInfo>,
    disk: &WmiDiskDrive,
    device_id: &String,
    links: &Vec<WmiAssociation>,
    part_links: &Vec<WmiAssociation>,
    lds: &Vec<WmiLogicalDisk>,
)
    ensures
        drives_view(final(out)@) == drives_view(old(out)@) + disk_drives(
            *disk,
            device_id@,
            links@,
            part_links@,
            lds@,
        ),
{
    let dv = chars_of(device_id.as_str());
    let pattern = doubled_backslashes(&dv);
    let ghost start = drives_view(out@);
    let mut k: usize = 0;
    assert(links@.take(0) =~= Seq::<WmiAssociation>::empty());
    assert(start + Seq::<DriveView>::empty() =~= start);
    while k < links.len()
        invariant
            k <= links@.len(),
            pattern@ == double_backslashes(device_id@),
            drives_view(out@) == start + disk_drives(
                *disk,
                device_id@,
                links@.take(k as int),
                part_links@,
                lds@,
            ),
        decreases links@.len() - k,
    {
        assert(links@.take(k + 1).drop_last() =~= links@.take(k as int));
        assert(links@.take(k + 1).last() == links@[k as int]);
        let ghost before = drives_view(out@);
        let link = &links[k];
        match &link.antecedent {
            Some(ant) => {
                let av = chars_of(ant.as_str());
                assert(av@.subrange(0, av@.len() as int) =~= av@);
                if range_contains(&av, 0, av.len(), &pattern) {
                    match &link.dependent {
                        Some(part_ref) => {
                            push_partition_drives(out, disk, part_ref, part_links, lds);
                        },
                        None => {},
                    }
                }
            },
            None => {},
        }
        assert(drives_view(out@) =~= before + disk_link_drives(
            *disk,
            device_id@,
            *link,
            part_links@,
            lds@,
        ));
        k = k + 1;
    }
    assert(links@.take(links@.len() as int) =~= links@);
}

/// Joins the WMI records into drives: for each USB disk drive, each of its
/// partitions (an association whose antecedent names the disk's device id),
/// and each logical disk on that partition (an association whose antecedent
/// names the partition), the drive described by the last logical disk with
/// that drive letter.
pub fn join_wmi_records(
    disks: &Vec<WmiDiskDrive>,
    drive_to_partition: &Vec<WmiAssociation>,
    partition_to_logical: &Vec<WmiAssociation>,
    logical_disks: &Vec<WmiLogicalDisk>,
) -> (drives: Vec<DriveInfo>)
    ensures
        drives_view(drives@) == wmi_drives(
            disks@,
            drive_to_partition@,
            partition_to_logical@,
            logical_disks@,
        ),
{
    let mut out: Vec<DriveInfo> = Vec::new();
    let mut k: usize = 0;
    assert(disks@.take(0) =~= Seq::<WmiDiskDrive>::empty());
    assert(drives_view(out@) =~= Seq::<DriveView>::empty());
    while k < disks.len()
        invariant
            k <= disks@.len(),
            drives_view(out@) == wmi_drives(
                disks@.take(k as int),
                drive_to_partition@,
                partition_to_logical@,
                logical_disks@,
            ),
        decreases disks@.len() - k,
    {
        assert(disks@.take(k + 1).drop_last() =~= disks@.take(k as int));
        assert(disks@.take(k + 1).last() == disks@[k as int]);
        let ghost before = drives_view(out@);
        let disk = &disks[k];
        match &disk.device_id {
            Some(dev) => {
                push_disk_drives(
                    &mut out,
                    disk,
                    dev,
                    drive_to_partition,
                    partition_to_logical,
                    logical_disks,
                );
            },
            None => {
                assert(drives_view(out@) =~= before + Seq::<DriveView>::empty());
            },
        }
        k = k + 1;
    }
    assert(disks@.take(disks@.len() as int) =~= disks@);
    out
}

} // verus!
