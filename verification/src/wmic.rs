use vstd::prelude::*;
use crate::drive::{drives_view, DriveInfo, DriveView};
use crate::text::{
    after_header, chars_of, line_ranges, lines, parse_u64, parse_u64_range, pieces, range_starts_with,
    ranges_within, split, split_ranges, starts_with, substring, trim, trim_range, word_ranges, words,
};

verus! {

// The Windows drive detection reads the CSV output of `wmic`, and the free
// space comes from `wmic` or `df`.

/// A parsed number, or 0.
pub open spec fn number_or_zero(o: Option<u64>) -> u64 {
    match o {
        Some(v) => v,
        None => 0,
    }
}

/// The drive described by one row of
/// `wmic logicaldisk where drivetype=2 get Caption,Description,FileSystem,FreeSpace,Size,VolumeName,VolumeSerialNumber /format:csv`
/// (columns Node, Caption, Description, FileSystem, FreeSpace, Size,
/// VolumeName, VolumeSerialNumber): none for a blank or short row, or a
/// zero size.
pub open spec fn logicaldisk_drive(line: Seq<char>) -> Option<DriveView> {
    let t = trim(line);
    let parts = split(t, ',');
    if t.len() == 0 || parts.len() < 8 {
        None
    } else {
        let caption = trim(parts[1]);
        let description = trim(parts[2]);
        let file_system = trim(parts[3]);
        let free = number_or_zero(parse_u64(trim(parts[4])));
        let size = number_or_zero(parse_u64(trim(parts[5])));
        let volume_name = trim(parts[6]);
        let volume_serial = trim(parts[7]);
        if size == 0 {
            None
        } else {
            Some(
                DriveView {
                    name: if volume_name.len() > 0 {
                        volume_name
                    } else if description.len() > 0 {
                        description
                    } else {
                        "Removable Disk"@
                    },
                    path: caption,
                    mount_point: caption + "\\"@,
                    serial: volume_serial,
                    capacity_bytes: size,
                    free_bytes: free,
                    file_system,
                    is_removable: true,
                },
            )
        }
    }
}

/// The drives of the rows `ls`, in order.
pub open spec fn logicaldisk_drives(ls: Seq<Seq<char>>) -> Seq<DriveView>
    decreases ls.len(),
{
    if ls.len() == 0 {
        Seq::empty()
    } else {
        let prev = logicaldisk_drives(ls.drop_last());
        match logicaldisk_drive(ls.last()) {
            Some(d) => prev.push(d),
            None => prev,
        }
    }
}

/// Reads one row of the `wmic logicaldisk` listing.
fn parse_logicaldisk_row(text: &str, v: &Vec<char>, x: usize, y: usize) -> (r: Option<DriveInfo>)
    requires
        x <= y <= v@.len(),
        v@ == text@,
    ensures
        match r {
            Some(d) => logicaldisk_drive(v@.subrange(x as int, y as int)) == Some(d@),
            None => logicaldisk_drive(v@.subrange(x as int, y as int)) is None,
        },
{
    let (a, b) = trim_range(v, x, y);
    let parts = split_ranges(v, a, b, ',');
    let ghost ps = pieces(v@, parts@);
    if a == b || parts.len() < 8 {
        return None;
    }
    assert(parts@[1].0 <= parts@[1].1 <= v@.len());
    assert(parts@[2].0 <= parts@[2].1 <= v@.len());
    assert(parts@[3].0 <= parts@[3].1 <= v@.len());
    assert(parts@[4].0 <= parts@[4].1 <= v@.len());
    assert(parts@[5].0 <= parts@[5].1 <= v@.len());
    assert(parts@[6].0 <= parts@[6].1 <= v@.len());
    assert(parts@[7].0 <= parts@[7].1 <= v@.len());
    let (c0, c1) = trim_range(v, parts[1].0, parts[1].1);
    let (d0, d1) = trim_range(v, parts[2].0, parts[2].1);
    let (f0, f1) = trim_range(v, parts[3].0, parts[3].1);
    let (r0, r1) = trim_range(v, parts[4].0, parts[4].1);
    let (s0, s1) = trim_range(v, parts[5].0, parts[5].1);
    let (n0, n1) = trim_range(v, parts[6].0, parts[6].1);
    let (e0, e1) = trim_range(v, parts[7].0, parts[7].1);
    let free = match parse_u64_range(v, r0, r1) {
        Some(n) => n,
        None => 0,
    };
    let size = match parse_u64_range(v, s0, s1) {
        Some(n) => n,
        None => 0,
    };
    if size == 0 {
        return None;
    }
    let name = if n1 > n0 {
        substring(text, n0, n1)
    } else if d1 > d0 {
        substring(text, d0, d1)
    } else {
        String::from_str("Removable Disk")
    };
    let caption = substring(text, c0, c1);
    let mount_point = substring(text, c0, c1).concat("\\");
    Some(
        DriveInfo {
            name,
            path: caption,
            mount_point,
            serial: substring(text, e0, e1),
            capacity_bytes: size,
            free_bytes: free,
            file_system: substring(text, f0, f1),
            is_removable: true,
        },
    )
}

/// The removable drives in the CSV listing of `wmic logicaldisk`, one per
/// row after the header that names a drive of nonzero size.
pub fn parse_logicaldisk_csv(text: &str) -> (drives: Vec<DriveInfo>)
    ensures
        drives_view(drives@) == logicaldisk_drives(after_header(lines(text@))),
{
    let v = chars_of(text);
    let ls = line_ranges(&v);
    let ghost p = pieces(v@, ls@);
    let ghost rows = after_header(p);
    let mut drives: Vec<DriveInfo> = Vec::new();
    if ls.len() == 0 {
        return drives;
    }
    let mut k: usize = 1;
    assert(rows.take(0) =~= Seq::<Seq<char>>::empty());
    assert(drives_view(drives@) =~= Seq::<DriveView>::empty());
    while k < ls.len()
        invariant
            1 <= k <= ls@.len(),
            p == pieces(v@, ls@),
            p == lines(text@),
            rows == after_header(p),
            rows.len() == p.len() - 1,
            v@ == text@,
            ranges_within(v@, ls@),
            drives_view(drives@) == logicaldisk_drives(rows.take(k - 1)),
        decreases ls@.len() - k,
    {
        let (x, y) = ls[k];
        assert(x <= y <= v@.len());
        assert(rows.take(k as int).drop_last() =~= rows.take(k - 1));
        assert(rows.take(k as int).last() == v@.subrange(x as int, y as int));
        let ghost before = drives_view(drives@);
        match parse_logicaldisk_row(text, &v, x, y) {
            Some(d) => {
                drives.push(d);
                assert(drives_view(drives@) =~= before.push(d@));
            },
            None => {},
        }
        k = k + 1;
    }
    assert(rows.take(ls@.len() - 1) =~= rows);
    drives
}

/// The (Caption, SerialNumber) of one row of
/// `wmic diskdrive where interfacetype='USB' get Caption,SerialNumber /format:csv`.
pub open spec fn diskdrive_row(line: Seq<char>) -> Option<(Seq<char>, Seq<char>)> {
    let t = trim(line);
    let parts = split(t, ',');
    if t.len() == 0 || parts.len() < 3 {
        None
    } else {
        Some((trim(parts[1]), trim(parts[2])))
    }
}

/// The (Caption, SerialNumber) pairs of the rows `ls`, in order.
pub open spec fn diskdrive_rows(ls: Seq<Seq<char>>) -> Seq<(Seq<char>, Seq<char>)>
    decreases ls.len(),
{
    if ls.len() == 0 {
        Seq::empty()
    } else {
        let prev = diskdrive_rows(ls.drop_last());
        match diskdrive_row(ls.last()) {
            Some(r) => prev.push(r),
            None => prev,
        }
    }
}

/// The drives after the physical USB disk names are taken in: only when
/// there is exactly one physical disk and one drive, a nonempty caption
/// becomes the drive's name, and a nonempty serial number fills an empty
/// serial.
pub open spec fn with_physical_names(ds: Seq<DriveView>, names: Seq<(Seq<char>, Seq<char>)>) -> Seq<
    DriveView,
> {
    if names.len() == 1 && ds.len() == 1 {
        let d = ds[0];
        let (caption, serial) = names[0];
        seq![
            DriveView {
                name: if caption.len() > 0 {
                    caption
                } else {
                    d.name
                },
                serial: if serial.len() > 0 && d.serial.len() == 0 {
                    serial
                } else {
                    d.serial
                },
                ..d
            },
        ]
    } else {
        ds
    }
}

/// Reads one row of the `wmic diskdrive` listing.
fn parse_diskdrive_row(text: &str, v: &Vec<char>, x: usize, y: usize) -> (r: Option<(String, String)>)
    requires
        x <= y <= v@.len(),
        v@ == text@,
    ensures
        match r {
            Some(n) => diskdrive_row(v@.subrange(x as int, y as int)) == Some((n.0@, n.1@)),
            None => diskdrive_row(v@.subrange(x as int, y as int)) is None,
        },
{
    let (a, b) = trim_range(v, x, y);
    let parts = split_ranges(v, a, b, ',');
    if a == b || parts.len() < 3 {
        return None;
    }
    assert(parts@[1].0 <= parts@[1].1 <= v@.len());
    assert(parts@[2].0 <= parts@[2].1 <= v@.len());
    let (c0, c1) = trim_range(v, parts[1].0, parts[1].1);
    let (s0, s1) = trim_range(v, parts[2].0, parts[2].1);
    Some((substring(text, c0, c1), substring(text, s0, s1)))
}

/// Takes the names and serial numbers of physical USB disks, from the CSV
/// listing of `wmic diskdrive`, into `drives`.
pub fn apply_physical_disk_names(drives: &mut Vec<DriveInfo>, text: &str)
    ensures
        drives_view(final(drives)@) == with_physical_names(
            drives_view(old(drives)@),
            diskdrive_rows(after_header(lines(text@))),
        ),
{
    let v = chars_of(text);
    let ls = line_ranges(&v);
    let ghost p = pieces(v@, ls@);
    let ghost rows = after_header(p);
    let mut names: Vec<(String, String)> = Vec::new();
    let ghost names_view = Seq::<(Seq<char>, Seq<char>)>::empty();
    if ls.len() > 0 {
        let mut k: usize = 1;
        assert(rows.take(0) =~= Seq::<Seq<char>>::empty());
        while k < ls.len()
            invariant
                1 <= k <= ls@.len(),
                p == pieces(v@, ls@),
                p == lines(text@),
                rows == after_header(p),
                rows.len() == p.len() - 1,
                v@ == text@,
                ranges_within(v@, ls@),
                names@.len() == diskdrive_rows(rows.take(k - 1)).len(),
                forall|j: int|
                    0 <= j < names@.len() ==> (#[trigger] names@[j].0@, names@[j].1@)
                        == diskdrive_rows(rows.take(k - 1))[j],
            decreases ls@.len() - k,
        {
            let (x, y) = ls[k];
            assert(x <= y <= v@.len());
            assert(rows.take(k as int).drop_last() =~= rows.take(k - 1));
            assert(rows.take(k as int).last() == v@.subrange(x as int, y as int));
            match parse_diskdrive_row(text, &v, x, y) {
                Some(r) => {
                    names.push(r);
                },
                None => {},
            }
            k = k + 1;
        }
        assert(rows.take(ls@.len() - 1) =~= rows);
    }
    let ghost nv = diskdrive_rows(rows);
    assert(ls@.len() == 0 ==> rows.len() == 0);
    if names.len() == 1 && drives.len() == 1 {
        let d = drives.pop().unwrap();
        let name = if names[0].0.as_str().unicode_len() > 0 {
            names[0].0.clone()
        } else {
            d.name
        };
        let serial = if names[0].1.as_str().unicode_len() > 0 && d.serial.as_str().unicode_len()
            == 0 {
            names[0].1.clone()
        } else {
            d.serial
        };
        drives.push(
            DriveInfo {
                name,
                path: d.path,
                mount_point: d.mount_point,
                serial,
                capacity_bytes: d.capacity_bytes,
                free_bytes: d.free_bytes,
                file_system: d.file_system,
                is_removable: d.is_removable,
            },
        );
        assert(drives_view(final(drives)@) =~= with_physical_names(drives_view(old(drives)@), nv));
    } else {
        assert(drives_view(drives@) =~= with_physical_names(drives_view(old(drives)@), nv));
    }
}

/// Index of the first drive from position `k` on whose device path is `path`.
pub open spec fn first_with_path(ds: Seq<DriveView>, path: Seq<char>, k: int) -> Option<int>
    decreases ds.len() - k,
{
    if k < 0 || k >= ds.len() {
        None
    } else if ds[k].path == path {
        Some(k)
    } else {
        first_with_path(ds, path, k + 1)
    }
}

/// The drives after one WMI description `w` is taken in: the first drive
/// with the same path gets its name, unless that name is empty or the
/// generic "Removable Disk", and its serial number, when it had none.
pub open spec fn merge_wmi_drive(ds: Seq<DriveView>, w: DriveView) -> Seq<DriveView> {
    match first_with_path(ds, w.path, 0) {
        Some(i) => {
            let e = ds[i];
            let name = if w.name.len() > 0 && w.name != "Removable Disk"@ {
                w.name
            } else {
                e.name
            };
            let serial = if w.serial.len() > 0 && e.serial.len() == 0 {
                w.serial
            } else {
                e.serial
            };
            ds.update(i, DriveView { name, serial, ..e })
        },
        None => ds,
    }
}

/// The drives after every WMI description of `ws` is taken in, in order.
pub open spec fn merge_wmi_drives_spec(ds: Seq<DriveView>, ws: Seq<DriveView>) -> Seq<DriveView>
    decreases ws.len(),
{
    if ws.len() == 0 {
        ds
    } else {
        merge_wmi_drive(merge_wmi_drives_spec(ds, ws.drop_last()), ws.last())
    }
}

/// Takes one WMI description into `drives`.
fn merge_one(drives: &mut Vec<DriveInfo>, w: &DriveInfo)
    ensures
        drives_view(final(drives)@) == merge_wmi_drive(drives_view(old(drives)@), w@),
{
    let ghost ds = drives_view(drives@);
    let mut i: usize = 0;
    let removable = String::from_str("Removable Disk");
    while i < drives.len()
        invariant
            i <= drives@.len(),
            ds == drives_view(drives@),
            drives@ == old(drives)@,
            removable@ == "Removable Disk"@,
            first_with_path(ds, w.path@, 0) == first_with_path(ds, w.path@, i as int),
        decreases drives@.len() - i,
    {
        if drives[i].path == w.path {
            assert(first_with_path(ds, w.path@, i as int) == Some(i as int));
            let e = &drives[i];
            let name = if w.name.as_str().unicode_len() > 0 && !(w.name == removable) {
                w.name.clone()
            } else {
                e.name.clone()
            };
            let serial = if w.serial.as_str().unicode_len() > 0 && e.serial.as_str().unicode_len()
                == 0 {
                w.serial.clone()
            } else {
                e.serial.clone()
            };
            let merged = DriveInfo {
                name,
                path: e.path.clone(),
                mount_point: e.mount_point.clone(),
                serial,
                capacity_bytes: e.capacity_bytes,
                free_bytes: e.free_bytes,
                file_system: e.file_system.clone(),
                is_removable: e.is_removable,
            };
            let ghost e_view = ds[i as int];
            assert(merged@.name == (if w.name@.len() > 0 && w.name@ != "Removable Disk"@ {
                w.name@
            } else {
                e_view.name
            }));
            assert(merged@.serial == (if w.serial@.len() > 0 && e_view.serial.len() == 0 {
                w.serial@
            } else {
                e_view.serial
            }));
            assert(merged@ == DriveView { name: merged@.name, serial: merged@.serial, ..e_view });
            drives.set(i, merged);
            assert(drives_view(drives@) =~= merge_wmi_drive(ds, w@));
            return ;
        }
        i = i + 1;
    }
}

/// Takes the drive names and serial numbers found through WMI into the
/// drives found through `wmic`, matching them by device path.
pub fn merge_wmi_drives(drives: &mut Vec<DriveInfo>, wmi_drives: &Vec<DriveInfo>)
    ensures
        drives_view(final(drives)@) == merge_wmi_drives_spec(
            drives_view(old(drives)@),
            drives_view(wmi_drives@),
        ),
{
    let ghost ws = drives_view(wmi_drives@);
    let mut k: usize = 0;
    assert(ws.take(0) =~= Seq::<DriveView>::empty());
    while k < wmi_drives.len()
        invariant
            k <= wmi_drives@.len(),
            ws == drives_view(wmi_drives@),
            drives_view(drives@) == merge_wmi_drives_spec(
                drives_view(old(drives)@),
                ws.take(k as int),
            ),
        decreases wmi_drives@.len() - k,
    {
        assert(ws.take(k + 1).drop_last() =~= ws.take(k as int));
        merge_one(drives, &wmi_drives[k]);
        k = k + 1;
    }
    assert(ws.take(wmi_drives@.len() as int) =~= ws);
}

/// The free space in the output of
/// `wmic logicaldisk where DeviceID='X:' get FreeSpace /value`: the first
/// line `FreeSpace=N` whose N (trimmed) is a number.
pub open spec fn wmic_free_space(ls: Seq<Seq<char>>) -> Option<u64>
    decreases ls.len(),
{
    if ls.len() == 0 {
        None
    } else if starts_with(ls[0], "FreeSpace="@) && parse_u64(trim(ls[0].skip(10))) is Some {
        parse_u64(trim(ls[0].skip(10)))
    } else {
        wmic_free_space(ls.drop_first())
    }
}

/// Reads the free space from the output of `wmic ... get FreeSpace /value`.
pub fn parse_wmic_free_space(text: &str) -> (r: Result<u64, String>)
    ensures
        match r {
            Ok(n) => wmic_free_space(lines(text@)) == Some(n),
            Err(m) => wmic_free_space(lines(text@)) is None && m@
                == "Could not determine free space"@,
        },
{
    let v = chars_of(text);
    let ls = line_ranges(&v);
    let ghost p = pieces(v@, ls@);
    let prefix = chars_of("FreeSpace=");
    proof {
        reveal_strlit("FreeSpace=");
    }
    let mut k: usize = 0;
    assert(p.skip(0) =~= p);
    while k < ls.len()
        invariant
            k <= ls@.len(),
            p == pieces(v@, ls@),
            p == lines(text@),
            ranges_within(v@, ls@),
            prefix@ == "FreeSpace="@,
            prefix@.len() == 10,
            wmic_free_space(p) == wmic_free_space(p.skip(k as int)),
        decreases ls@.len() - k,
    {
        let (x, y) = ls[k];
        assert(x <= y <= v@.len());
        let ghost line = v@.subrange(x as int, y as int);
        assert(p.skip(k as int)[0] == line);
        assert(p.skip(k as int).drop_first() =~= p.skip(k + 1));
        if range_starts_with(&v, x, y, &prefix) {
            assert(line.skip(10) =~= v@.subrange(x + 10, y as int));
            let (a, b) = trim_range(&v, x + 10, y);
            match parse_u64_range(&v, a, b) {
                Some(n) => {
                    return Ok(n);
                },
                None => {},
            }
        }
        k = k + 1;
    }
    Err(String::from_str("Could not determine free space"))
}

/// The free space in the output of `df -B1 MOUNT`: the fourth column of the
/// second line.
pub open spec fn df_free_space(text: Seq<char>) -> Option<u64> {
    let ls = lines(text);
    if ls.len() >= 2 && words(ls[1]).len() >= 4 {
        parse_u64(words(ls[1])[3])
    } else {
        None
    }
}

/// Reads the free space from the output of `df -B1 MOUNT`.
pub fn parse_df_free_space(text: &str) -> (r: Result<u64, String>)
    ensures
        match r {
            Ok(n) => df_free_space(text@) == Some(n),
            Err(m) => df_free_space(text@) is None && m@ == "Could not determine free space"@,
        },
{
    let v = chars_of(text);
    let ls = line_ranges(&v);
    if ls.len() >= 2 {
        let (x, y) = ls[1];
        assert(x <= y <= v@.len());
        let ws = word_ranges(&v, x, y);
        if ws.len() >= 4 {
            let (a, b) = ws[3];
            assert(a <= b <= v@.len());
            match parse_u64_range(&v, a, b) {
                Some(n) => {
                    return Ok(n);
                },
                None => {},
            }
        }
    }
    Err(String::from_str("Could not determine free space"))
}

} // verus!
