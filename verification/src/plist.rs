use vstd::prelude::*;
use crate::drive::{DriveInfo, DriveView};
use crate::text::{
    chars_of, contains, line_ranges, lines, parse_u64, parse_u64_range, pieces, range_contains,
    range_ends_with, range_eq, range_starts_with, ranges_within, starts_with, ends_with,
    strip_prefix_all, strip_prefix_all_range, strip_suffix_all, strip_suffix_all_range, strings_view,
    substring, trim, trim_range,
};

verus! {

// The listings of `diskutil ... -plist` are read line by line, the way the
// macOS drive detection reads them.

/// Whether the (trimmed) line `t` is an element `open`...`close`.
pub open spec fn tagged(t: Seq<char>, open: Seq<char>, close: Seq<char>) -> bool {
    starts_with(t, open) && ends_with(t, close)
}

/// The content of the element `t`: all leading `open` and then all trailing
/// `close` removed.
pub open spec fn untag(t: Seq<char>, open: Seq<char>, close: Seq<char>) -> Seq<char> {
    strip_suffix_all(strip_prefix_all(t, open), close)
}

/// The line `<key>KEY</key>`.
pub open spec fn key_tag(key: Seq<char>) -> Seq<char> {
    "<key>"@ + key + "</key>"@
}

/// The trimmed line that follows the first line equal to `tag` (and any
/// further lines equal to it), if there is one.
pub open spec fn value_line(ls: Seq<Seq<char>>, tag: Seq<char>, found: bool) -> Option<Seq<char>>
    decreases ls.len(),
{
    if ls.len() == 0 {
        None
    } else if trim(ls[0]) == tag {
        value_line(ls.drop_first(), tag, true)
    } else if found {
        Some(trim(ls[0]))
    } else {
        value_line(ls.drop_first(), tag, false)
    }
}

/// The line holding the value of `key` in `plist`.
pub open spec fn key_value_line(plist: Seq<char>, key: Seq<char>) -> Option<Seq<char>> {
    value_line(lines(plist), key_tag(key), false)
}

/// The string value of `key` in `plist`.
pub open spec fn plist_string(plist: Seq<char>, key: Seq<char>) -> Option<Seq<char>> {
    match key_value_line(plist, key) {
        Some(t) => if tagged(t, "<string>"@, "</string>"@) {
            Some(untag(t, "<string>"@, "</string>"@))
        } else {
            None
        },
        None => None,
    }
}

/// The integer value of `key` in `plist`.
pub open spec fn plist_integer(plist: Seq<char>, key: Seq<char>) -> Option<u64> {
    match key_value_line(plist, key) {
        Some(t) => if tagged(t, "<integer>"@, "</integer>"@) {
            parse_u64(untag(t, "<integer>"@, "</integer>"@))
        } else {
            None
        },
        None => None,
    }
}

/// The boolean value of `key` in `plist`.
pub open spec fn plist_bool(plist: Seq<char>, key: Seq<char>) -> Option<bool> {
    match key_value_line(plist, key) {
        Some(t) => if t == "<true/>"@ {
            Some(true)
        } else if t == "<false/>"@ {
            Some(false)
        } else {
            None
        },
        None => None,
    }
}

/// The boolean read for a key is the one written on the line after its key:
/// `<true/>` reads as true, `<false/>` as false, and a value is read only
/// from one of these two lines.
pub proof fn law_plist_bool_reads_value(plist: Seq<char>, key: Seq<char>)
    ensures
        key_value_line(plist, key) == Some("<true/>"@) ==> plist_bool(plist, key) == Some(true),
        key_value_line(plist, key) == Some("<false/>"@) ==> plist_bool(plist, key) == Some(false),
        plist_bool(plist, key) == Some(true) ==> key_value_line(plist, key) == Some("<true/>"@),
        plist_bool(plist, key) == Some(false) ==> key_value_line(plist, key) == Some(
            "<false/>"@,
        ),
{
    reveal_strlit("<true/>");
    reveal_strlit("<false/>");
    assert("<true/>"@ != "<false/>"@) by {
        assert("<true/>"@[1] != "<false/>"@[1]);
    }
}

/// The range of the trimmed line that `value_line` picks.
fn value_line_range(v: &Vec<char>, ls: &Vec<(usize, usize)>, tag: &Vec<char>) -> (r: Option<
    (usize, usize),
>)
    requires
        ranges_within(v@, ls@),
    ensures
        match r {
            Some((x, y)) => x <= y <= v@.len() && value_line(pieces(v@, ls@), tag@, false) == Some(
                v@.subrange(x as int, y as int),
            ),
            None => value_line(pieces(v@, ls@), tag@, false) is None,
        },
{
    let ghost p = pieces(v@, ls@);
    let mut found = false;
    let mut k: usize = 0;
    assert(p.skip(0) =~= p);
    while k < ls.len()
        invariant
            k <= ls@.len(),
            p == pieces(v@, ls@),
            ranges_within(v@, ls@),
            value_line(p, tag@, false) == value_line(p.skip(k as int), tag@, found),
        decreases ls@.len() - k,
    {
        let (x, y) = ls[k];
        assert(x <= y <= v@.len());
        assert(p.skip(k as int)[0] == v@.subrange(x as int, y as int));
        assert(p.skip(k as int).drop_first() =~= p.skip(k + 1));
        let (a, b) = trim_range(v, x, y);
        if range_eq(v, a, b, tag) {
            found = true;
        } else if found {
            return Some((a, b));
        }
        k = k + 1;
    }
    None
}

/// The trimmed line holding the value of `key`, as a range of `v`.
fn key_value_range(v: &Vec<char>, key: &str) -> (r: Option<(usize, usize)>)
    ensures
        match r {
            Some((x, y)) => x <= y <= v@.len() && key_value_line(v@, key@) == Some(
                v@.subrange(x as int, y as int),
            ),
            None => key_value_line(v@, key@) is None,
        },
{
    let ls = line_ranges(v);
    let mut tag = chars_of("<key>");
    let mut k = chars_of(key);
    let mut close = chars_of("</key>");
    tag.append(&mut k);
    tag.append(&mut close);
    assert(tag@ =~= key_tag(key@));
    value_line_range(v, &ls, &tag)
}

/// The range of the content of the element `v[a..b]`.
fn untag_range(v: &Vec<char>, a: usize, b: usize, open: &Vec<char>, close: &Vec<char>) -> (r: (
    usize,
    usize,
))
    requires
        a <= b <= v@.len(),
    ensures
        a <= r.0 <= r.1 <= b,
        v@.subrange(r.0 as int, r.1 as int) == untag(v@.subrange(a as int, b as int), open@, close@),
{
    let x = strip_prefix_all_range(v, a, b, open);
    let y = strip_suffix_all_range(v, x, b, close);
    (x, y)
}

/// The string value of `key` in the property list `plist`: the line after
/// `<key>KEY</key>`, when it is a `<string>` element.
pub fn extract_plist_string(plist: &str, key: &str) -> (r: Option<String>)
    ensures
        match r {
            Some(s) => plist_string(plist@, key@) == Some(s@),
            None => plist_string(plist@, key@) is None,
        },
{
    let v = chars_of(plist);
    match key_value_range(&v, key) {
        Some((a, b)) => {
            let open = chars_of("<string>");
            let close = chars_of("</string>");
            if range_starts_with(&v, a, b, &open) && range_ends_with(&v, a, b, &close) {
                let (x, y) = untag_range(&v, a, b, &open, &close);
                Some(substring(plist, x, y))
            } else {
                None
            }
        },
        None => None,
    }
}

/// The integer value of `key` in the property list `plist`: the line after
/// `<key>KEY</key>`, when it is an `<integer>` element holding a `u64`.
pub fn extract_plist_integer(plist: &str, key: &str) -> (r: Option<u64>)
    ensures
        r == plist_integer(plist@, key@),
{
    let v = chars_of(plist);
    match key_value_range(&v, key) {
        Some((a, b)) => {
            let open = chars_of("<integer>");
            let close = chars_of("</integer>");
            if range_starts_with(&v, a, b, &open) && range_ends_with(&v, a, b, &close) {
                let (x, y) = untag_range(&v, a, b, &open, &close);
                parse_u64_range(&v, x, y)
            } else {
                None
            }
        },
        None => None,
    }
}

/// The boolean value of `key` in the property list `plist`: the line after
/// `<key>KEY</key>`, when it is `<true/>` or `<false/>`.
pub fn extract_plist_bool(plist: &str, key: &str) -> (r: Option<bool>)
    ensures
        r == plist_bool(plist@, key@),
{
    let v = chars_of(plist);
    match key_value_range(&v, key) {
        Some((a, b)) => {
            if range_eq(&v, a, b, &chars_of("<true/>")) {
                Some(true)
            } else if range_eq(&v, a, b, &chars_of("<false/>")) {
                Some(false)
            } else {
                None
            }
        },
        None => None,
    }
}

/// State of the reading of `diskutil list -plist external`: whether the
/// `WholeDisks` array is being read, and the disk identifiers found.
pub open spec fn whole_disks_state(ls: Seq<Seq<char>>) -> (bool, Seq<Seq<char>>)
    decreases ls.len(),
{
    if ls.len() == 0 {
        (false, Seq::empty())
    } else {
        let (inside, ids) = whole_disks_state(ls.drop_last());
        let t = trim(ls.last());
        if contains(t, "WholeDisks"@) {
            (true, ids)
        } else if inside {
            if t == "</array>"@ {
                (false, ids)
            } else if tagged(t, "<string>"@, "</string>"@) {
                (true, ids.push(untag(t, "<string>"@, "</string>"@)))
            } else {
                (true, ids)
            }
        } else {
            (false, ids)
        }
    }
}

/// The identifiers of the whole disks listed in `plist`.
pub open spec fn whole_disk_ids(plist: Seq<char>) -> Seq<Seq<char>> {
    whole_disks_state(lines(plist)).1
}

/// The identifiers of the external whole disks in the output of
/// `diskutil list -plist external`: the `<string>` lines of the array that
/// follows the `WholeDisks` key.
pub fn parse_whole_disks(plist: &str) -> (ids: Vec<String>)
    ensures
        strings_view(ids@) == whole_disk_ids(plist@),
{
    let v = chars_of(plist);
    let ls = line_ranges(&v);
    let ghost p = pieces(v@, ls@);
    let key = chars_of("WholeDisks");
    let end = chars_of("</array>");
    let open = chars_of("<string>");
    let close = chars_of("</string>");
    let mut inside = false;
    let mut ids: Vec<String> = Vec::new();
    let mut k: usize = 0;
    assert(p.take(0) =~= Seq::<Seq<char>>::empty());
    assert(strings_view(ids@) =~= Seq::<Seq<char>>::empty());
    while k < ls.len()
        invariant
            k <= ls@.len(),
            p == pieces(v@, ls@),
            p == lines(plist@),
            v@ == plist@,
            ranges_within(v@, ls@),
            key@ == "WholeDisks"@,
            end@ == "</array>"@,
            open@ == "<string>"@,
            close@ == "</string>"@,
            whole_disks_state(p.take(k as int)) == (inside, strings_view(ids@)),
        decreases ls@.len() - k,
    {
        let (x, y) = ls[k];
        assert(x <= y <= v@.len());
        assert(p.take(k + 1).drop_last() =~= p.take(k as int));
        assert(p.take(k + 1).last() == v@.subrange(x as int, y as int));
        let (a, b) = trim_range(&v, x, y);
        if range_contains(&v, a, b, &key) {
            inside = true;
        } else if inside {
            if range_eq(&v, a, b, &end) {
                inside = false;
            } else if range_starts_with(&v, a, b, &open) && range_ends_with(&v, a, b, &close) {
                let (c, d) = untag_range(&v, a, b, &open, &close);
                let id = substring(plist, c, d);
                let ghost before = strings_view(ids@);
                ids.push(id);
                assert(strings_view(ids@) =~= before.push(id@));
            }
        }
        k = k + 1;
    }
    assert(p.take(ls@.len() as int) =~= p);
    ids
}

/// State of the reading of `diskutil list -plist DISK`: whether the
/// partition list has begun, and the partition identifiers found.
pub open spec fn partitions_state(ls: Seq<Seq<char>>, disk_id: Seq<char>) -> (bool, Seq<Seq<char>>)
    decreases ls.len(),
{
    if ls.len() == 0 {
        (false, Seq::empty())
    } else {
        let (inside, ids) = partitions_state(ls.drop_last(), disk_id);
        let t = trim(ls.last());
        if contains(t, "AllDisksAndPartitions"@) || contains(t, "Partitions"@) {
            (true, ids)
        } else if inside && tagged(t, "<string>"@, "</string>"@) {
            let pid = untag(t, "<string>"@, "</string>"@);
            if contains(pid, "s"@) && pid != disk_id {
                (inside, ids.push(pid))
            } else {
                (inside, ids)
            }
        } else {
            (inside, ids)
        }
    }
}

/// The identifiers of the partitions of `disk_id` listed in `plist`.
pub open spec fn partition_ids(plist: Seq<char>, disk_id: Seq<char>) -> Seq<Seq<char>> {
    partitions_state(lines(plist), disk_id).1
}

/// The identifiers of the partitions in the output of
/// `diskutil list -plist DISK`: after the partition list begins, the
/// `<string>` lines holding an `s` other than the disk's own identifier.
pub fn parse_partition_ids(plist: &str, disk_id: &str) -> (ids: Vec<String>)
    ensures
        strings_view(ids@) == partition_ids(plist@, disk_id@),
{
    let v = chars_of(plist);
    let ls = line_ranges(&v);
    let ghost p = pieces(v@, ls@);
    let key1 = chars_of("AllDisksAndPartitions");
    let key2 = chars_of("Partitions");
    let open = chars_of("<string>");
    let close = chars_of("</string>");
    let ess = chars_of("s");
    let disk = chars_of(disk_id);
    let mut inside = false;
    let mut ids: Vec<String> = Vec::new();
    let mut k: usize = 0;
    assert(p.take(0) =~= Seq::<Seq<char>>::empty());
    assert(strings_view(ids@) =~= Seq::<Seq<char>>::empty());
    while k < ls.len()
        invariant
            k <= ls@.len(),
            p == pieces(v@, ls@),
            p == lines(plist@),
            v@ == plist@,
            ranges_within(v@, ls@),
            key1@ == "AllDisksAndPartitions"@,
            key2@ == "Partitions"@,
            open@ == "<string>"@,
            close@ == "</string>"@,
            ess@ == "s"@,
            disk@ == disk_id@,
            partitions_state(p.take(k as int), disk_id@) == (inside, strings_view(ids@)),
        decreases ls@.len() - k,
    {
        let (x, y) = ls[k];
        assert(x <= y <= v@.len());
        assert(p.take(k + 1).drop_last() =~= p.take(k as int));
        assert(p.take(k + 1).last() == v@.subrange(x as int, y as int));
        let (a, b) = trim_range(&v, x, y);
        if range_contains(&v, a, b, &key1) || range_contains(&v, a, b, &key2) {
            inside = true;
        } else if inside && range_starts_with(&v, a, b, &open) && range_ends_with(&v, a, b, &close) {
            let (c, d) = untag_range(&v, a, b, &open, &close);
            if range_contains(&v, c, d, &ess) && !range_eq(&v, c, d, &disk) {
                let id = substring(plist, c, d);
                let ghost before = strings_view(ids@);
                ids.push(id);
                assert(strings_view(ids@) =~= before.push(id@));
            }
        }
        k = k + 1;
    }
    assert(p.take(ls@.len() as int) =~= p);
    ids
}

/// A string value, or `default` when there is none.
pub open spec fn string_or(o: Option<Seq<char>>, default: Seq<char>) -> Seq<char> {
    match o {
        Some(s) => s,
        None => default,
    }
}

/// What `diskutil info -plist DISK` says of a disk.
#[derive(Debug)]
pub struct MacDiskInfo {
    pub name: String,
    pub mount_point: String,
    pub size: u64,
    pub free: u64,
    pub file_system: String,
    pub removable: bool,
}

/// Reads the description of a disk from `diskutil info -plist DISK`: its
/// media name (default "USB Drive"), mount point (default none), total size
/// and free space (the APFS container's when the volume's is missing;
/// default 0), file system, and whether it is removable (default yes).
pub fn read_disk_info(info: &str) -> (d: MacDiskInfo)
    ensures
        d.name@ == string_or(plist_string(info@, "MediaName"@), "USB Drive"@),
        d.mount_point@ == string_or(plist_string(info@, "MountPoint"@), Seq::empty()),
        d.size == match plist_integer(info@, "TotalSize"@) {
            Some(v) => v,
            None => 0u64,
        },
        d.free == match plist_integer(info@, "FreeSpace"@) {
            Some(v) => v,
            None => match plist_integer(info@, "APFSContainerFree"@) {
                Some(w) => w,
                None => 0u64,
            },
        },
        d.file_system@ == string_or(plist_string(info@, "FilesystemType"@), Seq::empty()),
        d.removable == match plist_bool(info@, "Removable"@) {
            Some(b) => b,
            None => true,
        },
{
    let name = match extract_plist_string(info, "MediaName") {
        Some(n) => n,
        None => String::from_str("USB Drive"),
    };
    let mount_point = match extract_plist_string(info, "MountPoint") {
        Some(m) => m,
        None => String::new(),
    };
    let size = match extract_plist_integer(info, "TotalSize") {
        Some(v) => v,
        None => 0,
    };
    let free = match extract_plist_integer(info, "FreeSpace") {
        Some(v) => v,
        None => match extract_plist_integer(info, "APFSContainerFree") {
            Some(w) => w,
            None => 0,
        },
    };
    let file_system = match extract_plist_string(info, "FilesystemType") {
        Some(f) => f,
        None => String::new(),
    };
    let removable = match extract_plist_bool(info, "Removable") {
        Some(b) => b,
        None => true,
    };
    MacDiskInfo { name, mount_point, size, free, file_system, removable }
}

impl MacDiskInfo {
    /// Whether the whole disk is mounted; otherwise its partitions are looked at.
    pub fn is_mounted(&self) -> (b: bool)
        ensures
            b == (self.mount_point@.len() > 0),
    {
        self.mount_point.as_str().unicode_len() > 0
    }
}

/// The drive for a mounted whole disk `disk_id`.
pub fn whole_disk_drive(disk_id: &str, d: &MacDiskInfo) -> (r: DriveInfo)
    ensures
        r@ == (DriveView {
            name: d.name@,
            path: "/dev/"@ + disk_id@,
            mount_point: d.mount_point@,
            serial: Seq::empty(),
            capacity_bytes: d.size,
            free_bytes: d.free,
            file_system: d.file_system@,
            is_removable: d.removable,
        }),
{
    DriveInfo {
        name: d.name.clone(),
        path: String::from_str("/dev/").concat(disk_id),
        mount_point: d.mount_point.clone(),
        serial: String::new(),
        capacity_bytes: d.size,
        free_bytes: d.free,
        file_system: d.file_system.clone(),
        is_removable: d.removable,
    }
}

/// The drive for a partition of the disk `disk_id`, described by
/// `diskutil info -plist PARTITION`: present when the partition is mounted;
/// its size and free space default to the disk's.
pub fn partition_drive(disk_id: &str, d: &MacDiskInfo, part_info: &str) -> (r: Option<DriveInfo>)
    ensures
        match r {
            Some(drive) => {
                &&& plist_string(part_info@, "MountPoint"@) == Some(drive.mount_point@)
                &&& drive.mount_point@.len() > 0
                &&& drive@ == (DriveView {
                    name: d.name@,
                    path: "/dev/"@ + disk_id@,
                    mount_point: drive.mount_point@,
                    serial: Seq::empty(),
                    capacity_bytes: match plist_integer(part_info@, "TotalSize"@) {
                        Some(v) => v,
                        None => d.size,
                    },
                    free_bytes: match plist_integer(part_info@, "FreeSpace"@) {
                        Some(v) => v,
                        None => d.free,
                    },
                    file_system: string_or(plist_string(part_info@, "FilesystemType"@), Seq::empty()),
                    is_removable: d.removable,
                })
            },
            None => match plist_string(part_info@, "MountPoint"@) {
                Some(mp) => mp.len() == 0,
                None => true,
            },
        },
{
    match extract_plist_string(part_info, "MountPoint") {
        Some(mp) => {
            if mp.as_str().unicode_len() == 0 {
                return None;
            }
            let file_system = match extract_plist_string(part_info, "FilesystemType") {
                Some(f) => f,
                None => String::new(),
            };
            let capacity_bytes = match extract_plist_integer(part_info, "TotalSize") {
                Some(v) => v,
                None => d.size,
            };
            let free_bytes = match extract_plist_integer(part_info, "FreeSpace") {
                Some(v) => v,
                None => d.free,
            };
            Some(
                DriveInfo {
                    name: d.name.clone(),
                    path: String::from_str("/dev/").concat(disk_id),
                    mount_point: mp,
                    serial: String::new(),
                    capacity_bytes,
                    free_bytes,
                    file_system,
                    is_removable: d.removable,
                },
            )
        },
        None => None,
    }
}

} // verus!
