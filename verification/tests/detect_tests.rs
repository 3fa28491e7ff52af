use udisk_inspector::drive::{find_drive, find_drive_by, DriveInfo};
use udisk_inspector::plist::{
    extract_plist_bool, extract_plist_integer, extract_plist_string, parse_partition_ids,
    parse_whole_disks, partition_drive, read_disk_info, whole_disk_drive,
};
use udisk_inspector::wmi::{join_wmi_records, WmiAssociation, WmiDiskDrive, WmiLogicalDisk};
use udisk_inspector::wmic::{
    apply_physical_disk_names, merge_wmi_drives, parse_df_free_space, parse_logicaldisk_csv,
    parse_wmic_free_space,
};

const INFO: &str = "<?xml version=\"1.0\" encoding=\"UTF-8\"?>
<plist version=\"1.0\">
<dict>
\t<key>FilesystemType</key>
\t<string>msdos</string>
\t<key>FreeSpace</key>
\t<integer>31000000000</integer>
\t<key>MediaName</key>
\t<string>SanDisk Ultra</string>
\t<key>MountPoint</key>
\t<string>/Volumes/UNTITLED</string>
\t<key>Removable</key>
\t<false/>
\t<key>TotalSize</key>
\t<integer>32015679488</integer>
</dict>
</plist>
";

fn drive(name: &str, path: &str, serial: &str) -> DriveInfo {
    DriveInfo {
        name: name.to_string(),
        path: path.to_string(),
        mount_point: format!("{}\\", path),
        serial: serial.to_string(),
        capacity_bytes: 100,
        free_bytes: 50,
        file_system: "FAT32".to_string(),
        is_removable: true,
    }
}

#[test]
fn plist_values() {
    assert_eq!(extract_plist_string(INFO, "MediaName"), Some("SanDisk Ultra".to_string()));
    assert_eq!(extract_plist_string(INFO, "FilesystemType"), Some("msdos".to_string()));
    assert_eq!(extract_plist_integer(INFO, "TotalSize"), Some(32015679488));
    assert_eq!(extract_plist_bool(INFO, "Removable"), Some(false));
    assert_eq!(extract_plist_string(INFO, "TotalSize"), None);
    assert_eq!(extract_plist_integer(INFO, "MediaName"), None);
    assert_eq!(extract_plist_bool(INFO, "MediaName"), None);
    assert_eq!(extract_plist_string(INFO, "Missing"), None);
    assert_eq!(extract_plist_integer("<key>X</key>", "X"), None);
}

#[test]
fn plist_value_quirks() {
    let p = "<key>A</key>\n<key>A</key>\n<string><string>v</string></string>\n";
    assert_eq!(extract_plist_string(p, "A"), Some("v".to_string()));
    let p = "<key>N</key>\n  <integer>+12</integer>  \n";
    assert_eq!(extract_plist_integer(p, "N"), Some(12));
    let p = "<key>N</key>\n<integer>-3</integer>\n";
    assert_eq!(extract_plist_integer(p, "N"), None);
    let p = "<key>S</key>\n<string></string>\n";
    assert_eq!(extract_plist_string(p, "S"), Some(String::new()));
}

#[test]
fn whole_disks_of_listing() {
    let listing = "<dict>
\t<key>AllDisks</key>
\t<array>
\t\t<string>disk4</string>
\t\t<string>disk4s1</string>
\t</array>
\t<key>WholeDisks</key>
\t<array>
\t\t<string>disk4</string>
\t\t<string>disk5</string>
\t</array>
\t<key>Other</key>
\t<string>disk9</string>
</dict>
";
    assert_eq!(parse_whole_disks(listing), vec!["disk4".to_string(), "disk5".to_string()]);
    assert!(parse_whole_disks("").is_empty());
}

#[test]
fn partitions_of_listing() {
    let listing = "<dict>
\t<key>AllDisks</key>
\t<array>
\t\t<string>disk4</string>
\t</array>
\t<key>AllDisksAndPartitions</key>
\t<array>
\t\t<string>disk4</string>
\t\t<string>disk4s1</string>
\t\t<string>UNTITLED</string>
\t\t<string>disk4s2</string>
\t</array>
</dict>
";
    assert_eq!(
        parse_partition_ids(listing, "disk4"),
        vec!["disk4s1".to_string(), "disk4s2".to_string()]
    );
}

#[test]
fn disk_info_and_drives() {
    let d = read_disk_info(INFO);
    assert_eq!(d.name, "SanDisk Ultra");
    assert_eq!(d.mount_point, "/Volumes/UNTITLED");
    assert_eq!(d.size, 32015679488);
    assert_eq!(d.free, 31000000000);
    assert_eq!(d.file_system, "msdos");
    assert!(!d.removable);
    assert!(d.is_mounted());
    let w = whole_disk_drive("disk4", &d);
    assert_eq!(w.path, "/dev/disk4");
    assert_eq!(w.mount_point, "/Volumes/UNTITLED");
    assert_eq!(w.serial, "");
    assert_eq!(w.capacity_bytes, 32015679488);
}

#[test]
fn disk_info_defaults() {
    let d = read_disk_info("");
    assert_eq!(d.name, "USB Drive");
    assert_eq!(d.mount_point, "");
    assert_eq!(d.size, 0);
    assert_eq!(d.free, 0);
    assert_eq!(d.file_system, "");
    assert!(d.removable);
    assert!(!d.is_mounted());
    let apfs = "<key>APFSContainerFree</key>\n<integer>77</integer>\n";
    assert_eq!(read_disk_info(apfs).free, 77);
}

#[test]
fn partition_drive_from_info() {
    let d = read_disk_info("<key>TotalSize</key>\n<integer>1000</integer>\n");
    let p = partition_drive("disk4", &d, "<key>MountPoint</key>\n<string>/Volumes/P</string>\n").unwrap();
    assert_eq!(p.mount_point, "/Volumes/P");
    assert_eq!(p.path, "/dev/disk4");
    assert_eq!(p.capacity_bytes, 1000);
    assert_eq!(p.free_bytes, 0);
    assert_eq!(p.name, "USB Drive");
    assert!(partition_drive("disk4", &d, "<key>MountPoint</key>\n<string></string>\n").is_none());
    assert!(partition_drive("disk4", &d, "").is_none());
}

const LOGICAL: &str = "\r\r\nNode,Caption,Description,FileSystem,FreeSpace,Size,VolumeName,VolumeSerialNumber\r\r\nPC,E:,Removable Disk,FAT32,31000000000,32000000000,KINGSTON,1A2B3C4D\r\r\nPC,F:,, exFAT , 10 ,64000000000,,\r\r\nPC,G:,Removable Disk,,,0,,\r\r\nshort,row\r\r\n\r\r\n";

#[test]
fn logicaldisk_listing() {
    let ds = parse_logicaldisk_csv(LOGICAL);
    assert_eq!(ds.len(), 2);
    assert_eq!(ds[0].name, "KINGSTON");
    assert_eq!(ds[0].path, "E:");
    assert_eq!(ds[0].mount_point, "E:\\");
    assert_eq!(ds[0].serial, "1A2B3C4D");
    assert_eq!(ds[0].capacity_bytes, 32000000000);
    assert_eq!(ds[0].free_bytes, 31000000000);
    assert_eq!(ds[0].file_system, "FAT32");
    assert!(ds[0].is_removable);
    assert_eq!(ds[1].name, "Removable Disk");
    assert_eq!(ds[1].file_system, "exFAT");
    assert_eq!(ds[1].free_bytes, 10);
    assert_eq!(ds[1].serial, "");
}

#[test]
fn physical_names_need_one_disk() {
    let mut ds = parse_logicaldisk_csv(LOGICAL);
    ds.truncate(1);
    ds[0].serial = String::new();
    // the header row counts as a disk when the listing starts with a blank line
    let listing = "\r\r\nNode,Caption,SerialNumber\r\r\nPC,Kingston DT,60A4\r\r\n";
    apply_physical_disk_names(&mut ds, listing);
    assert_eq!(ds[0].name, "KINGSTON");
    let listing = "Node,Caption,SerialNumber\r\nPC,Kingston DT,60A4\r\n";
    apply_physical_disk_names(&mut ds, listing);
    assert_eq!(ds[0].name, "Kingston DT");
    assert_eq!(ds[0].serial, "60A4");
    let listing = "Node,Caption,SerialNumber\r\nPC,Other,9999\r\n";
    apply_physical_disk_names(&mut ds, listing);
    assert_eq!(ds[0].name, "Other");
    assert_eq!(ds[0].serial, "60A4");
}

#[test]
fn wmi_names_are_merged_by_path() {
    let mut ds = vec![drive("Removable Disk", "E:", ""), drive("Stick", "F:", "OLD")];
    let ws = vec![drive("Kingston DT", "E:", "XYZ"), drive("Removable Disk", "F:", "NEW"), drive("Z", "Z:", "Q")];
    merge_wmi_drives(&mut ds, &ws);
    assert_eq!(ds.len(), 2);
    assert_eq!(ds[0].name, "Kingston DT");
    assert_eq!(ds[0].serial, "XYZ");
    assert_eq!(ds[1].name, "Stick");
    assert_eq!(ds[1].serial, "OLD");
}

#[test]
fn free_space_outputs() {
    assert_eq!(parse_wmic_free_space("\r\r\nFreeSpace=31000000000\r\r\n\r\r\n"), Ok(31000000000));
    assert_eq!(parse_wmic_free_space("FreeSpace=\r\nFreeSpace= 7 \r\n"), Ok(7));
    assert_eq!(
        parse_wmic_free_space("No Instance(s) Available.\r\n"),
        Err("Could not determine free space".to_string())
    );
    let df = "Filesystem     1B-blocks  Used   Available Use% Mounted on\n/dev/sdb1    31000000000  1000 30999999000   1% /media/usb\n";
    assert_eq!(parse_df_free_space(df), Ok(30999999000));
    assert_eq!(parse_df_free_space("Filesystem\n"), Err("Could not determine free space".to_string()));
    assert_eq!(parse_df_free_space("h\n/dev/x 1 2 abc\n"), Err("Could not determine free space".to_string()));
}

#[test]
fn wmi_records_are_joined() {
    let disks = vec![
        WmiDiskDrive {
            caption: Some("Kingston DataTraveler 3.0 USB Device".to_string()),
            device_id: Some("\\\\.\\PHYSICALDRIVE1".to_string()),
            interface_type: Some("USB".to_string()),
            serial_number: None,
            size: Some("32000000000".to_string()),
        },
        WmiDiskDrive { caption: None, device_id: None, interface_type: None, serial_number: None, size: None },
    ];
    let d2p = vec![
        WmiAssociation {
            antecedent: Some("\\\\HOST\\root\\cimv2:Win32_DiskDrive.DeviceID=\"\\\\\\\\.\\\\PHYSICALDRIVE0\"".to_string()),
            dependent: Some("\\\\HOST\\root\\cimv2:Win32_DiskPartition.DeviceID=\"Disk #0, Partition #0\"".to_string()),
        },
        WmiAssociation {
            antecedent: Some("\\\\HOST\\root\\cimv2:Win32_DiskDrive.DeviceID=\"\\\\\\\\.\\\\PHYSICALDRIVE1\"".to_string()),
            dependent: Some("\\\\HOST\\root\\cimv2:Win32_DiskPartition.DeviceID=\"Disk #1, Partition #0\"".to_string()),
        },
    ];
    let p2l = vec![
        WmiAssociation {
            antecedent: Some("\\\\HOST\\root\\cimv2:Win32_DiskPartition.DeviceID=\"Disk #0, Partition #0\"".to_string()),
            dependent: Some("\\\\HOST\\root\\cimv2:Win32_LogicalDisk.DeviceID=\"C:\"".to_string()),
        },
        WmiAssociation {
            antecedent: Some("\\\\HOST\\root\\cimv2:Win32_DiskPartition.DeviceID=\"Disk #1, Partition #0\"".to_string()),
            dependent: Some("\\\\HOST\\root\\cimv2:Win32_LogicalDisk.DeviceID=\"E:\"".to_string()),
        },
    ];
    let lds = vec![
        WmiLogicalDisk {
            device_id: Some("C:".to_string()),
            file_system: Some("NTFS".to_string()),
            free_space: Some("1".to_string()),
            size: Some("2".to_string()),
            volume_name: None,
            volume_serial_number: None,
            drive_type: Some(3),
        },
        WmiLogicalDisk {
            device_id: Some("E:".to_string()),
            file_system: Some("FAT32".to_string()),
            free_space: Some("31000000000".to_string()),
            size: Some("32000000000".to_string()),
            volume_name: Some("KINGSTON".to_string()),
            volume_serial_number: Some("1A2B3C4D".to_string()),
            drive_type: Some(2),
        },
    ];
    let ds = join_wmi_records(&disks, &d2p, &p2l, &lds);
    assert_eq!(ds.len(), 1);
    assert_eq!(ds[0].name, "Kingston DataTraveler 3.0 USB Device");
    assert_eq!(ds[0].path, "E:");
    assert_eq!(ds[0].mount_point, "E:\\");
    assert_eq!(ds[0].serial, "1A2B3C4D");
    assert_eq!(ds[0].capacity_bytes, 32000000000);
    assert_eq!(ds[0].free_bytes, 31000000000);
    assert_eq!(ds[0].file_system, "FAT32");
    assert!(join_wmi_records(&vec![], &d2p, &p2l, &lds).is_empty());
}

#[test]
fn drive_lookup() {
    let mut ds = vec![drive("A", "E:", ""), drive("B", "F:", "")];
    ds[1].mount_point = "/Volumes/B".to_string();
    assert_eq!(find_drive(&ds, "E:"), Some(0));
    assert_eq!(find_drive(&ds, "E:\\"), Some(0));
    assert_eq!(find_drive(&ds, "/Volumes/B"), Some(1));
    assert_eq!(find_drive(&ds, "G:"), None);
    assert_eq!(find_drive_by(&ds, "nope", "/Volumes/B"), Some(1));
}
