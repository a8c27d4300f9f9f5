use clamtk_rs::scanner::ScanType;
use clamtk_rs::utils::{
    can_truncate, format_size, home_from_passwd, real_home_dir, os_release_is_ubuntu, scan_type_display, snap_cvdcerts_dir,
    snap_database_dir, truncate_path, uid_from_status,
};

#[test]
fn short_path_is_kept() {
    assert_eq!(truncate_path("/tmp/a", 10), "/tmp/a");
    assert_eq!(truncate_path("abcdefghij", 10), "abcdefghij");
}

#[test]
fn long_path_loses_its_beginning() {
    assert!(can_truncate("abcdefghij", 8));
    assert_eq!(truncate_path("abcdefghij", 8), "...fghij");
    let long = "/home/user/Documents/projects/very/deep/directory/structure/file.txt";
    let t = truncate_path(long, 20);
    assert_eq!(t.len(), 20);
    assert_eq!(t, "...tructure/file.txt");
}

#[test]
fn cut_inside_a_character_cannot_be_made() {
    assert!(!can_truncate("ééééé", 6));
    assert!(can_truncate("ééééé", 7));
    assert_eq!(truncate_path("ééééé", 7), "...éé");
    assert!(!can_truncate("abc", 2));
    assert!(can_truncate("ab", 2));
}

#[test]
fn scan_types_have_history_names() {
    assert_eq!(scan_type_display(&ScanType::File), "File Scan");
    assert_eq!(scan_type_display(&ScanType::Directory), "Directory Scan");
    assert_eq!(scan_type_display(&ScanType::Home), "Home Directory Scan");
    assert_eq!(scan_type_display(&ScanType::FullSystem), "Full System Scan");
    assert_eq!(scan_type_display(&ScanType::Custom), "Custom Scan");
}

#[test]
fn snap_directories() {
    assert_eq!(snap_database_dir(Some("/home/u/snap/clamtk-rs/x1")).as_deref(), Some("/home/u/snap/clamtk-rs/x1/clamav"));
    assert_eq!(snap_database_dir(None), None);
    assert_eq!(snap_cvdcerts_dir(Some("/snap/clamtk-rs/12")).as_deref(), Some("/snap/clamtk-rs/12/etc/clamav/certs"));
    assert_eq!(snap_cvdcerts_dir(None), None);
}

#[test]
fn real_uid_is_the_first_field_of_the_uid_line() {
    let status = "Name:\tbash\nState:\tS (sleeping)\nUid:\t1000\t1001\t1000\t1000\nGid:\t1000\n";
    assert_eq!(uid_from_status(status), Some(1000));
    assert_eq!(uid_from_status("Name:\tbash\n"), None);
    assert_eq!(uid_from_status("Uid:\tabc\n"), None);
    assert_eq!(uid_from_status("Uid:\n"), None);
    assert_eq!(uid_from_status("Uid: 99999999999\n"), None);
}

#[test]
fn home_is_the_sixth_field_of_the_users_entry() {
    let passwd = "root:x:0:0:root:/root:/bin/bash\nshort:x:1000\nuser:x:1000:1000:User:/home/user:/bin/bash\n";
    assert_eq!(home_from_passwd(passwd, 1000).as_deref(), Some("/home/user"));
    assert_eq!(home_from_passwd(passwd, 0).as_deref(), Some("/root"));
    assert_eq!(home_from_passwd(passwd, 42), None);
}

#[test]
fn ubuntu_and_its_derivatives_are_recognised() {
    assert!(os_release_is_ubuntu("NAME=\"Ubuntu\"\nID=ubuntu\nID_LIKE=debian\n"));
    assert!(os_release_is_ubuntu("NAME=\"Linux Mint\"\nID=linuxmint\nID_LIKE=\"ubuntu debian\"\n"));
    assert!(os_release_is_ubuntu("NAME=\"Pop!_OS\"\nID=pop\nID_LIKE=\"ubuntu debian\"\n"));
    assert!(os_release_is_ubuntu("ID='ubuntu'\n"));
    assert!(!os_release_is_ubuntu("ID=\"ubuntu\n"));
    assert!(!os_release_is_ubuntu("ID_LIKE=\"debian\"\n"));
    assert!(os_release_is_ubuntu("ID=pop\nID_LIKE=ubuntu debian\n"));
    assert!(os_release_is_ubuntu("  ID= ubuntu  \n"));
    assert!(!os_release_is_ubuntu("ID=debian\n"));
    assert!(os_release_is_ubuntu("ID=\"ubuntu\"\n"));
    assert!(!os_release_is_ubuntu(""));
}

fn float_size(bytes: u64) -> String {
    const KB: u64 = 1024;
    const MB: u64 = KB * 1024;
    const GB: u64 = MB * 1024;
    if bytes >= GB {
        format!("{:.2} GB", bytes as f64 / GB as f64)
    } else if bytes >= MB {
        format!("{:.2} MB", bytes as f64 / MB as f64)
    } else if bytes >= KB {
        format!("{:.2} KB", bytes as f64 / KB as f64)
    } else {
        format!("{} B", bytes)
    }
}

#[test]
fn sizes_in_binary_units() {
    assert_eq!(format_size(0), "0 B");
    assert_eq!(format_size(1023), "1023 B");
    assert_eq!(format_size(1024), "1.00 KB");
    assert_eq!(format_size(1536), "1.50 KB");
    assert_eq!(format_size(1048576), "1.00 MB");
    assert_eq!(format_size(5 * 1073741824), "5.00 GB");
}

#[test]
fn halfway_sizes_round_to_the_even_digit() {
    assert_eq!(format_size(1152), "1.12 KB");
    assert_eq!(format_size(1152), float_size(1152));
    assert_eq!(format_size(1664), float_size(1664));
}

#[test]
fn sizes_agree_with_floating_point_formatting() {
    let mut samples: Vec<u64> = Vec::new();
    for b in 0..5000u64 {
        samples.push(b);
    }
    let mut x: u64 = 1;
    for _ in 0..200 {
        x = x.wrapping_mul(6364136223846793005).wrapping_add(1442695040888963407);
        samples.push(x);
        samples.push(x >> 10);
        samples.push(x >> 20);
        samples.push(x >> 34);
        samples.push(x >> 44);
    }
    for k in [10u32, 20, 30, 40, 52, 53, 54, 60, 63] {
        let p = 1u64 << k;
        for d in 0..4u64 {
            samples.push(p + d);
            samples.push(p - d);
            samples.push(p + p / 2 + d);
        }
    }
    samples.push(u64::MAX);
    samples.push(u64::MAX - 1024);
    samples.push((1u64 << 53) + 1);
    samples.push((1u64 << 54) + 2);
    samples.push((1u64 << 54) + 6);
    for b in samples {
        assert_eq!(format_size(b), float_size(b), "size {}", b);
    }
}

#[test]
fn home_inside_a_snap_comes_from_passwd() {
    let status = "Name:\tclamtk\nUid:\t1000\t1000\t1000\t1000\n";
    let passwd = "root:x:0:0:root:/root:/bin/bash\nuser:x:1000:1000:User:/home/user:/bin/bash\n";
    let snap_home = Some("/home/user/snap/clamtk-rs/7");
    assert_eq!(real_home_dir(true, Some(status), Some(passwd), snap_home), "/home/user");
    assert_eq!(real_home_dir(false, Some(status), Some(passwd), snap_home), "/home/user/snap/clamtk-rs/7");
    assert_eq!(real_home_dir(true, None, Some(passwd), snap_home), "/home/user/snap/clamtk-rs/7");
    assert_eq!(real_home_dir(true, Some(status), None, None), "/home");
    assert_eq!(real_home_dir(true, Some("Uid:\t42\n"), Some(passwd), Some("/h")), "/h");
}
