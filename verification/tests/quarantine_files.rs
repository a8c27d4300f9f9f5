use clamtk_rs::quarantine::{
    file_fingerprint, find_entry, marker_path, metadata_file, quarantine_dir,
    quarantine_file_name, restore_dir, restore_dir_of, restore_path, active_entries,
};
use clamtk_rs::clamav::freshclam_config_in;

#[test]
fn fingerprint_is_the_sha256_in_hex_and_its_prefix() {
    let (hash, id) = file_fingerprint(b"hello");
    assert_eq!(hash, "2cf24dba5fb0a30e26e83b2ac5b9e29e1b161e5c1fa7425e73043362938b9824");
    assert_eq!(hash.len(), 64);
    assert_eq!(id, "2cf24dba");
}

#[test]
fn fingerprint_of_nothing() {
    let (hash, id) = file_fingerprint(b"");
    assert_eq!(hash, "e3b0c44298fc1c149afbf4c8996fb92427ae41e4649b934ca495991b7852b855");
    assert_eq!(id, "e3b0c442");
}

#[test]
fn quarantined_copy_and_marker_names() {
    assert_eq!(quarantine_file_name("20250101_120000", "eicar.com"), "20250101_120000_eicar.com.quar");
    assert_eq!(marker_path("/home/u/eicar.com"), "/home/u/eicar.com.quarantined");
}

#[test]
fn quarantine_directory_and_its_metadata() {
    assert_eq!(metadata_file("/q"), "/q/metadata.json");
    assert_eq!(quarantine_dir(Some("/srv/q"), Some("/data")), "/srv/q");
    assert_eq!(quarantine_dir(None, Some("/home/u/.local/share")), "/home/u/.local/share/clamtk-rs/quarantine");
    assert_eq!(quarantine_dir(None, None), "/tmp/clamtk-rs/quarantine");
}

#[test]
fn entries_are_found_by_id() {
    let ids = vec!["aaaa".to_string(), "bbbb".to_string(), "bbbb".to_string()];
    assert_eq!(find_entry(&ids, "bbbb"), Some(1));
    assert_eq!(find_entry(&ids, "aaaa"), Some(0));
    assert_eq!(find_entry(&ids, "cccc"), None);
    assert_eq!(find_entry(&Vec::new(), "aaaa"), None);
}

#[test]
fn restored_file_avoids_the_new_one() {
    assert_eq!(restore_path("/home/u/doc.pdf", false, "20250101120000"), "/home/u/doc.pdf");
    assert_eq!(restore_path("/home/u/doc.pdf", true, "20250101120000"), "/home/u/doc.restored.20250101120000");
    assert_eq!(restore_path("/home/u/README", true, "1"), "/home/u/README.restored.1");
}

#[test]
fn restored_file_goes_back_to_its_directory() {
    assert_eq!(restore_dir("/home/u/doc.pdf"), "/home/u");
    assert_eq!(restore_dir("/doc.pdf"), "/");
    assert_eq!(restore_dir("/"), "/tmp");
    assert_eq!(restore_dir(""), "/tmp");
}

#[test]
fn restore_directory_from_a_parent() {
    assert_eq!(restore_dir_of(Some("/home/u".to_string())), "/home/u");
    assert_eq!(restore_dir_of(None), "/tmp");
}

#[test]
fn freshclam_config_beside_the_database() {
    assert_eq!(freshclam_config_in(Some("/home/u/snap/x/1".to_string())).as_deref(), Some("/home/u/snap/x/1/freshclam.conf"));
    assert_eq!(freshclam_config_in(None), None);
}

#[test]
fn restored_entries_are_not_listed() {
    assert_eq!(active_entries(&vec![false, true, false, true]), vec![0, 2]);
    assert_eq!(active_entries(&vec![true, true]), Vec::<usize>::new());
    assert_eq!(active_entries(&Vec::new()), Vec::<usize>::new());
}
