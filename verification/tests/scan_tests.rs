use dirlist::scan::{file_info_from_entry, scan, scan_from_entries, RawEntry};

fn dir_entry(name: &str) -> RawEntry {
    RawEntry {
        name: name.to_string(),
        is_dir: true,
        is_file: false,
        size: 0,
        mtime: None,
    }
}

fn file_entry(name: &str, size: u64, secs: u64, nanos: u32) -> RawEntry {
    RawEntry {
        name: name.to_string(),
        is_dir: false,
        is_file: true,
        size,
        mtime: Some((secs, nanos)),
    }
}

#[test]
fn classifies_dirs_and_files() {
    let entries = vec![
        dir_entry("sub1"),
        file_entry("a.txt", 10, 1_000_000_000, 0),
    ];
    let r = scan_from_entries("sample", &entries);
    assert_eq!(r.path, "sample");
    assert_eq!(r.dir, vec!["sub1".to_string()]);
    assert_eq!(r.files.len(), 1);
    assert_eq!(r.files[0].name, "a.txt");
    assert_eq!(r.files[0].size, 10);
    assert_eq!(r.files[0].last_modification, "2001-09-09 01:46:40 UTC");
}

#[test]
fn skips_other_kinds_and_unreadable_times() {
    let symlinkish = RawEntry {
        name: "link".to_string(),
        is_dir: false,
        is_file: false,
        size: 7,
        mtime: Some((0, 0)),
    };
    let no_mtime = RawEntry {
        name: "odd".to_string(),
        is_dir: false,
        is_file: true,
        size: 3,
        mtime: None,
    };
    let entries = vec![symlinkish, no_mtime, dir_entry("keep")];
    let r = scan_from_entries("x", &entries);
    assert_eq!(r.dir, vec!["keep".to_string()]);
    assert!(r.files.is_empty());
}

#[test]
fn keeps_enumeration_order() {
    let entries = vec![
        dir_entry("b"),
        file_entry("f2", 2, 10, 0),
        dir_entry("a"),
        file_entry("f1", 1, 20, 0),
    ];
    let r = scan_from_entries("p", &entries);
    assert_eq!(r.dir, vec!["b".to_string(), "a".to_string()]);
    assert_eq!(r.files[0].name, "f2");
    assert_eq!(r.files[1].name, "f1");
}

#[test]
fn file_info_reports_size_and_name() {
    let e = file_entry("data.bin", 12345, 1_600_000_000, 0);
    let fi = file_info_from_entry(&e).unwrap();
    assert_eq!(fi.name, "data.bin");
    assert_eq!(fi.size, 12345);
    assert_eq!(fi.last_modification, "2020-09-13 12:26:40 UTC");
}

#[test]
fn file_info_skips_non_files() {
    assert!(file_info_from_entry(&dir_entry("d")).is_none());
    let both_false = RawEntry {
        name: "x".to_string(),
        is_dir: false,
        is_file: false,
        size: 0,
        mtime: Some((0, 0)),
    };
    assert!(file_info_from_entry(&both_false).is_none());
}

#[test]
fn file_info_rejects_unrenderable_times() {
    let too_far = RawEntry {
        name: "x".to_string(),
        is_dir: false,
        is_file: true,
        size: 1,
        mtime: Some((u64::MAX, 0)),
    };
    assert!(file_info_from_entry(&too_far).is_none());
    let bad_nanos = RawEntry {
        name: "y".to_string(),
        is_dir: false,
        is_file: true,
        size: 1,
        mtime: Some((0, 2_000_000_000)),
    };
    assert!(file_info_from_entry(&bad_nanos).is_none());
}

#[test]
fn scan_of_missing_path_is_empty() {
    let r = scan("does-not-exist");
    assert_eq!(r.path, "does-not-exist");
    assert!(r.dir.is_empty());
    assert!(r.files.is_empty());
}

#[test]
fn scan_echoes_path() {
    let r = scan(".");
    assert_eq!(r.path, ".");
    assert!(r.dir.iter().any(|d| d == "src"));
}

#[test]
fn leap_second_nanos_only_on_a_leap_candidate() {
    let e = file_entry("z", 1, 59, 1_500_000_000);
    assert!(file_info_from_entry(&e).is_some());
    let e2 = file_entry("z", 1, 60, 1_500_000_000);
    assert!(file_info_from_entry(&e2).is_none());
}

#[test]
fn calendar_range_boundary() {
    let last = file_entry("m", 1, 8_210_266_876_799, 999_999_999);
    assert!(file_info_from_entry(&last).is_some());
    let past = file_entry("m", 1, 8_210_266_876_800, 0);
    assert!(file_info_from_entry(&past).is_none());
}

#[test]
fn missing_path_renders_empty_json() {
    let s = dirlist::scan::scan_path_to_json("does-not-exist");
    assert_eq!(
        s,
        "{\n  \"path\": \"does-not-exist\",\n  \"dir\": [],\n  \"files\": []\n}"
    );
}
