use dirlist::data::{FileInfo, ScanResult};
use dirlist::jsonfmt::to_json;

fn sample() -> ScanResult {
    ScanResult {
        path: "sample".to_string(),
        dir: vec!["sub1".to_string()],
        files: vec![FileInfo {
            name: "a.txt".to_string(),
            size: 10,
            last_modification: "2001-09-09 01:46:40 UTC".to_string(),
        }],
    }
}

#[test]
fn renders_sample_directory() {
    let expected = "{\n  \"path\": \"sample\",\n  \"dir\": [\n    \"sub1\"\n  ],\n  \"files\": [\n    {\n      \"name\": \"a.txt\",\n      \"size\": 10,\n      \"last_modification\": \"2001-09-09 01:46:40 UTC\"\n    }\n  ]\n}";
    assert_eq!(to_json(&sample()), expected);
}

#[test]
fn renders_empty_result() {
    let r = ScanResult {
        path: "does-not-exist".to_string(),
        dir: vec![],
        files: vec![],
    };
    let expected = "{\n  \"path\": \"does-not-exist\",\n  \"dir\": [],\n  \"files\": []\n}";
    assert_eq!(to_json(&r), expected);
}

#[test]
fn escapes_special_characters() {
    let r = ScanResult {
        path: "a\"b\\c\nd".to_string(),
        dir: vec![],
        files: vec![],
    };
    let s = to_json(&r);
    let v: serde_json::Value = serde_json::from_str(&s).unwrap();
    assert_eq!(v["path"], serde_json::Value::String("a\"b\\c\nd".to_string()));
}

#[test]
fn output_is_valid_json() {
    let s = to_json(&sample());
    let v: serde_json::Value = serde_json::from_str(&s).unwrap();
    assert_eq!(v["path"], serde_json::Value::String("sample".to_string()));
    assert_eq!(v["dir"][0], serde_json::Value::String("sub1".to_string()));
    assert_eq!(v["files"][0]["name"], serde_json::Value::String("a.txt".to_string()));
    assert_eq!(v["files"][0]["size"], serde_json::Value::from(10u64));
}

#[test]
fn round_trip_is_structurally_equal() {
    let s = to_json(&sample());
    let decoded: serde_json::Value = serde_json::from_str(&s).unwrap();
    let reencoded = serde_json::to_string(&decoded).unwrap();
    let decoded_again: serde_json::Value = serde_json::from_str(&reencoded).unwrap();
    assert_eq!(decoded, decoded_again);
}

#[test]
fn renders_many_entries() {
    let r = ScanResult {
        path: "p".to_string(),
        dir: vec!["x".to_string(), "y".to_string()],
        files: vec![
            FileInfo {
                name: "f1".to_string(),
                size: 0,
                last_modification: "1970-01-01 00:00:00 UTC".to_string(),
            },
            FileInfo {
                name: "f2".to_string(),
                size: u64::MAX,
                last_modification: "1970-01-01 00:00:01 UTC".to_string(),
            },
        ],
    };
    let s = to_json(&r);
    let v: serde_json::Value = serde_json::from_str(&s).unwrap();
    assert_eq!(v["dir"].as_array().unwrap().len(), 2);
    assert_eq!(v["files"][1]["size"], serde_json::Value::from(u64::MAX));
    assert!(s.contains("18446744073709551615"));
}
