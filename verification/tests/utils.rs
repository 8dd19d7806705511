use std::io::Read;
use std::path::Path;

use chrono::Utc;
use flate2::read::GzDecoder;

use logrotate::builder::{get_size, NoMaxSize, NoMinSize, Size};
use logrotate::clock::{
    duration_between, duration_since, get_file_age, get_file_age_at, has_crossed_rotation_time,
    has_crossed_rotation_time_at, max_age,
};
use logrotate::error::Error;
use logrotate::gzip::{copy_file, framed};
use logrotate::path::{
    active_name, dir_path, file_name_and_extension, join, log_file_path, rolled_log_path,
    rolled_log_path_at, split_file_path,
};
use logrotate::retention::{
    compress_old_files, compressed_name, is_rolled, remove_file_by_count, remove_files_by_age,
    remove_files_by_age_at, DirEntry,
};

const DAY: i64 = 24 * 3600 * 1000;

fn entry(name: &str, is_file: bool, created: i64) -> DirEntry {
    DirEntry { name: name.to_string(), is_file, created }
}

fn names(entries: &Vec<DirEntry>, positions: &Vec<usize>) -> Vec<String> {
    positions.iter().map(|i| entries[*i].name.clone()).collect()
}

fn remaining(entries: &Vec<DirEntry>, gone: &Vec<usize>) -> Vec<String> {
    let mut left = vec![];
    for (i, e) in entries.iter().enumerate() {
        if !gone.contains(&i) {
            left.push(e.name.clone());
        }
    }
    left
}

fn gunzip(bytes: &[u8]) -> Vec<u8> {
    let mut decoder = GzDecoder::new(bytes);
    let mut plain = vec![];
    decoder.read_to_end(&mut plain).unwrap();
    plain
}

#[test]
fn test_get_size() {
    let val = 10 as Size;
    assert_eq!(get_size(&val), Some(val));
    let val = "abcd";
    assert_eq!(get_size(&val), None);
    let val = 1_i32;
    assert_eq!(get_size(&val), None);
}

#[test]
fn test_get_size_of_markers() {
    assert_eq!(get_size(&NoMaxSize), None);
    assert_eq!(get_size(&NoMinSize), None);
    assert_eq!(get_size(&u64::MAX), Some(u64::MAX));
}

#[test]
fn test_has_crossed_rotation_time() {
    let next_rotation_time = Utc::now().timestamp_millis() + 5;
    assert_eq!(has_crossed_rotation_time(next_rotation_time), false);
    let next_rotation_time = Utc::now().timestamp_millis();
    assert_eq!(has_crossed_rotation_time(next_rotation_time), true);
    let next_rotation_time = Utc::now().timestamp_millis() - 1;
    assert_eq!(has_crossed_rotation_time(next_rotation_time), true);
}

#[test]
fn test_has_crossed_rotation_time_at() {
    assert_eq!(has_crossed_rotation_time_at(0, 1_000), false);
    assert_eq!(has_crossed_rotation_time_at(-5, 1_000), false);
    assert_eq!(has_crossed_rotation_time_at(1_001, 1_000), false);
    assert_eq!(has_crossed_rotation_time_at(1_000, 1_000), true);
    assert_eq!(has_crossed_rotation_time_at(1, 1_000), true);
    assert_eq!(has_crossed_rotation_time(0), false);
    assert_eq!(has_crossed_rotation_time(i64::MAX), false);
}

#[test]
fn test_log_file_path() {
    let path = log_file_path("", "output", "log");
    assert_eq!(path, "output.log");
    let path = log_file_path("logs", "output", "log");
    assert_eq!(path, "logs/output.log");
    let path = log_file_path(".", "output", "log");
    assert_eq!(path, "./output.log");
    let path = log_file_path("", "output", "");
    assert_eq!(path, "output");
    let path = log_file_path("logs", "output", "");
    assert_eq!(path, "logs/output");
}

#[test]
fn test_join() {
    assert_eq!(join("", "a.log"), "a.log");
    assert_eq!(join("logs", "a.log"), "logs/a.log");
    assert_eq!(join("logs/", "a.log"), "logs/a.log");
    assert_eq!(join("/", "a.log"), "/a.log");
    assert_eq!(join("logs", "/var/a.log"), "/var/a.log");
    assert_eq!(join("logs", ""), "logs/");
    assert_eq!(active_name("output", "log"), "output.log");
    assert_eq!(active_name("output", ""), "output");
    assert_eq!(dir_path(""), ".");
    assert_eq!(dir_path("logs"), "logs");
}

#[test]
fn test_rolled_log_path() {
    let path = rolled_log_path("", "output", "log", false);
    let path = Path::new(&path);
    let file_name = path.file_name().unwrap().to_string_lossy().to_string();
    assert_eq!(file_name.starts_with("output"), true);
    let extn = path.extension().unwrap().to_string_lossy().to_string();
    assert_eq!(extn, "log");
    let path = rolled_log_path("logs", "output", "log", false);
    let path = Path::new(&path);
    assert_eq!(path.display().to_string().starts_with("logs"), true);
    let file_name = path.file_name().unwrap().to_string_lossy().to_string();
    assert_eq!(file_name.starts_with("output"), true);
    let extn = path.extension().unwrap().to_string_lossy().to_string();
    assert_eq!(extn, "log");
    let path = rolled_log_path("logs", "output", "log", true);
    let path = Path::new(&path);
    assert_eq!(path.display().to_string().starts_with("logs"), true);
    let file_name = path.file_name().unwrap().to_string_lossy().to_string();
    assert_eq!(file_name.starts_with("output"), true);
    let extn = path.extension().unwrap().to_string_lossy().to_string();
    assert_eq!(extn, "gz");
    let path = rolled_log_path("logs", "output", "", true);
    let path = Path::new(&path);
    assert_eq!(path.display().to_string().starts_with("logs"), true);
    let file_name = path.file_name().unwrap().to_string_lossy().to_string();
    assert_eq!(file_name.starts_with("output"), true);
    let extn = path.extension().unwrap().to_string_lossy().to_string();
    assert_eq!(extn, "gz");
}

#[test]
fn test_rolled_log_path_at() {
    let stamp = "2024-03-02-03:22:36";
    assert_eq!(
        rolled_log_path_at("logs", "output", "log", stamp, false),
        "logs/output.2024-03-02-03:22:36.log"
    );
    assert_eq!(
        rolled_log_path_at("logs", "output", "log", stamp, true),
        "logs/output.2024-03-02-03:22:36.log.gz"
    );
    assert_eq!(
        rolled_log_path_at("", "output", "", stamp, false),
        "output.2024-03-02-03:22:36"
    );
    assert_eq!(
        rolled_log_path_at("/", "output", "", stamp, true),
        "/output.2024-03-02-03:22:36.gz"
    );
}

#[test]
fn test_rolled_log_path_holds_the_moment() {
    let before = Utc::now().format("%Y-%m-%d-%H").to_string();
    let path = rolled_log_path("logs", "output", "log", false);
    let after = Utc::now().format("%Y-%m-%d-%H").to_string();
    assert_eq!(path.len(), "logs/output.2024-03-02-03:22:36.log".len());
    assert!(path.starts_with("logs/output."));
    assert!(path.ends_with(".log"));
    let stamp = &path["logs/output.".len()..path.len() - ".log".len()];
    assert!(stamp.starts_with(&before) || stamp.starts_with(&after));
}

#[test]
fn test_split_file_path() {
    let (dir, file_name, extn) = split_file_path("./output.log");
    assert_eq!(dir, ".");
    assert_eq!(file_name, "output");
    assert_eq!(extn, "log");

    let (dir, file_name, extn) = split_file_path("/var/log/output.log");
    assert_eq!(dir, "/var/log");
    assert_eq!(file_name, "output");
    assert_eq!(extn, "log");

    let (dir, file_name, extn) = split_file_path("/var/log/output.2024-03-02-03:22:36.log.gz");
    assert_eq!(dir, "/var/log");
    assert_eq!(file_name, "output.2024-03-02-03:22:36.log");
    assert_eq!(extn, "gz");

    let (dir, file_name, extn) = split_file_path("/var/log/output");
    assert_eq!(dir, "/var/log");
    assert_eq!(file_name, "output");
    assert_eq!(extn, "");
}

fn split(path: &str) -> (String, String, String) {
    split_file_path(path)
}

fn triple(dir: &str, stem: &str, extn: &str) -> (String, String, String) {
    (dir.to_string(), stem.to_string(), extn.to_string())
}

#[test]
fn test_split_file_path_edges() {
    assert_eq!(split(""), triple("", "", ""));
    assert_eq!(split("output.log"), triple("", "output", "log"));
    assert_eq!(split("/output.log"), triple("/", "output", "log"));
    assert_eq!(split("logs//output.log"), triple("logs", "output", "log"));
    assert_eq!(split("//output.log"), triple("/", "output", "log"));
    assert_eq!(split("logs/./output.log"), triple("logs", "output", "log"));
    assert_eq!(split(".//output.log"), triple(".", "output", "log"));
    assert_eq!(split("logs/"), triple("", "logs", ""));
    assert_eq!(split("logs/."), triple("", "logs", ""));
    assert_eq!(split("var/logs.d//./"), triple("var", "logs", "d"));
    assert_eq!(split("logs/.."), triple("logs", "", ""));
    assert_eq!(split("/.."), triple("/", "", ""));
    assert_eq!(split("."), triple("", "", ""));
    assert_eq!(split("./"), triple("", "", ""));
    assert_eq!(split(".."), triple("", "", ""));
    assert_eq!(split("/"), triple("", "", ""));
    assert_eq!(split("//"), triple("", "", ""));
    assert_eq!(split(".hidden"), triple("", ".hidden", ""));
    assert_eq!(split("logs/.hidden.log"), triple("logs", ".hidden", "log"));
    assert_eq!(split("output."), triple("", "output.", ""));
    assert_eq!(split("..."), triple("", "...", ""));
    assert_eq!(split("a.b.c"), triple("", "a.b", "c"));
    assert_eq!(split("logs/j\u{fc}rgen.l\u{f6}g"), triple("logs", "j\u{fc}rgen", "l\u{f6}g"));
}

#[test]
fn test_split_agrees_with_std() {
    for text in [
        "",
        "output.log",
        "./output.log",
        "/var/log/output.log",
        "/var/log/output",
        "logs/output.2024-03-02-03:22:36.log.gz",
        ".hidden",
        "logs/.hidden.log",
        "/output.log",
        "a.b.c",
        "logs/",
        "logs/.",
        "logs//",
        "logs/./",
        "logs/..",
        "logs/../",
        "logs/../.",
        ".",
        "./",
        "./.",
        ".//.",
        "..",
        "../",
        "../..",
        "../a",
        "/",
        "//",
        "/.",
        "/./",
        "/..",
        "/a",
        "//a//",
        "/./a",
        "a//b",
        "a/./b",
        "a/././b/./",
        "./a",
        ".//a/.",
        "./a/b",
        "a/b/",
        "a/b/.",
        "a/../b",
        "..a",
        "a..",
        "...",
        "a/.b",
        "a/b.",
        "a/.b.c.",
        "x/./.",
    ] {
        let path = Path::new(text);
        let parent = path.parent().map(|v| v.display().to_string()).unwrap_or_default();
        let extn = path.extension().map(|v| v.to_string_lossy().to_string()).unwrap_or_default();
        let name = path.file_name().map(|v| v.to_string_lossy().to_string()).unwrap_or_default();
        let stem = if extn.is_empty() {
            name.clone()
        } else {
            name.strip_suffix(&extn).unwrap().strip_suffix(".").unwrap().to_string()
        };
        assert_eq!(split_file_path(text), (parent, stem, extn.clone()), "{:?}", text);
        assert_eq!(file_name_and_extension(text), (name, extn), "{:?}", text);
    }
}

#[test]
fn test_split_round_trip() {
    for (dir, stem, extn) in [
        ("", "output", "log"),
        ("logs", "output", "log"),
        ("/", "output", "log"),
        ("/var/log", "output", ""),
        ("logs", "out.put.2024", "log"),
        (".", "output", "gz"),
        ("a/b/c", ".", "log"),
        (".", "output", "log"),
        ("..", "output", "log"),
        ("a/..", "output", ""),
    ] {
        let path = log_file_path(dir, stem, extn);
        assert_eq!(split(&path), triple(dir, stem, extn));
    }
    // A directory that ends in a separator comes back without it.
    assert_eq!(split(&log_file_path("logs/", "output", "log")), triple("logs", "output", "log"));
    // So does one that ends in a segment `.`.
    assert_eq!(split(&log_file_path("logs/.", "output", "log")), triple("logs", "output", "log"));
    // Without an extension a dot in the stem is read as one.
    assert_eq!(split(&log_file_path("logs", "out.put", "")), triple("logs", "out", "put"));
}

#[test]
fn test_file_name_and_extension() {
    assert_eq!(
        file_name_and_extension("logs/output.log"),
        ("output.log".to_string(), "log".to_string())
    );
    assert_eq!(file_name_and_extension("output"), ("output".to_string(), "".to_string()));
    assert_eq!(file_name_and_extension("logs/.."), ("".to_string(), "".to_string()));
    assert_eq!(
        file_name_and_extension("output.2024.log.gz"),
        ("output.2024.log.gz".to_string(), "gz".to_string())
    );
}

#[test]
fn test_max_age() {
    assert_eq!(max_age(1), 24 * 3600);
    assert_eq!(max_age(2), 2 * 24 * 3600);
}

#[test]
fn test_max_age_edges() {
    assert_eq!(max_age(0), 0);
    assert_eq!(max_age(u32::MAX), 4_294_967_295 * 86_400);
}

#[test]
fn test_get_file_age() {
    let long_ago = Utc::now().timestamp_millis() - 5_000;
    assert_eq!(get_file_age(false, long_ago), 0);
    assert_eq!(get_file_age(true, long_ago) > 0, true);
}

#[test]
fn test_get_file_age_at() {
    assert_eq!(get_file_age_at(true, 1_000, 61_999), 60);
    assert_eq!(get_file_age_at(true, 1_000, 62_000), 61);
    assert_eq!(get_file_age_at(false, 1_000, 62_000), 0);
    assert_eq!(get_file_age_at(true, 62_000, 1_000), 0);
    assert_eq!(get_file_age_at(true, 1_000, 1_000), 0);
}

#[test]
fn test_duration() {
    assert_eq!(duration_between(10_000, 4_000), 6);
    assert_eq!(duration_between(10_000, 10_001), 0);
    assert_eq!(duration_between(999, 0), 0);
    assert_eq!(duration_between(i64::MAX, i64::MIN), 18_446_744_073_709_551);
    assert_eq!(duration_since(Utc::now().timestamp_millis() + 60_000), 0);
    let passed = duration_since(Utc::now().timestamp_millis() - 90_000);
    assert!(passed == 90 || passed == 91);
}

#[test]
fn test_copy_file() {
    let mut src = vec![];
    for i in 0..200 {
        src.extend_from_slice(format!("some dummy text, line {}\n", i).as_bytes());
    }
    {
        let copy = copy_file(&src, false).unwrap();
        assert_eq!(copy.len(), src.len());
        assert_eq!(copy, src);
    }
    {
        let copy = copy_file(&src, true).unwrap();
        assert_eq!(copy.len() > 0 && copy.len() <= src.len(), true);
        assert_ne!(copy, src);
        assert_eq!(&copy[..3], &[0x1f, 0x8b, 8]);
        assert_eq!(gunzip(&copy), src);
    }
}

#[test]
fn test_copy_file_of_nothing() {
    assert_eq!(copy_file(&[], false), Ok(vec![]));
    assert_eq!(copy_file(&[0x1f, 0x8b], false), Ok(vec![0x1f, 0x8b]));
    let copy = copy_file(&[], true).unwrap();
    assert_eq!(copy.len(), 20);
    assert_eq!(gunzip(&copy), Vec::<u8>::new());
}

#[test]
fn test_copy_file_is_repeatable() {
    let src = "the same bytes, the same stream\n".repeat(50).into_bytes();
    assert_eq!(copy_file(&src, true), copy_file(&src, true));
}

#[test]
fn test_framed() {
    assert_eq!(framed(Ok(vec![1, 2, 3])), Ok(vec![1, 2, 3]));
    let failure = std::io::Error::new(std::io::ErrorKind::Other, "encoder failed");
    assert_eq!(framed(Err(failure)), Err(Error::Compression));
}

#[test]
fn test_is_rolled() {
    assert_eq!(is_rolled("output.log", "output", "log"), false);
    assert_eq!(is_rolled("output1.log", "output", "log"), true);
    assert_eq!(is_rolled("output.2024-03-02-03:22:36.log", "output", "log"), true);
    assert_eq!(is_rolled("output.2024-03-02-03:22:36.log.gz", "output", "log"), true);
    assert_eq!(is_rolled("output3.txt", "output", "log"), false);
    assert_eq!(is_rolled("other.log", "output", "log"), false);
    assert_eq!(is_rolled("out.log", "output", "log"), false);
    assert_eq!(is_rolled("output", "output", ""), false);
    assert_eq!(is_rolled("output1", "output", ""), true);
    assert_eq!(is_rolled("output.", "output", ""), true);
    assert_eq!(is_rolled("output.2024-03-02-03:22:36", "output", ""), false);
    assert_eq!(is_rolled("output.2024-03-02-03:22:36.gz", "output", ""), true);
    assert_eq!(compressed_name("output1.log"), "output1.log.gz");
}

#[test]
fn test_compress_old_files() {
    {
        let entries = vec![
            entry("output.log", true, 1),
            entry("output1.log", true, 2),
            entry("output2.log", true, 3),
            entry("output3.txt", true, 4),
            entry("inner_dir", false, 5),
        ];
        let plain = compress_old_files(&entries, "output", "log");
        let mut files = remaining(&entries, &plain);
        for name in names(&entries, &plain) {
            files.push(compressed_name(&name));
        }
        assert_eq!(files.contains(&format!("output.log")), true);
        assert_eq!(files.contains(&format!("output.log.gz")), false);
        assert_eq!(files.contains(&format!("output1.log")), false);
        assert_eq!(files.contains(&format!("output1.log.gz")), true);
        assert_eq!(files.contains(&format!("output2.log")), false);
        assert_eq!(files.contains(&format!("output2.log.gz")), true);
        assert_eq!(files.contains(&format!("output3.txt")), true);
    }
    {
        let entries = vec![
            entry("processtestlog", true, 1),
            entry("processtestlog1", true, 2),
            entry("processtestlog2", true, 3),
            entry("someothertstfile.txt", true, 4),
        ];
        let plain = compress_old_files(&entries, "processtestlog", "");
        let mut files = remaining(&entries, &plain);
        for name in names(&entries, &plain) {
            files.push(compressed_name(&name));
        }
        assert_eq!(files.contains(&format!("processtestlog")), true);
        assert_eq!(files.contains(&format!("processtestlog.gz")), false);
        assert_eq!(files.contains(&format!("processtestlog1")), false);
        assert_eq!(files.contains(&format!("processtestlog1.gz")), true);
        assert_eq!(files.contains(&format!("processtestlog2")), false);
        assert_eq!(files.contains(&format!("processtestlog2.gz")), true);
        assert_eq!(files.contains(&format!("someothertstfile.txt")), true);
    }
}

#[test]
fn test_compress_old_files_skips_what_is_compressed() {
    let entries = vec![
        entry("output.1.log.gz", true, 1),
        entry("output.2.log", true, 2),
        entry("output.3.log", false, 3),
    ];
    assert_eq!(compress_old_files(&entries, "output", "log"), vec![1]);
    assert_eq!(compress_old_files(&vec![], "output", "log"), Vec::<usize>::new());
}

#[test]
fn test_remove_file_by_count() {
    {
        let file_name = "output";
        let file_extn = "log";
        let entries = vec![
            entry("inner_dir", false, 0),
            entry("output.log", true, 1),
            entry("output1.log", true, 2),
            entry("output2.log", true, 3),
            entry("output3.txt", true, 4),
        ];
        let doomed = remove_file_by_count(&entries, file_name, file_extn, 1);
        let files = remaining(&entries, &doomed);
        assert_eq!(files.len(), 4);
        assert_eq!(files.contains(&format!("output.log")), true);
        assert_eq!(files.contains(&format!("output1.log")), false);
        assert_eq!(files.contains(&format!("output2.log")), true);
        assert_eq!(files.contains(&format!("output3.txt")), true);
    }
    {
        let file_name = "output";
        let file_extn = "";
        let entries = vec![
            entry("output", true, 1),
            entry("output1", true, 2),
            entry("output2", true, 3),
            entry("output3.txt", true, 4),
        ];
        let doomed = remove_file_by_count(&entries, file_name, file_extn, 1);
        let files = remaining(&entries, &doomed);
        assert_eq!(files.len(), 3);
        assert_eq!(files.contains(&format!("output")), true);
        assert_eq!(files.contains(&format!("output1")), false);
        assert_eq!(files.contains(&format!("output2")), true);
        assert_eq!(files.contains(&format!("output3.txt")), true);
    }
    {
        let file_name = "output";
        let file_extn = "";
        assert_eq!(remove_file_by_count(&vec![], file_name, file_extn, 1), Vec::<usize>::new());
    }
}

#[test]
fn test_remove_file_by_count_takes_the_oldest_first() {
    let entries = vec![
        entry("output.e.log", true, 50),
        entry("output.a.log.gz", true, 10),
        entry("output.log", true, 1),
        entry("output.d.log", true, 40),
        entry("notes.txt", true, 2),
        entry("output.b.log", true, 20),
        entry("output.c.log", false, 5),
        entry("output.c.log.gz", true, 30),
    ];
    assert_eq!(remove_file_by_count(&entries, "output", "log", 5), Vec::<usize>::new());
    assert_eq!(remove_file_by_count(&entries, "output", "log", 9), Vec::<usize>::new());
    assert_eq!(remove_file_by_count(&entries, "output", "log", 4), vec![1]);
    assert_eq!(remove_file_by_count(&entries, "output", "log", 2), vec![1, 5, 7]);
    assert_eq!(remove_file_by_count(&entries, "output", "log", 0), vec![1, 5, 7, 3, 0]);
}

#[test]
fn test_remove_files_by_age() {
    let file_name = "output";
    let file_extn = "log";
    let now = Utc::now().timestamp_millis();
    let entries = vec![
        entry("inner_dir", false, now),
        entry("output.log", true, now - 4),
        entry("output1.log", true, now - 3),
        entry("output2.log", true, now - 2),
        entry("output3.txt", true, now - 1),
    ];
    let doomed = remove_files_by_age(&entries, file_name, file_extn, 1);
    let files = remaining(&entries, &doomed);
    assert_eq!(files.len(), 5);
    assert_eq!(files.contains(&format!("output.log")), true);
    assert_eq!(files.contains(&format!("output1.log")), true);
    assert_eq!(files.contains(&format!("output2.log")), true);
    assert_eq!(files.contains(&format!("output3.txt")), true);
}

#[test]
fn test_remove_files_by_age_removes_the_old() {
    let now = Utc::now().timestamp_millis();
    let entries = vec![
        entry("output.log", true, now - 10 * DAY),
        entry("output.old.log", true, now - 2 * DAY),
        entry("output.new.log", true, now - DAY / 2),
    ];
    assert_eq!(remove_files_by_age(&entries, "output", "log", 1), vec![1]);
    assert_eq!(remove_files_by_age(&entries, "output", "log", 0), vec![1, 2]);
    assert_eq!(remove_files_by_age(&entries, "output", "log", 2), Vec::<usize>::new());
}

#[test]
fn test_remove_files_by_age_at() {
    let now = 100 * DAY;
    let entries = vec![
        entry("max-age.log", true, now - 20 * DAY),
        entry("max-age.1.log", true, now - DAY),
        entry("max-age.2.log", true, now - 2 * DAY),
        entry("max-age.4.log.gz", true, now - 4 * DAY),
        entry("max-age.10.log", true, now - 10 * DAY),
        entry("max-age.11.txt", true, now - 11 * DAY),
        entry("max-age.12.log", false, now - 12 * DAY),
        entry("max-age.3.log", true, now - 3 * DAY),
        entry("max-age.3s.log", true, now - 3 * DAY - 1_000),
    ];
    assert_eq!(remove_files_by_age_at(&entries, "max-age", "log", 3, now), vec![3, 4, 8]);
    assert_eq!(remove_files_by_age_at(&entries, "max-age", "log", 10, now), Vec::<usize>::new());
    assert_eq!(
        remove_files_by_age_at(&entries, "max-age", "log", 0, now),
        vec![1, 2, 3, 4, 7, 8]
    );
}
