use adb_core::listing::{parse_listing, FileType};

const SAMPLE: &str = "total 24\n\
drwxr-xr-x  5 root root 4096 2024-01-01 12:00 .\n\
drwxr-xr-x 20 root root 4096 2024-01-01 12:00 ..\n\
-rw-r--r--  1 root root 1234 2024-01-01 12:00 notes.txt\n\
drwxrwx--x  3 system system 4096 2024-01-02 08:30 media\n\
lrwxrwxrwx  1 root root   21 2024-01-01 12:00 sdcard -> /storage/self/primary\n\
crw-rw-rw-  1 root root 1, 3 2024-01-01 12:00 null\n\
short line here\n";

#[test]
fn listing_skips_summary_dots_devices_and_short_lines() {
    let files = parse_listing(SAMPLE, "/");
    let names: Vec<&str> = files.iter().map(|f| f.name.as_str()).collect();
    assert_eq!(names, vec!["notes.txt", "media", "sdcard"]);
    for f in &files {
        assert_eq!(f.dir, "/");
    }
}

#[test]
fn listing_regular_file_has_size_and_permissions() {
    let files = parse_listing(SAMPLE, "/");
    assert!(matches!(files[0].file_type, FileType::File));
    assert_eq!(files[0].size, Some(1234));
    assert_eq!(files[0].permissions, "-rw-r--r--");
}

#[test]
fn listing_directory_has_no_size() {
    let files = parse_listing(SAMPLE, "/");
    assert!(matches!(files[1].file_type, FileType::Directory));
    assert_eq!(files[1].size, None);
}

#[test]
fn symlink_name_and_target_are_split() {
    let text = "lrwxrwxrwx 1 root root 4 2024-01-01 12:00 link -> target";
    let files = parse_listing(text, "/data");
    assert_eq!(files.len(), 1);
    assert_eq!(files[0].name, "link");
    match &files[0].file_type {
        FileType::Symlink { target } => assert_eq!(target, "target"),
        _ => panic!("expected a symlink"),
    }
    assert_eq!(files[0].size, Some(4));
}

#[test]
fn symlink_without_arrow_has_empty_target() {
    let text = "lrwxrwxrwx 1 root root 4 2024-01-01 12:00 dangling";
    let files = parse_listing(text, "/data");
    assert_eq!(files.len(), 1);
    assert_eq!(files[0].name, "dangling");
    match &files[0].file_type {
        FileType::Symlink { target } => assert_eq!(target, ""),
        _ => panic!("expected a symlink"),
    }
}

#[test]
fn truncated_lines_are_skipped() {
    let text = "-rw-r--r-- 1 root root 10 2024-01-01\n-rw-r--r--\n\n   \n";
    assert!(parse_listing(text, "/").is_empty());
}

#[test]
fn listing_is_the_same_when_parsed_again() {
    let a = parse_listing(SAMPLE, "/sdcard");
    let b = parse_listing(SAMPLE, "/sdcard");
    assert_eq!(a.len(), b.len());
    for (x, y) in a.iter().zip(b.iter()) {
        assert_eq!(x.name, y.name);
        assert_eq!(x.size, y.size);
        assert_eq!(x.permissions, y.permissions);
    }
}

#[test]
fn name_with_spaces_is_joined_by_single_spaces() {
    let text = "-rw-r--r-- 1 u g 7 2024-01-01 12:00 my   holiday  photo.jpg\r\n";
    let files = parse_listing(text, "/");
    assert_eq!(files[0].name, "my holiday photo.jpg");
}

#[test]
fn size_that_is_not_a_number_is_absent() {
    let text = "-rw-r--r-- 1 u g 7K 2024-01-01 12:00 a.bin";
    let files = parse_listing(text, "/");
    assert_eq!(files[0].size, None);
}

#[test]
fn dot_entries_never_appear() {
    let text = "-rw-r--r-- 1 u g 1 2024-01-01 12:00 .\nlrwxrwxrwx 1 u g 1 2024-01-01 12:00 .. -> /\n";
    assert!(parse_listing(text, "/").is_empty());
}

#[test]
fn parsing_a_rerendered_listing_gives_the_same_entries() {
    let first = parse_listing(SAMPLE, "/");
    let rendered: Vec<String> = first
        .iter()
        .map(|e| {
            let size = e.size.map(|n| n.to_string()).unwrap_or_else(|| "-".to_string());
            let arrow = match &e.file_type {
                FileType::Symlink { target } if !target.is_empty() => format!(" -> {}", target),
                _ => String::new(),
            };
            format!("{} 1 u g {} 2024-01-01 00:00 {}{}", e.permissions, size, e.name, arrow)
        })
        .collect();
    let second = parse_listing(&rendered.join("\n"), "/");
    assert_eq!(first.len(), second.len());
    for (a, b) in first.iter().zip(second.iter()) {
        assert_eq!(a.name, b.name);
        assert_eq!(a.size, b.size);
        assert_eq!(a.permissions, b.permissions);
        assert_eq!(format!("{:?}", kind(&a.file_type)), format!("{:?}", kind(&b.file_type)));
    }
}

fn kind(t: &FileType) -> (u8, String) {
    match t {
        FileType::File => (0, String::new()),
        FileType::Directory => (1, String::new()),
        FileType::Symlink { target } => (2, target.clone()),
    }
}
