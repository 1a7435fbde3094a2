use adb_manager::listing::{insert_sorted, name_le, parse_listing, parse_listing_line, FileEntry};

fn listed_entries(entries: &[FileEntry]) -> Vec<(String, bool)> {
    entries.iter().map(|e| (e.name.clone(), e.is_dir)).collect()
}

fn item(name: &str, is_dir: bool) -> (String, bool) {
    (name.to_string(), is_dir)
}

#[test]
fn listing_scenario_directory_and_file() {
    let out = parse_listing(
        "total 8\ndrwxr-xr-x 2 root root 4096 Jan 1 00:00 Download\n-rw-r--r-- 1 root root 0 Jan 1 00:00 note.txt\n",
    );
    assert_eq!(listed_entries(&out), vec![item("Download", true), item("note.txt", false)]);
}

#[test]
fn listing_leaves_out_dot_entries() {
    let out = parse_listing(
        "total 3\ndrwxr-xr-x 2 r r 4096 Jan 1 00:00 .\ndrwxr-xr-x 2 r r 4096 Jan 1 00:00 ..\ndrwxr-xr-x 2 r r 4096 Jan 1 00:00 ...\n-rw-r--r-- 1 r r 0 Jan 1 00:00 .hidden\n",
    );
    assert_eq!(listed_entries(&out), vec![item("...", true), item(".hidden", false)]);
}

#[test]
fn listing_puts_directories_first_and_sorts_by_name() {
    let out = parse_listing(
        "-rw- 1 b.txt\ndrwx 2 zeta\n-rw- 1 a.txt\ndrwx 2 alpha\n-rw- 1 B.txt\ndrwx 2 Beta\n-rw- 1 a\n",
    );
    assert_eq!(
        listed_entries(&out),
        vec![
            item("Beta", true),
            item("alpha", true),
            item("zeta", true),
            item("B.txt", false),
            item("a", false),
            item("a.txt", false),
            item("b.txt", false),
        ]
    );
}

#[test]
fn listing_keeps_entries_that_occur_twice() {
    let out = parse_listing("-rw- x\n-rw- x\ndrwx x\n");
    assert_eq!(listed_entries(&out), vec![item("x", true), item("x", false), item("x", false)]);
}

#[test]
fn listing_is_the_same_as_a_stable_sort() {
    let names = ["q", "Q", "ab", "a", "é", "z", "10", "9", "\u{10000}", "\u{ffff}", "aa", ""];
    let mut text = String::new();
    let mut expected: Vec<(String, bool)> = Vec::new();
    for (i, n) in names.iter().enumerate() {
        if n.is_empty() {
            continue;
        }
        for k in 0..3 {
            let dir = (i + k) % 2 == 0;
            text.push_str(if dir { "d" } else { "-" });
            text.push_str("rwx 1 u g 0 ");
            text.push_str(n);
            text.push('\n');
            expected.push((n.to_string(), dir));
        }
    }
    expected.sort_by(|a, b| if a.1 == b.1 { a.0.cmp(&b.0) } else { b.1.cmp(&a.1) });
    assert_eq!(listed_entries(&parse_listing(&text)), expected);
}

#[test]
fn listing_line_kind_goes_by_first_character() {
    let e = parse_listing_line("drwxr-xr-x 2 root root 4096 Jan 1 00:00 Music").unwrap();
    assert_eq!((e.name.as_str(), e.is_dir), ("Music", true));
    let e = parse_listing_line("d").unwrap();
    assert_eq!((e.name.as_str(), e.is_dir), ("d", true));
    let e = parse_listing_line("dir_name_only").unwrap();
    assert_eq!((e.name.as_str(), e.is_dir), ("dir_name_only", true));
    let e = parse_listing_line("-rw-r--r-- 1 root root 0 Jan 1 00:00 d").unwrap();
    assert_eq!((e.name.as_str(), e.is_dir), ("d", false));
    let e = parse_listing_line(" drwx 2 x").unwrap();
    assert_eq!((e.name.as_str(), e.is_dir), ("x", false));
    let e = parse_listing_line("Drwx 2 x").unwrap();
    assert_eq!((e.name.as_str(), e.is_dir), ("x", false));
    let e = parse_listing_line("lrwxrwxrwx 1 root root 21 Jan 1 00:00 sdcard -> /storage/self/primary")
        .unwrap();
    assert_eq!((e.name.as_str(), e.is_dir), ("/storage/self/primary", false));
}

#[test]
fn listing_line_name_is_last_token() {
    let e = parse_listing_line("-rw-r--r-- 1 root root 0 Jan 1 00:00 my file.txt  ").unwrap();
    assert_eq!(e.name, "file.txt");
}

#[test]
fn listing_line_that_gives_nothing() {
    assert!(parse_listing_line("").is_none());
    assert!(parse_listing_line("total 8").is_none());
    assert!(parse_listing_line("total").is_none());
    assert!(parse_listing_line("totally.txt").is_none());
    assert!(parse_listing_line("   ").is_none());
    assert!(parse_listing_line("\r").is_none());
    assert!(parse_listing_line("drwx 2 .").is_none());
    assert!(parse_listing_line("drwx 2 ..").is_none());
    assert!(parse_listing_line(".").is_none());
    assert!(parse_listing_line("..").is_none());
    assert!(parse_listing_line(" total 8").is_some());
    assert!(parse_listing_line("tota").is_some());
    assert!(parse_listing_line("Total 8").is_some());
}

#[test]
fn listing_of_nothing_is_empty() {
    assert!(parse_listing("").is_empty());
    assert!(parse_listing("\n\n").is_empty());
    assert!(parse_listing("total 0\n").is_empty());
}

#[test]
fn listing_with_carriage_returns() {
    let out = parse_listing("total 8\r\ndrwx 2 b\r\n-rw- 1 a\r\n");
    assert_eq!(listed_entries(&out), vec![item("b", true), item("a", false)]);
}

#[test]
fn name_order_is_by_code_point() {
    assert!(name_le("", ""));
    assert!(name_le("", "a"));
    assert!(!name_le("a", ""));
    assert!(name_le("a", "a"));
    assert!(name_le("a", "ab"));
    assert!(!name_le("ab", "a"));
    assert!(name_le("Z", "a"));
    assert!(!name_le("a", "Z"));
    assert!(name_le("\u{ffff}", "\u{10000}"));
    assert!(!name_le("\u{10000}", "\u{ffff}"));
    let samples = ["", "a", "A", "ab", "b", "é", "e", "\u{ffff}", "\u{10000}", "~", "0", "10", "9"];
    for a in samples {
        for b in samples {
            assert_eq!(name_le(a, b), a <= b, "{:?} {:?}", a, b);
        }
    }
}

#[test]
fn entry_order_puts_directories_first() {
    let d = FileEntry { name: "z".to_string(), is_dir: true };
    let f = FileEntry { name: "a".to_string(), is_dir: false };
    assert!(d.no_later_than(&f));
    assert!(!f.no_later_than(&d));
    assert!(d.no_later_than(&d));
    assert!(f.no_later_than(&f));
}

#[test]
fn insert_sorted_goes_behind_equal_entries() {
    let mut list: Vec<FileEntry> = Vec::new();
    for (n, d) in [("m", false), ("a", false), ("z", true), ("m", false), ("b", true), ("zz", false)] {
        insert_sorted(&mut list, FileEntry { name: n.to_string(), is_dir: d });
    }
    assert_eq!(
        listed_entries(&list),
        vec![
            item("b", true),
            item("z", true),
            item("a", false),
            item("m", false),
            item("m", false),
            item("zz", false),
        ]
    );
}
