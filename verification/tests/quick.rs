use ferromon::quick::{format_item, is_bytes_before, scan_dir_quick, with_heading, DirItem};

fn file(name: &str, size: u64) -> DirItem {
    DirItem { name: name.to_string(), size: Some(size), is_dir: false }
}

fn dir(name: &str) -> DirItem {
    DirItem { name: name.to_string(), size: None, is_dir: true }
}

fn other(name: &str) -> DirItem {
    DirItem { name: name.to_string(), size: None, is_dir: false }
}

#[test]
fn item_lines() {
    assert_eq!(format_item(&dir("src")), "src/  (dir)");
    assert_eq!(format_item(&file("a.txt", 1536)), "a.txt  1.50 KiB");
    assert_eq!(format_item(&file("empty", 0)), "empty  0 B");
    assert_eq!(format_item(&other("link")), "link  0 B");
}

#[test]
fn files_by_size_then_directories_by_name() {
    let items = vec![
        dir("zeta"),
        file("small", 10),
        dir("alpha"),
        file("large", 5000),
        other("socket"),
        file("mid", 500),
    ];
    assert_eq!(
        scan_dir_quick(items, 10),
        vec![
            "large  4.88 KiB",
            "mid  500 B",
            "small  10 B",
            "socket  0 B",
            "alpha/  (dir)",
            "zeta/  (dir)",
        ]
    );
}

#[test]
fn equal_sizes_go_by_name() {
    let items = vec![file("b", 7), file("a", 7), file("B", 7), file("ab", 7), file("", 7)];
    assert_eq!(scan_dir_quick(items, 10), vec!["  7 B", "B  7 B", "a  7 B", "ab  7 B", "b  7 B"]);
}

#[test]
fn the_listing_is_cut_to_its_limit() {
    let items = vec![dir("d"), file("a", 1), file("b", 2), file("c", 3)];
    assert_eq!(scan_dir_quick(items.clone(), 2), vec!["c  3 B", "b  2 B"]);
    assert!(scan_dir_quick(items.clone(), 0).is_empty());
    assert_eq!(scan_dir_quick(items, 6).len(), 4);
    assert!(scan_dir_quick(Vec::new(), 6).is_empty());
}

#[test]
fn listing_agrees_with_a_sort_by_key() {
    let mut x: u64 = 0xfeed_beef_1234_5678;
    let mut items = Vec::new();
    for _ in 0..150 {
        x ^= x << 13;
        x ^= x >> 7;
        x ^= x << 17;
        let name: String = (0..(x % 4)).map(|k| (b'a' + ((x >> (8 * k)) % 3) as u8) as char).collect();
        let is_dir = (x >> 40) % 3 == 0;
        let size = if is_dir || (x >> 50) % 4 == 0 { None } else { Some((x >> 33) % 4) };
        items.push(DirItem { name, size, is_dir });
    }
    let mut expected = items.clone();
    expected.sort_by_key(|i| {
        (if i.is_dir { 1 } else { 0 }, std::cmp::Reverse(i.size.unwrap_or(0)), i.name.clone())
    });
    let expected: Vec<String> = expected.iter().map(format_item).collect();
    assert_eq!(scan_dir_quick(items, 1000), expected);
}

#[test]
fn order_of_dictionaries_on_bytes() {
    assert!(is_bytes_before(b"", b"a"));
    assert!(!is_bytes_before(b"", b""));
    assert!(!is_bytes_before(b"a", b""));
    assert!(is_bytes_before(b"a", b"b"));
    assert!(is_bytes_before(b"a", b"ab"));
    assert!(!is_bytes_before(b"ab", b"a"));
    assert!(is_bytes_before(b"Z", b"a"));
    assert!(!is_bytes_before(b"abc", b"abc"));
    assert!(is_bytes_before(b"abc", b"abd"));
    assert!(is_bytes_before("z".as_bytes(), "\u{e9}".as_bytes()));
    for a in ["", "a", "ab", "b", "\u{e9}", "a\u{e9}", "zz"] {
        for b in ["", "a", "ab", "b", "\u{e9}", "a\u{e9}", "zz"] {
            assert_eq!(is_bytes_before(a.as_bytes(), b.as_bytes()), a < b);
        }
    }
}

#[test]
fn heading_above_a_listing() {
    let lines = with_heading("CWD", "/home/me", vec!["a  1 B".to_string(), "d/  (dir)".to_string()]);
    assert_eq!(lines, vec!["CWD: /home/me", "a  1 B", "d/  (dir)"]);
}

#[test]
fn heading_above_an_empty_listing() {
    let lines = with_heading("/var", "/var", Vec::new());
    assert_eq!(lines, vec!["/var: /var", "(no entries)"]);
}
