use ferromon::ranking::{place, rank};
use ferromon::scan::BySize;
use ferromon::text::{bytes_contain, bytes_start_with};

fn entries(sizes: &[u64]) -> Vec<(String, u64)> {
    sizes.iter().enumerate().map(|(i, s)| (format!("e{i}"), *s)).collect()
}

fn labels(v: &[(String, u64)]) -> Vec<&str> {
    v.iter().map(|e| e.0.as_str()).collect()
}

#[test]
fn rank_orders_and_keeps_ties_in_place() {
    let ranked = rank(&BySize, entries(&[5, 9, 5, 1, 9, 0]));
    assert_eq!(labels(&ranked), vec!["e1", "e4", "e0", "e2", "e3", "e5"]);
    assert!(rank(&BySize, Vec::<(String, u64)>::new()).is_empty());
}

#[test]
fn rank_agrees_with_a_stable_sort() {
    let mut x: u64 = 0xabcd_ef01_2345_6789;
    for round in 0..200 {
        let sizes: Vec<u64> = (0..(round % 40))
            .map(|_| {
                x ^= x << 13;
                x ^= x >> 7;
                x ^= x << 17;
                x % 6
            })
            .collect();
        let mut expected = entries(&sizes);
        expected.sort_by_key(|e| std::cmp::Reverse(e.1));
        assert_eq!(rank(&BySize, entries(&sizes)), expected);
    }
}

#[test]
fn place_puts_an_item_behind_its_equals() {
    let mut v = rank(&BySize, entries(&[9, 5, 5, 1]));
    place(&BySize, &mut v, ("new".to_string(), 5));
    assert_eq!(labels(&v), vec!["e0", "e1", "e2", "new", "e3"]);
    place(&BySize, &mut v, ("top".to_string(), 10));
    place(&BySize, &mut v, ("last".to_string(), 0));
    assert_eq!(labels(&v), vec!["top", "e0", "e1", "e2", "new", "e3", "last"]);
    let mut empty: Vec<(String, u64)> = Vec::new();
    place(&BySize, &mut empty, ("only".to_string(), 3));
    assert_eq!(labels(&empty), vec!["only"]);
}

#[test]
fn byte_search() {
    assert!(bytes_start_with(b"/run/user", b"/run"));
    assert!(bytes_start_with(b"/run", b"/run"));
    assert!(bytes_start_with(b"/run", b""));
    assert!(bytes_start_with(b"", b""));
    assert!(!bytes_start_with(b"/ru", b"/run"));
    assert!(!bytes_start_with(b"x/run", b"/run"));
    assert!(bytes_contain(b"devtmpfs", b"tmpfs"));
    assert!(bytes_contain(b"tmpfs", b"tmpfs"));
    assert!(bytes_contain(b"abc", b""));
    assert!(bytes_contain(b"", b""));
    assert!(!bytes_contain(b"", b"a"));
    assert!(!bytes_contain(b"tmpf", b"tmpfs"));
    assert!(!bytes_contain(b"tmp fs", b"tmpfs"));
    assert!(bytes_contain(b"aab", b"ab"));
    for text in ["", "a", "ab", "aab", "abab", "tmpfs", "xtmpfsx", "tmptmpfs"] {
        for pattern in ["", "a", "b", "ab", "ba", "tmpfs", "fs"] {
            assert_eq!(bytes_contain(text.as_bytes(), pattern.as_bytes()), text.contains(pattern));
            assert_eq!(bytes_start_with(text.as_bytes(), pattern.as_bytes()), text.starts_with(pattern));
        }
    }
}
