use superdeduper::numbers::{nearest_megabytes, quotient_string};
use superdeduper::paths::{
    components_of, file_name_of, for_user_display, names_of, path_push, path_push_all,
    path_starts_with, strip_verbatim_prefix, to_verbatim, under_any_root, volume_root_for, Platform,
};
use superdeduper::sort::stable_order;
use superdeduper::text::{
    byte_head_of, cut_left_of, cut_right_of, decimal_string, head_of, hex_string, padded_string,
    right_aligned_string, tail_of, wide_decimal_string,
};
use superdeduper::time::{clock_string, date_string, timestamp_string, unix_to_date};

fn texts(items: &[&str]) -> Vec<String> {
    items.iter().map(|s| s.to_string()).collect()
}

#[test]
fn numbers_are_written_in_decimal() {
    for n in [0u64, 7, 10, 999, 1_000, 65_535, u64::MAX] {
        assert_eq!(decimal_string(n), n.to_string());
        assert_eq!(padded_string(n, 4), format!("{n:04}"));
        assert_eq!(right_aligned_string(n, 6), format!("{n:>6}"));
    }
    assert_eq!(wide_decimal_string(u128::MAX), u128::MAX.to_string());
    assert_eq!(hex_string(0xBEEF, 8), "0000beef");
}

#[test]
fn quotients_match_floating_point_formatting() {
    let mut n: u64 = 1;
    let mut seen: u64 = 0;
    for step in 0..4_000u64 {
        n = n.wrapping_mul(6_364_136_223_846_793_005).wrapping_add(1_442_695_040_888_963_407);
        let value = n >> (step % 60);
        for unit in [1_000u64, 1_000_000, 1_000_000_000] {
            if value < unit || value / unit >= 9_000_000_000_000_000 {
                continue;
            }
            let exact = value as f64 / unit as f64;
            assert_eq!(quotient_string(value, unit, 0), format!("{exact:.0}"), "{value}/{unit}");
            assert_eq!(quotient_string(value, unit, 1), format!("{exact:.1}"), "{value}/{unit}");
            assert_eq!(quotient_string(value, unit, 2), format!("{exact:.2}"), "{value}/{unit}");
            assert_eq!(quotient_string(value, unit, 3), format!("{exact:.3}"), "{value}/{unit}");
            seen += 1;
        }
    }
    assert!(seen > 1_000);
}

#[test]
fn quotients_match_on_ties_and_large_counts() {
    for value in [
        1_050u64,
        1_150,
        1_250,
        1_350,
        2_500,
        3_500,
        12_345,
        (1 << 53) - 1,
        (1 << 53) + 1,
        (1 << 54) + 2,
        (1 << 54) + 6,
        8_999_999_999_999_999_487,
        8_999_999_999_999_998_464,
    ] {
        let exact = value as f64 / 1_000.0;
        for digits in 0..4usize {
            assert_eq!(quotient_string(value, 1_000, digits), format!("{exact:.digits$}"), "{value}");
        }
    }
}

#[test]
fn small_counts_divide_exactly() {
    assert_eq!(quotient_string(15_300, 1_000, 1), "15.3");
    assert_eq!(quotient_string(1_000_000, 1_000_000, 2), "1.00");
}

#[test]
fn megabytes_are_the_nearest() {
    for bytes in [0u64, 1, 524_288, 1_048_575, 1_048_576, 1_572_864, 99_999_999, u64::MAX] {
        let exact = bytes as f64 / 1_048_576.0;
        assert_eq!(nearest_megabytes(bytes).to_string(), format!("{exact:.0}"), "{bytes}");
    }
}

#[test]
fn dates_follow_the_calendar() {
    let leap = unix_to_date(951_782_400);
    assert_eq!((leap.year, leap.month, leap.day), (2000, 2, 29));
    let century = unix_to_date(4_107_542_400);
    assert_eq!((century.year, century.month, century.day), (2100, 3, 1));
    let before = unix_to_date(4_107_542_399);
    assert_eq!((before.year, before.month, before.day), (2100, 2, 28));
    assert_eq!(date_string(unix_to_date(0)), "1970-01-01");
    assert_eq!(clock_string(86_399), "23:59");
    assert_eq!(timestamp_string(1_779_408_061), "2026-05-22 00:01");
}

#[test]
fn different_days_have_different_dates() {
    let mut last = String::new();
    for day in 0..3_000u64 {
        let now = date_string(unix_to_date(day * 86_400));
        assert_ne!(now, last);
        assert_eq!(now, date_string(unix_to_date(day * 86_400 + 86_399)));
        last = now;
    }
}

#[test]
fn stable_order_keeps_equal_keys_in_place() {
    assert_eq!(stable_order(&vec![3, 1, 3, 0, 1]), vec![3, 1, 4, 0, 2]);
    assert_eq!(stable_order(&Vec::new()), Vec::<usize>::new());
}

#[test]
fn stable_order_agrees_with_a_stable_sort() {
    let mut seed: u64 = 9;
    for len in 0..60usize {
        let mut keys: Vec<i128> = Vec::new();
        for _ in 0..len {
            seed = seed.wrapping_mul(6_364_136_223_846_793_005).wrapping_add(1);
            keys.push(((seed >> 40) % 7) as i128 - 3);
        }
        let mut wanted: Vec<usize> = (0..len).collect();
        wanted.sort_by_key(|&p| keys[p]);
        assert_eq!(stable_order(&keys), wanted);
    }
}

#[test]
fn texts_are_cut_at_characters() {
    assert_eq!(head_of("äöü", 2), "äö");
    assert_eq!(tail_of("äöü", 2), "öü");
    assert_eq!(tail_of("ab", 5), "ab");
    assert_eq!(byte_head_of("äb", 1), ("".to_string(), false));
    assert_eq!(byte_head_of("äb", 2), ("ä".to_string(), false));
    assert_eq!(byte_head_of("äb", 3), ("äb".to_string(), true));
}

#[test]
fn cut_texts_fit() {
    assert_eq!(cut_right_of("abcdef", 4), "abc…");
    assert_eq!(cut_right_of("abcd", 4), "abcd");
    assert_eq!(cut_left_of("abcdef", 4), "…cdef");
    assert_eq!(cut_left_of("abcdef", 3), "…def");
    assert_eq!(cut_left_of("abcd", 4), "abcd");
    assert_eq!(cut_left_of("abcd", 1), "…d");
    assert_eq!(cut_left_of("abcd", 0), "…");
    for n in 1..8usize {
        assert!(cut_right_of("abcdef", n).chars().count() <= n);
        assert!(cut_left_of("abcdef", n).chars().count() <= n + 1);
    }
}

#[test]
fn components_drop_what_does_not_count() {
    assert_eq!(components_of(Platform::Unix, "/a//./b/"), texts(&["/", "a", "b"]));
    assert_eq!(components_of(Platform::Unix, "./a"), texts(&[".", "a"]));
    assert_eq!(names_of(Platform::Windows, r"C:\a/b"), texts(&["a", "b"]));
    assert_eq!(
        components_of(Platform::Windows, r"\\server\share\x"),
        components_of(Platform::Windows, "//server/share//x/")
    );
}

#[test]
fn a_path_starts_with_itself_and_its_parents() {
    for p in ["/", "/a/b", "a/b", ""] {
        assert!(path_starts_with(Platform::Unix, p, p));
    }
    assert!(path_starts_with(Platform::Unix, "/a/b/c", "/a/b"));
    assert!(path_starts_with(Platform::Unix, "/a/b", "/a"));
    assert!(path_starts_with(Platform::Unix, "/a/b/c", "/a"));
    assert!(!path_starts_with(Platform::Unix, "/ab", "/a"));
    assert!(path_starts_with(Platform::Windows, r"c:\x\y", r"C:\x"));
}

#[test]
fn roots_hold_what_lies_under_them() {
    let roots = texts(&["/a", "/b"]);
    assert!(under_any_root(Platform::Unix, "/b/x", &roots));
    assert!(!under_any_root(Platform::Unix, "/c", &roots));
    assert!(under_any_root(Platform::Unix, "/anything", &Vec::new()));
}

#[test]
fn names_are_the_last_component() {
    assert_eq!(file_name_of(Platform::Unix, "/a/b.txt"), Some("b.txt".to_string()));
    assert_eq!(file_name_of(Platform::Unix, "/"), None);
    assert_eq!(file_name_of(Platform::Unix, "/a/.."), None);
    assert_eq!(file_name_of(Platform::Windows, r"C:\x\"), Some("x".to_string()));
}

#[test]
fn pushing_replaces_absolute_paths() {
    assert_eq!(path_push(Platform::Unix, "/a", "/b"), "/b");
    assert_eq!(path_push(Platform::Unix, "/a/", "b"), "/a/b");
    assert_eq!(
        path_push_all(Platform::Windows, r"C:\", &texts(&["a", "b"])),
        r"C:\a\b"
    );
}

#[test]
fn verbatim_paths_go_there_and_back() {
    assert_eq!(to_verbatim(r"C:\a"), r"\\?\C:\a");
    assert_eq!(to_verbatim(r"\\?\C:\a"), r"\\?\C:\a");
    assert_eq!(for_user_display(&to_verbatim(r"C:\a")), r"C:\a");
    assert_eq!(strip_verbatim_prefix(Platform::Windows, r"\\?\UNC\s\p\f"), r"UNC\s\p\f");
    assert_eq!(strip_verbatim_prefix(Platform::Unix, r"\\?\C:\a"), r"\\?\C:\a");
}

#[test]
fn volume_roots_come_from_the_first_drive() {
    assert_eq!(
        volume_root_for(r"\\?\Volume{x}\", &texts(&[r"\\s\p\q", r"F:\GitHub"])),
        r"F:\"
    );
    assert_eq!(volume_root_for(r"\\?\Volume{x}\", &Vec::new()), r"\\?\Volume{x}");
}

#[test]
fn verbatim_paths_are_written_anew() {
    let push = |base: &str, part: &str| path_push(Platform::Windows, base, part);
    assert_eq!(push(r"\\?\C:\a", "."), r"\\?\C:\a");
    assert_eq!(push(r"\\?\C:\a", "b"), r"\\?\C:\a\b");
    assert_eq!(push(r"\\?\C:\a\", r"b/./c\\d"), r"\\?\C:\a\b\c\d");
    assert_eq!(push(r"\\?\C:\a\b", r"..\c"), r"\\?\C:\a\c");
    assert_eq!(push(r"\\?\C:\a", r"..\..\.."), r"\\?\C:\");
    assert_eq!(push(r"\\?\C:\a\.", ".."), r"\\?\C:\a\.");
    assert_eq!(push(r"\\?\C:\a\..", ".."), r"\\?\C:\a\..");
    assert_eq!(push(r"\\?\C:\a\b", "/c"), r"\\?\C:\c");
    assert_eq!(push(r"\\?\c:", "x"), r"\\?\c:\x");
    assert_eq!(push(r"\\?\c:", "."), r"\\?\c:");
    assert_eq!(push(r"\\?\Volume{1}", "x"), r"\\?\Volume{1}\x");
    assert_eq!(push(r"\\?\UNC\s\t\\a", "b"), r"\\?\UNC\s\t\a\b");
    assert_eq!(push(r"\\?\C:\a", ""), r"\\?\C:\a\");
    assert_eq!(push(r"\\?\C:\a", r"D:\b"), r"D:\b");
    assert_eq!(push(r"C:\a", "."), r"C:\a\.");
    assert_eq!(
        path_push_all(Platform::Windows, r"\\?\Volume{1}", &texts(&["a", "b"])),
        r"\\?\Volume{1}\a\b"
    );
}
