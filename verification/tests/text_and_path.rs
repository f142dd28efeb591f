use std::path::Path;

use brush_wasm::glob::{has_wildcard, matches_glob};
use brush_wasm::path::{file_name_of, join_paths, names_of, parent_of, path_is_absolute};
use brush_wasm::size::human_readable_size;
use brush_wasm::text::{
    begins_with, decimal_text, join_first, pad_text_left, parse_i32, same_text, split_at_char,
    strip_text_prefix, strip_text_suffix, text_has_prefix,
};

fn sample_paths() -> Vec<String> {
    let pieces = ["", ".", "..", "a", "b.c", "...", "ä"];
    let mut all: Vec<String> = Vec::new();
    for x in pieces {
        all.push(x.to_string());
        for y in pieces {
            all.push(format!("{x}/{y}"));
            for z in pieces {
                all.push(format!("{x}/{y}/{z}"));
                all.push(format!("{x}//{y}/{z}/"));
                all.push(format!("/{x}/{y}/{z}"));
            }
        }
    }
    all
}

#[test]
fn file_name_agrees_with_std() {
    for p in sample_paths() {
        let expected = Path::new(&p).file_name().map(|n| n.to_string_lossy().into_owned());
        assert_eq!(file_name_of(&p), expected, "{p:?}");
    }
}

#[test]
fn parent_agrees_with_std() {
    for p in sample_paths() {
        let expected = Path::new(&p).parent().map(|n| n.to_string_lossy().into_owned());
        assert_eq!(parent_of(&p), expected, "{p:?}");
    }
}

#[test]
fn join_agrees_with_std() {
    for base in ["", "/", "a", "a/", "/a/b", "."] {
        for p in sample_paths() {
            let expected = Path::new(base).join(&p).to_string_lossy().into_owned();
            assert_eq!(join_paths(base, &p), expected, "{base:?} {p:?}");
        }
    }
}

#[test]
fn absolute_agrees_with_std() {
    for p in sample_paths() {
        assert_eq!(path_is_absolute(&p), Path::new(&p).is_absolute(), "{p:?}");
    }
}

#[test]
fn names_agree_with_std_components() {
    for p in sample_paths() {
        let expected: Vec<String> = Path::new(&p)
            .components()
            .map(|c| c.as_os_str().to_string_lossy().into_owned())
            .filter(|c| c != "/")
            .collect();
        assert_eq!(names_of(&p), expected, "{p:?}");
    }
}

#[test]
fn parent_and_last_name_make_the_path() {
    for p in sample_paths() {
        if let Some(name) = file_name_of(&p) {
            let dir = parent_of(&p).unwrap();
            let again = join_paths(&dir, &name);
            assert_eq!(names_of(&again), names_of(&p));
            assert_eq!(path_is_absolute(&again), path_is_absolute(&p));
        }
    }
}

#[test]
fn split_and_join_again() {
    for s in ["", ":", "a", "a:b", "a::b:", ":ä:"] {
        let parts = split_at_char(s, ':');
        let expected: Vec<&str> = s.split(':').collect();
        assert_eq!(parts, expected);
        assert_eq!(join_first(&parts, parts.len(), ':'), s);
    }
    let parts = split_at_char("a/b/c", '/');
    assert_eq!(join_first(&parts, 2, '/'), "a/b");
    assert_eq!(join_first(&parts, 0, '/'), "");
}

#[test]
fn prefixes_and_suffixes() {
    assert!(text_has_prefix("abc", "ab"));
    assert!(text_has_prefix("abc", ""));
    assert!(!text_has_prefix("abc", "abd"));
    assert!(!text_has_prefix("ab", "abc"));
    assert_eq!(strip_text_prefix("abc", "ab"), Some("c".to_string()));
    assert_eq!(strip_text_prefix("abc", "b"), None);
    assert_eq!(strip_text_suffix("abc", "bc"), Some("a".to_string()));
    assert_eq!(strip_text_suffix("abc", "ab"), None);
    assert_eq!(strip_text_suffix("c", "abc"), None);
    assert!(same_text("", ""));
    assert!(!same_text("a", "b"));
    assert!(begins_with("-x", '-'));
    assert!(!begins_with("", '-'));
}

#[test]
fn decimal_numbers() {
    for n in [0u64, 7, 10, 99, 100, 1234567890, u64::MAX] {
        assert_eq!(decimal_text(n), format!("{n}"));
        assert_eq!(pad_text_left(&decimal_text(n), 8), format!("{n:>8}"));
    }
}

#[test]
fn decimal_texts_are_read_back() {
    for n in [0i32, 1, 9, 10, 255, 65536, i32::MAX] {
        assert_eq!(parse_i32(&decimal_text(n as u64)), Some(n));
    }
}

#[test]
fn integers_agree_with_std() {
    for s in [
        "", "+", "-", "0", "-0", "+7", "7", "007", "2147483647", "2147483648", "-2147483648",
        "-2147483649", "99999999999999999999", "1a", "a1", " 1", "1 ", "1_0", "--1", "+-1", "ä",
        "99999999999a",
    ] {
        assert_eq!(parse_i32(s), s.parse::<i32>().ok(), "{s:?}");
    }
}

fn float_size(size: u64) -> String {
    if size < 1024 {
        format!("{size:>4}")
    } else if size < 1024 * 1024 {
        format!("{:>4.1}K", size as f64 / 1024.0)
    } else if size < 1024 * 1024 * 1024 {
        format!("{:>4.1}M", size as f64 / (1024.0 * 1024.0))
    } else {
        format!("{:>4.1}G", size as f64 / (1024.0 * 1024.0 * 1024.0))
    }
}

#[test]
fn sizes_have_exact_values() {
    assert_eq!(human_readable_size(0), "   0");
    assert_eq!(human_readable_size(1023), "1023");
    assert_eq!(human_readable_size(1024), " 1.0K");
    assert_eq!(human_readable_size(1536), " 1.5K");
    assert_eq!(human_readable_size(1048575), "1024.0K");
    assert_eq!(human_readable_size(1048576), " 1.0M");
    assert_eq!(human_readable_size(1073741824), " 1.0G");
    assert_eq!(human_readable_size(u64::MAX), "17179869184.0G");
}

#[test]
fn sizes_agree_with_floating_point() {
    for size in 0..70_000u64 {
        assert_eq!(human_readable_size(size), float_size(size), "{size}");
    }
    let mut x: u64 = 88172645463325252;
    for _ in 0..60_000 {
        x ^= x << 13;
        x ^= x >> 7;
        x ^= x << 17;
        for shift in [0, 5, 11, 20, 30, 40] {
            let size = x >> shift;
            assert_eq!(human_readable_size(size), float_size(size), "{size}");
        }
    }
    // Halfway between two tenths, and around values that need more than 53 bits.
    for k in 0..2000u64 {
        for base in [1u64 << 30, 1 << 53, 1 << 60, 1 << 63] {
            let size = base + k * ((1 << 30) / 20);
            assert_eq!(human_readable_size(size), float_size(size), "{size}");
            assert_eq!(human_readable_size(size + 1), float_size(size + 1), "{size}");
            assert_eq!(human_readable_size(size - 1), float_size(size - 1), "{size}");
        }
    }
}

#[test]
fn globs_match() {
    for (pattern, text, expected) in [
        ("", "", true),
        ("", "a", false),
        ("*", "", true),
        ("*", "abc", true),
        ("a*c", "abbc", true),
        ("a*c", "abbd", false),
        ("*a*b*", "xaxbx", true),
        ("*a*b*", "xbxax", false),
        ("?", "ä", true),
        ("?", "", false),
        ("[abc]", "b", true),
        ("[abc]", "d", false),
        ("[a-c]x", "bx", true),
        ("[!a-c]", "b", false),
        ("[^a-c]", "d", true),
        ("[]]", "]", true),
        ("[!]]", "]", false),
        ("[a-]", "-", true),
        ("[-a]", "-", true),
        ("[", "[", true),
        ("[a", "[a", true),
        ("[]", "[]", true),
        ("[*]", "*", true),
        ("[*]", "a", false),
        ("a.b", "axb", false),
    ] {
        assert_eq!(matches_glob(pattern, text), expected, "{pattern:?} {text:?}");
    }
    let stars = "*a".repeat(30);
    assert!(!matches_glob(&stars, &"a".repeat(29)));
    assert!(matches_glob(&stars, &"a".repeat(31)));
}

#[test]
fn plain_patterns_match_themselves() {
    for p in ["", "ls", "[", "[]", "a-b", "x]", "ä!"] {
        assert!(!has_wildcard(p), "{p:?}");
        for t in ["", "ls", "[", "[]", "a-b", "x]", "ä!", "l"] {
            assert_eq!(matches_glob(p, t), p == t, "{p:?} {t:?}");
        }
    }
    for p in ["*", "a?", "x[y]", "[!a]", "[]]"] {
        assert!(has_wildcard(p), "{p:?}");
    }
    for t in ["ls", "lsof", "l", "als"] {
        assert_eq!(matches_glob("ls*", t), t.starts_with("ls"));
    }
}
